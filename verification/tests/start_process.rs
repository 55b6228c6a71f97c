use flowable_engine::command::{ActivationCoordinator, CommandContext, EngineConfig};
use flowable_engine::entities::ProcessDefinition;
use flowable_engine::error::FlowableError;
use flowable_engine::start::{
    resolve_process_definition, ProcessInstanceBuilder, StartProcessInstanceAsyncCmd, StartProcessInstanceCmd,
};
use flowable_engine::store::RuntimeStore;
use flowable_engine::events::EventSubscriptionKind;
use flowable_engine::start_subscriptions::ProcessEventStartSubscription;
use flowable_engine::triggers::TriggerProcessStartByEventCmd;

fn definition(id: &str, key: &str, version: i32, suspended: bool) -> ProcessDefinition {
    ProcessDefinition {
        id: id.to_string(),
        key: key.to_string(),
        name: Some("Orders".to_string()),
        version,
        is_suspended: suspended,
        tenant_id: None,
    }
}

fn builder_by_key(key: &str) -> ProcessInstanceBuilder {
    ProcessInstanceBuilder {
        process_definition_id: None,
        process_definition_key: Some(key.to_string()),
        tenant_id: None,
        name: None,
        business_key: Some("bk-1".to_string()),
        business_status: None,
        start_user_id: None,
        callback_id: None,
        callback_type: None,
        reference_id: None,
        reference_type: None,
        super_execution_id: None,
    }
}

fn store() -> RuntimeStore {
    let mut s = RuntimeStore::new();
    s.insert_process_definition(definition("orders:1", "orders", 1, false));
    s.insert_process_definition(definition("orders:3", "orders", 3, false));
    s.insert_process_definition(definition("orders:2", "orders", 2, false));
    s.insert_process_definition(definition("held:1", "held", 1, true));
    s
}

fn context(s: RuntimeStore) -> CommandContext {
    CommandContext::new(s, EngineConfig::new(), ActivationCoordinator::inactive(), 1_000)
}

#[test]
fn key_resolves_to_the_latest_version() {
    let s = store();
    let d = resolve_process_definition(&s, &builder_by_key("orders")).unwrap();
    assert_eq!(d.id, "orders:3");
    assert!(resolve_process_definition(&s, &builder_by_key("none")).is_none());
    let mut by_id = builder_by_key("orders");
    by_id.process_definition_id = Some("orders:1".to_string());
    assert_eq!(resolve_process_definition(&s, &by_id).unwrap().id, "orders:1");
}

#[test]
fn start_creates_instance_and_root_execution() {
    let mut ctx = context(store());
    let cmd = StartProcessInstanceCmd::new(builder_by_key("orders"));
    let pi = cmd.start(&mut ctx, Some("start".to_string())).unwrap();
    assert_eq!(pi.process_definition_id, "orders:3");
    assert_eq!(pi.business_key, Some("bk-1".to_string()));
    assert!(!pi.id.is_empty());
    let stored = ctx.session.find_process_instance(&pi.id).unwrap();
    assert_eq!(stored.id, pi.id);
    let root = ctx.session.find_execution(&pi.id).unwrap();
    assert_eq!(root.activity_id, Some("start".to_string()));
    assert!(root.is_active);
    assert!(root.parent_id.is_none());
}

#[test]
fn start_refuses_suspended_or_missing_definitions() {
    let mut ctx = context(store());
    match StartProcessInstanceCmd::new(builder_by_key("held")).start(&mut ctx, Some("s".to_string())) {
        Err(FlowableError::ExecutionError(m)) => {
            assert_eq!(m, "Cannot start process instance. Process definition Orders (id = held:1) is suspended")
        },
        other => panic!("unexpected {:?}", other),
    }
    match StartProcessInstanceCmd::new(builder_by_key("none")).start(&mut ctx, Some("s".to_string())) {
        Err(FlowableError::NotFound(m)) => assert_eq!(m, "No process definition found for process instance start request"),
        other => panic!("unexpected {:?}", other),
    }
    match StartProcessInstanceCmd::new(builder_by_key("orders")).start(&mut ctx, None) {
        Err(FlowableError::NotFound(m)) => {
            assert_eq!(m, "No StartEvent found in deployed model for process definition ID: orders:3")
        },
        other => panic!("unexpected {:?}", other),
    }
    assert_eq!(ctx.session.process_instances.rows.len(), 0);
}

#[test]
fn explicit_start_event_wins_over_the_model() {
    let mut ctx = context(store());
    let cmd = StartProcessInstanceCmd::with_start_event_id(builder_by_key("orders"), "other".to_string());
    let pi = cmd.start(&mut ctx, Some("start".to_string())).unwrap();
    assert_eq!(ctx.session.find_execution(&pi.id).unwrap().activity_id, Some("other".to_string()));
}

#[test]
fn async_start_queues_the_start_event_job() {
    let mut ctx = context(store());
    let cmd = StartProcessInstanceAsyncCmd::new(builder_by_key("held"));
    let pi = cmd.start(&mut ctx, Some("start".to_string()), Some("cat".to_string())).unwrap();
    let root = ctx.session.find_execution(&pi.id).unwrap();
    assert!(!root.is_active);
    assert_eq!(ctx.session.timer_jobs.rows.len(), 1);
    let job = &ctx.session.timer_jobs.rows[0];
    assert_eq!(job.process_instance_id, pi.id);
    assert_eq!(job.activity_id, "start");
    assert_eq!(job.due_time, Some(1_000));
    assert_eq!(job.category, Some("cat".to_string()));
    assert!(!job.exclusive);
}

fn start_sub(definition: &str, tenant: Option<&str>, kind: EventSubscriptionKind, event_ref: &str) -> ProcessEventStartSubscription {
    ProcessEventStartSubscription {
        process_definition_id: definition.to_string(),
        process_definition_key: "orders".to_string(),
        tenant_id: tenant.map(|t| t.to_string()),
        start_event_id: format!("start-{}", definition),
        start_event_name: None,
        event_kind: kind,
        event_ref: event_ref.to_string(),
        configuration: None,
    }
}

#[test]
fn message_start_uses_the_last_deployed_subscription() {
    let subs = vec![
        start_sub("orders:1", None, EventSubscriptionKind::Message, "new-order"),
        start_sub("orders:2", None, EventSubscriptionKind::Message, "new-order"),
        start_sub("orders:3", None, EventSubscriptionKind::Signal, "new-order"),
    ];
    let mut ctx = context(store());
    let cmd = TriggerProcessStartByEventCmd::new(EventSubscriptionKind::Message, "new-order".to_string())
        .with_business_key("bk-9".to_string());
    let pi = cmd.run(&mut ctx, &subs).unwrap();
    assert_eq!(pi.process_definition_id, "orders:2");
    assert_eq!(pi.business_key.as_deref(), Some("bk-9"));
    let root = ctx.session.find_execution(&pi.id).unwrap();
    assert_eq!(root.activity_id.as_deref(), Some("start-orders:2"));
    let pinned = TriggerProcessStartByEventCmd::new(EventSubscriptionKind::Message, "new-order".to_string())
        .with_process_definition_id("orders:1".to_string());
    assert_eq!(pinned.run(&mut ctx, &subs).unwrap().process_definition_id, "orders:1");
}

#[test]
fn message_start_without_subscription_fails() {
    let subs = vec![start_sub("orders:1", Some("acme"), EventSubscriptionKind::Message, "new-order")];
    let mut ctx = context(store());
    let cmd = TriggerProcessStartByEventCmd::new(EventSubscriptionKind::Message, "other".to_string());
    match cmd.run(&mut ctx, &subs) {
        Err(FlowableError::NotFound(m)) => {
            assert_eq!(m, "No Message start event subscription found for event_ref 'other' and tenant None")
        },
        other => panic!("unexpected {:?}", other),
    }
    let tenant = TriggerProcessStartByEventCmd::new(EventSubscriptionKind::Message, "new-order".to_string())
        .with_tenant_id("globex".to_string());
    match tenant.run(&mut ctx, &subs) {
        Err(FlowableError::NotFound(m)) => assert_eq!(
            m,
            "No Message start event subscription found for event_ref 'new-order' and tenant Some(\"globex\")"
        ),
        other => panic!("unexpected {:?}", other),
    }
    let acme = TriggerProcessStartByEventCmd::new(EventSubscriptionKind::Message, "new-order".to_string())
        .with_tenant_id("acme".to_string());
    assert_eq!(acme.run(&mut ctx, &subs).unwrap().tenant_id.as_deref(), Some("acme"));
}
