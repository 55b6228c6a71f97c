use flowable_engine::boundary::RuntimeBoundaryEventState;
use flowable_engine::command::{ActivationCoordinator, CommandContext, EngineConfig};
use flowable_engine::correlate::{CorrelateMessageCmd, CorrelateMessageOptions, CorrelateMessageResult};
use flowable_engine::entities::{Execution, ProcessInstance};
use flowable_engine::event_subprocesses::EventSubprocessEventSubscription;
use flowable_engine::events::{EventSubscription, EventSubscriptionKind};
use flowable_engine::store::RuntimeStore;

fn execution(id: &str, parent: Option<&str>) -> Execution {
    Execution {
        id: id.to_string(),
        parent_id: parent.map(|p| p.to_string()),
        process_instance_id: Some("pi".to_string()),
        process_definition_id: Some("def".to_string()),
        activity_id: Some("act".to_string()),
        is_suspended: false,
        is_active: false,
        is_scope: false,
        is_ended: false,
    }
}

fn context() -> CommandContext {
    let mut s = RuntimeStore::new();
    s.insert_process_instance(ProcessInstance::new("pi".to_string(), "def".to_string(), "key".to_string()));
    s.insert_execution(execution("pi", None));
    s.insert_execution(execution("h", Some("pi")));
    CommandContext::new(s, EngineConfig::new(), ActivationCoordinator::inactive(), 1_000)
}

fn options(start_new: bool) -> CorrelateMessageOptions {
    CorrelateMessageOptions { process_instance_id: None, business_key: None, tenant_id: None, start_new_if_no_match: start_new }
}

#[test]
fn fallback_fires_a_boundary_event_first() {
    let mut ctx = context();
    let states = vec![RuntimeBoundaryEventState {
        boundary_event_id: "b".to_string(),
        attached_activity_id: "act".to_string(),
        process_instance_id: "pi".to_string(),
        host_execution_id: "h".to_string(),
        cancel_activity: true,
        event_subscription: EventSubscription { kind: EventSubscriptionKind::Message, event_ref: "order".to_string() },
        configuration: None,
    }];
    let cmd = CorrelateMessageCmd::new("order".to_string(), options(false));
    match cmd.fallback(&mut ctx, &states, &Vec::new(), &Vec::new(), &Vec::new()).unwrap() {
        CorrelateMessageResult::MatchedExecution { execution_id, process_instance_id } => {
            assert!(execution_id.is_empty());
            assert_eq!(process_instance_id, "pi");
        },
        other => panic!("unexpected {:?}", other),
    }
    assert!(ctx.session.find_execution(&"h".to_string()).is_none());
}

#[test]
fn fallback_starts_an_event_subprocess_or_reports_no_match() {
    let mut ctx = context();
    let subs = vec![EventSubprocessEventSubscription {
        subscription_id: "s".to_string(),
        process_instance_id: "pi".to_string(),
        scope_execution_id: None,
        scope_activity_id: None,
        event_subprocess_id: "esp".to_string(),
        start_event_id: "start".to_string(),
        interrupting: false,
        event_kind: EventSubscriptionKind::Message,
        event_ref: "order".to_string(),
        configuration: None,
    }];
    let cmd = CorrelateMessageCmd::new("order".to_string(), options(false));
    assert!(matches!(
        cmd.fallback(&mut ctx, &Vec::new(), &subs, &Vec::new(), &Vec::new()),
        Ok(CorrelateMessageResult::MatchedExecution { .. })
    ));
    let other = CorrelateMessageCmd::new("other".to_string(), options(false));
    assert!(matches!(other.fallback(&mut ctx, &Vec::new(), &subs, &Vec::new(), &Vec::new()), Ok(CorrelateMessageResult::NoMatch)));
    let starting = CorrelateMessageCmd::new("other".to_string(), options(true));
    assert!(starting.fallback(&mut ctx, &Vec::new(), &subs, &Vec::new(), &Vec::new()).is_err());
}
