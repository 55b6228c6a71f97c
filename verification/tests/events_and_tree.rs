use flowable_engine::boundary::{
    error_refs_match, escalation_refs_match, normalize_error_ref, normalize_escalation_ref, select_nearest_boundary,
    signal_refs_match_in_model, ErrorDefinition, EscalationDefinition, EventRefModel, RuntimeBoundaryEventState,
    SignalDefinition,
};
use flowable_engine::boundary_catch::{
    error_model_for_boundary_state, select_nearest_error_boundary, select_nearest_escalation_boundary, DeployedModel,
};
use flowable_engine::correlate::{
    fallback_process_instances, find_wait_state_target, is_message_wait_kind, matches_message_ref,
    CorrelateMessageOptions,
};
use flowable_engine::entities::{Execution, ProcessInstance};
use flowable_engine::events::{EventSubscription, EventSubscriptionKind, RuntimeEventWaitKind, RuntimeEventWaitState};
use flowable_engine::execution_tree::{descendant_execution_ids, execution_ancestry};
use flowable_engine::store::RuntimeStore;

fn execution(id: &str, parent: Option<&str>) -> Execution {
    Execution {
        id: id.to_string(),
        parent_id: parent.map(|p| p.to_string()),
        process_instance_id: Some("pi".to_string()),
        process_definition_id: None,
        activity_id: None,
        is_suspended: false,
        is_active: true,
        is_scope: true,
        is_ended: false,
    }
}

fn tree() -> RuntimeStore {
    let mut s = RuntimeStore::new();
    s.insert_execution(execution("pi", None));
    s.insert_execution(execution("a", Some("pi")));
    s.insert_execution(execution("b", Some("pi")));
    s.insert_execution(execution("a1", Some("a")));
    s
}

fn wait(execution_id: &str, pi: &str, kind: RuntimeEventWaitKind, message: Option<&str>) -> RuntimeEventWaitState {
    RuntimeEventWaitState {
        execution_id: execution_id.to_string(),
        process_instance_id: pi.to_string(),
        activity_id: "act".to_string(),
        wait_kind: kind,
        event_subscription: message.map(|m| EventSubscription { kind: EventSubscriptionKind::Message, event_ref: m.to_string() }),
        task_id: None,
    }
}

#[test]
fn ancestry_walks_up_nearest_first() {
    let s = tree();
    assert_eq!(execution_ancestry(&s, &"a1".to_string()), vec!["a1".to_string(), "a".to_string(), "pi".to_string()]);
    assert!(execution_ancestry(&s, &"missing".to_string()).is_empty());
}

#[test]
fn descendants_cover_the_whole_subtree_once() {
    let s = tree();
    let mut d = descendant_execution_ids(&s, &"pi".to_string());
    d.sort();
    assert_eq!(d, vec!["a".to_string(), "a1".to_string(), "b".to_string()]);
    assert!(descendant_execution_ids(&s, &"b".to_string()).is_empty());
}

#[test]
fn message_waits_are_catch_events_and_receive_tasks() {
    assert!(is_message_wait_kind(&RuntimeEventWaitKind::MessageIntermediateCatchEvent));
    assert!(is_message_wait_kind(&RuntimeEventWaitKind::ReceiveTask));
    assert!(!is_message_wait_kind(&RuntimeEventWaitKind::SignalIntermediateCatchEvent));
    let w = wait("e", "pi", RuntimeEventWaitKind::ReceiveTask, Some("order"));
    assert!(matches_message_ref(&w, "order"));
    assert!(!matches_message_ref(&w, "other"));
}

#[test]
fn correlation_picks_smallest_eligible_execution() {
    let mut s = RuntimeStore::new();
    let mut pi = ProcessInstance::new("pi-1".to_string(), "def".to_string(), "key".to_string());
    pi.business_key = Some("bk".to_string());
    s.insert_process_instance(pi);
    let waits = vec![
        wait("e9", "pi-1", RuntimeEventWaitKind::MessageIntermediateCatchEvent, Some("order")),
        wait("e2", "pi-1", RuntimeEventWaitKind::ReceiveTask, Some("order")),
        wait("e1", "pi-1", RuntimeEventWaitKind::SignalIntermediateCatchEvent, Some("order")),
        wait("e0", "pi-1", RuntimeEventWaitKind::ReceiveTask, Some("other")),
    ];
    let t = find_wait_state_target(&s, &waits, "order", None, None, None).unwrap();
    assert_eq!(t.execution_id, "e2");
    assert_eq!(t.process_instance_id, "pi-1");
    assert!(find_wait_state_target(&s, &waits, "order", None, Some("bk"), None).is_some());
    assert!(find_wait_state_target(&s, &waits, "order", None, Some("nope"), None).is_none());
    assert!(find_wait_state_target(&s, &waits, "order", Some("pi-2"), None, None).is_none());
    assert!(find_wait_state_target(&s, &waits, "missing", None, None, None).is_none());
}

#[test]
fn fallback_instances_skip_ended_and_filtered() {
    let mut s = RuntimeStore::new();
    let mut ended = ProcessInstance::new("p1".to_string(), "d".to_string(), "k".to_string());
    ended.is_ended = true;
    s.insert_process_instance(ended);
    let mut tenant = ProcessInstance::new("p2".to_string(), "d".to_string(), "k".to_string());
    tenant.tenant_id = Some("t1".to_string());
    s.insert_process_instance(tenant);
    s.insert_process_instance(ProcessInstance::new("p3".to_string(), "d".to_string(), "k".to_string()));
    let all = CorrelateMessageOptions { process_instance_id: None, business_key: None, tenant_id: None, start_new_if_no_match: false };
    assert_eq!(fallback_process_instances(&s, &all), vec!["p2".to_string(), "p3".to_string()]);
    let t1 = CorrelateMessageOptions {
        process_instance_id: None,
        business_key: None,
        tenant_id: Some("t1".to_string()),
        start_new_if_no_match: false,
    };
    assert_eq!(fallback_process_instances(&s, &t1), vec!["p2".to_string()]);
}

fn model() -> EventRefModel {
    EventRefModel {
        escalations: vec![EscalationDefinition { id: Some("escRef".to_string()), escalation_code: Some("ESC-1".to_string()) }],
        errors: vec![ErrorDefinition { error_ref: "errRef".to_string(), error_code: "ERR-1".to_string() }],
        signals: vec![SignalDefinition { id: Some("sigId".to_string()), name: Some("sigName".to_string()) }],
    }
}

fn boundary(host: &str, kind: EventSubscriptionKind, event_ref: &str) -> RuntimeBoundaryEventState {
    RuntimeBoundaryEventState {
        boundary_event_id: format!("b-{}-{}", host, event_ref),
        attached_activity_id: "task".to_string(),
        process_instance_id: "pi".to_string(),
        host_execution_id: host.to_string(),
        cancel_activity: true,
        event_subscription: EventSubscription { kind, event_ref: event_ref.to_string() },
        configuration: None,
    }
}

#[test]
fn references_normalize_through_the_model() {
    let m = model();
    assert_eq!(normalize_escalation_ref(Some(&m), "escRef"), "ESC-1");
    assert_eq!(normalize_escalation_ref(Some(&m), "unknown"), "unknown");
    assert_eq!(normalize_escalation_ref(None, "escRef"), "escRef");
    assert_eq!(normalize_error_ref(Some(&m), "errRef"), "ERR-1");
    assert_eq!(normalize_error_ref(Some(&m), "ERR-1"), "ERR-1");
    assert!(signal_refs_match_in_model(Some(&m), "sigId", "sigName"));
    assert!(!signal_refs_match_in_model(Some(&m), "sigId", "other"));
}

#[test]
fn error_and_escalation_refs_match_by_code() {
    let m = model();
    let err = boundary("a", EventSubscriptionKind::Error, "errRef");
    assert!(error_refs_match(Some(&m), &err, "ERR-1"));
    assert!(!error_refs_match(Some(&m), &err, "ERR-2"));
    let esc = boundary("a", EventSubscriptionKind::Escalation, "escRef");
    assert!(escalation_refs_match(Some(&m), &esc, "ESC-1"));
}

#[test]
fn nearest_boundary_prefers_the_closest_host() {
    let states = vec![
        boundary("pi", EventSubscriptionKind::Error, "E"),
        boundary("a", EventSubscriptionKind::Error, ""),
        boundary("a", EventSubscriptionKind::Error, "E"),
    ];
    let exact = vec![true, false, true];
    let ancestry = vec!["a1".to_string(), "a".to_string(), "pi".to_string()];
    // on `a`, the boundary naming the error wins over the catch-all
    assert_eq!(select_nearest_boundary(&states, &exact, &ancestry, false), Some(2));
    let exact_none = vec![false, false, false];
    // no boundary names it: the catch-all on the nearest host catches
    assert_eq!(select_nearest_boundary(&states, &exact_none, &ancestry, false), Some(1));
    // without an ancestry: the first naming it anywhere
    assert_eq!(select_nearest_boundary(&states, &exact, &Vec::new(), false), Some(0));
    assert_eq!(select_nearest_boundary(&Vec::new(), &Vec::new(), &ancestry, false), None);
}

fn execution_in(id: &str, parent: Option<&str>, definition: &str) -> Execution {
    let mut e = execution(id, parent);
    e.process_definition_id = Some(definition.to_string());
    e
}

#[test]
fn nearest_error_boundary_reads_refs_against_the_host_model() {
    let mut s = RuntimeStore::new();
    s.insert_execution(execution_in("pi", None, "def"));
    s.insert_execution(execution_in("a", Some("pi"), "def"));
    s.insert_execution(execution_in("a1", Some("a"), "def"));
    let models = vec![DeployedModel { process_definition_id: "def".to_string(), model: model() }];
    let states = vec![
        boundary("pi", EventSubscriptionKind::Error, "errRef"),
        boundary("a", EventSubscriptionKind::Error, "other"),
    ];
    assert!(error_model_for_boundary_state(&s, &models, &states[0]).is_some());
    assert!(error_model_for_boundary_state(&s, &models, &boundary("gone", EventSubscriptionKind::Error, "")).is_none());
    // "ERR-1" is errRef's code: the boundary on `pi` names it, the one on `a` does not
    let caught = select_nearest_error_boundary(&s, &models, states, Some(&"a1".to_string()), "ERR-1").unwrap();
    assert_eq!(caught.host_execution_id, "pi");
    let esc_states = vec![
        boundary("pi", EventSubscriptionKind::Escalation, "escRef"),
        boundary("a", EventSubscriptionKind::Escalation, "other"),
    ];
    // for escalations any boundary on the nearest host catches
    let caught = select_nearest_escalation_boundary(&s, &models, esc_states, Some(&"a1".to_string()), "ESC-1").unwrap();
    assert_eq!(caught.host_execution_id, "a");
    assert!(select_nearest_error_boundary(&s, &models, Vec::new(), None, "x").is_none());
}
