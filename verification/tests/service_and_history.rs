use flowable_engine::entities::Execution;
use flowable_engine::error::FlowableError;
use flowable_engine::events::{EventSubscription, EventSubscriptionKind, RuntimeEventWaitKind, RuntimeEventWaitState};
use flowable_engine::form_details::{HistoricDetail, RecordFormPropertyDetailCmd};
use flowable_engine::service_triggers::TriggerSendEventServiceTaskCmd;
use flowable_engine::store::RuntimeStore;

fn execution(id: &str, suspended: bool) -> Execution {
    Execution {
        id: id.to_string(),
        parent_id: None,
        process_instance_id: Some("pi".to_string()),
        process_definition_id: Some("def".to_string()),
        activity_id: Some("send".to_string()),
        is_suspended: suspended,
        is_active: false,
        is_scope: false,
        is_ended: false,
    }
}

fn send_wait(execution_id: &str, kind: RuntimeEventWaitKind, sub_kind: EventSubscriptionKind, key: &str) -> RuntimeEventWaitState {
    RuntimeEventWaitState {
        execution_id: execution_id.to_string(),
        process_instance_id: "pi".to_string(),
        activity_id: "send".to_string(),
        wait_kind: kind,
        event_subscription: Some(EventSubscription { kind: sub_kind, event_ref: key.to_string() }),
        task_id: None,
    }
}

#[test]
fn send_event_trigger_reaches_the_waiting_task() {
    let mut s = RuntimeStore::new();
    s.insert_execution(execution("e1", false));
    let waits = vec![send_wait("e1", RuntimeEventWaitKind::SendEventTask, EventSubscriptionKind::EventRegistry, "reply")];
    let cmd = TriggerSendEventServiceTaskCmd::new("e1".to_string(), "reply".to_string(), "{}".to_string())
        .with_inbound_delivery_id("delivery-1".to_string());
    assert_eq!(cmd.inbound_delivery_id.as_deref(), Some("delivery-1"));
    let e = cmd.run(&s, &waits).unwrap().unwrap();
    assert_eq!(e.id, "e1");
}

#[test]
fn send_event_trigger_ignores_other_waits() {
    let mut s = RuntimeStore::new();
    s.insert_execution(execution("e1", false));
    let wrong_key = vec![send_wait("e1", RuntimeEventWaitKind::SendEventTask, EventSubscriptionKind::EventRegistry, "other")];
    let wrong_kind = vec![send_wait("e1", RuntimeEventWaitKind::ReceiveTask, EventSubscriptionKind::EventRegistry, "reply")];
    let wrong_sub = vec![send_wait("e1", RuntimeEventWaitKind::SendEventTask, EventSubscriptionKind::Message, "reply")];
    let cmd = TriggerSendEventServiceTaskCmd::new("e1".to_string(), "reply".to_string(), "{}".to_string());
    assert!(matches!(cmd.run(&s, &wrong_key), Ok(None)));
    assert!(matches!(cmd.run(&s, &wrong_kind), Ok(None)));
    assert!(matches!(cmd.run(&s, &wrong_sub), Ok(None)));
    assert!(matches!(cmd.run(&s, &Vec::new()), Ok(None)));
}

#[test]
fn send_event_trigger_errors() {
    let mut s = RuntimeStore::new();
    let waits = vec![send_wait("e1", RuntimeEventWaitKind::SendEventTask, EventSubscriptionKind::EventRegistry, "reply")];
    let cmd = TriggerSendEventServiceTaskCmd::new("e1".to_string(), "reply".to_string(), "{}".to_string());
    match cmd.run(&s, &waits) {
        Err(FlowableError::NotFound(m)) => assert_eq!(m, "No execution could be found for id e1"),
        other => panic!("unexpected {:?}", other),
    }
    s.insert_execution(execution("e1", true));
    match cmd.run(&s, &waits) {
        Err(FlowableError::ExecutionError(m)) => assert_eq!(m, "Cannot trigger a suspended execution 'e1'"),
        other => panic!("unexpected {:?}", other),
    }
}

#[test]
fn form_property_detail_is_recorded() {
    let mut details: Vec<HistoricDetail> = Vec::new();
    let cmd = RecordFormPropertyDetailCmd::new(
        "pi".to_string(),
        Some("task-1".to_string()),
        "amount".to_string(),
        "42".to_string(),
    );
    let first = cmd.run(&mut details);
    let second = cmd.run(&mut details);
    assert_eq!(details.len(), 2);
    assert_eq!(first.detail_type, "formProperty");
    assert_eq!(first.property_id.as_deref(), Some("amount"));
    assert_eq!(first.property_value.as_deref(), Some("42"));
    assert_eq!(first.task_id.as_deref(), Some("task-1"));
    assert!(first.variable_name.is_none() && first.value.is_none());
    assert_eq!(first.id.len(), 36);
    assert_ne!(first.id, second.id);
    assert!(first.time > 0);
    assert_eq!(details[0].id, first.id);
}
