use flowable_engine::entities::{Execution, ProcessInstance, RuntimeTimerJobState, Task};
use flowable_engine::event_subprocesses::{activate_event_subprocess, EventSubprocessEventSubscription};
use flowable_engine::events::EventSubscriptionKind;
use flowable_engine::store::RuntimeStore;
use flowable_engine::triggers::TriggerEventSubprocessByEventCmd;

fn execution(id: &str, parent: Option<&str>) -> Execution {
    Execution {
        id: id.to_string(),
        parent_id: parent.map(|p| p.to_string()),
        process_instance_id: Some("pi".to_string()),
        process_definition_id: Some("def".to_string()),
        activity_id: Some(format!("act-{}", id)),
        is_suspended: false,
        is_active: true,
        is_scope: false,
        is_ended: false,
    }
}

fn subscription(id: &str, scope: Option<&str>, kind: EventSubscriptionKind, event_ref: &str, interrupting: bool) -> EventSubprocessEventSubscription {
    EventSubprocessEventSubscription {
        subscription_id: id.to_string(),
        process_instance_id: "pi".to_string(),
        scope_execution_id: scope.map(|s| s.to_string()),
        scope_activity_id: None,
        event_subprocess_id: format!("esp-{}", id),
        start_event_id: format!("start-{}", id),
        interrupting,
        event_kind: kind,
        event_ref: event_ref.to_string(),
        configuration: None,
    }
}

fn store() -> RuntimeStore {
    let mut s = RuntimeStore::new();
    s.insert_process_instance(ProcessInstance::new("pi".to_string(), "def".to_string(), "key".to_string()));
    s.insert_execution(execution("pi", None));
    s.insert_execution(execution("sp", Some("pi")));
    s.insert_execution(execution("x", Some("sp")));
    s.insert_execution(execution("y", Some("pi")));
    s.insert_task(Task::new("t1".to_string(), "pi".to_string(), "x".to_string(), "user".to_string(), "User".to_string()));
    s.insert_task(Task::new("t2".to_string(), "pi".to_string(), "y".to_string(), "user".to_string(), "User".to_string()));
    s.insert_timer_job_state(RuntimeTimerJobState::new("j-x".to_string(), "pi".to_string(), "x".to_string(), "timer".to_string()));
    s
}

#[test]
fn non_interrupting_message_subprocess_runs_beside_the_process() {
    let mut s = store();
    let subs = vec![subscription("s1", None, EventSubscriptionKind::Message, "order", false)];
    let cmd = TriggerEventSubprocessByEventCmd::new(EventSubscriptionKind::Message, "order".to_string(), "pi".to_string());
    let (result, acts) = cmd.run(&mut s, &subs, &Vec::new());
    assert_eq!(result.triggered_ids, vec!["event_subprocess_message:pi:start-s1".to_string()]);
    assert!(!result.interrupting);
    assert_eq!(acts.len(), 1);
    let started = acts[0].execution.as_ref().unwrap();
    assert_eq!(started.parent_id.as_deref(), Some("pi"));
    assert_eq!(started.activity_id.as_deref(), Some("start-s1"));
    assert!(started.is_scope && started.is_active);
    assert!(acts[0].interrupted.is_empty() && acts[0].cleared_scope.is_none() && !acts[0].consumed);
    assert!(s.find_execution(&"x".to_string()).is_some());
}

#[test]
fn interrupting_subprocess_ends_its_scope() {
    let mut s = store();
    let sub = subscription("s2", Some("sp"), EventSubscriptionKind::Signal, "alarm", true);
    let a = activate_event_subprocess(&mut s, &sub);
    let mut ended = a.interrupted.clone();
    ended.sort();
    assert_eq!(ended, vec!["sp".to_string(), "x".to_string()]);
    assert_eq!(a.cleared_scope.as_deref(), Some("sp"));
    assert!(a.consumed);
    assert!(s.find_execution(&"x".to_string()).is_none());
    let scope = s.find_execution(&"sp".to_string()).unwrap();
    assert!(!scope.is_active);
    assert_eq!(scope.activity_id.as_deref(), Some("act-sp"));
    assert!(s.find_execution(&"y".to_string()).is_some());
    assert!(s.find_task(&"t1".to_string()).is_none());
    assert!(s.find_task(&"t2".to_string()).is_some());
    assert!(s.find_timer_job_state(&"j-x".to_string()).is_none());
    assert_eq!(a.execution.unwrap().parent_id.as_deref(), Some("sp"));
}

#[test]
fn interrupting_the_instance_scope_detaches_its_row() {
    let mut s = store();
    let sub = subscription("s3", None, EventSubscriptionKind::Message, "cancel", true);
    let a = activate_event_subprocess(&mut s, &sub);
    assert_eq!(a.interrupted.len(), 4);
    let root = s.find_execution(&"pi".to_string()).unwrap();
    assert!(!root.is_active && root.activity_id.is_none() && !root.is_ended);
    assert!(s.find_execution(&"y".to_string()).is_none());
    assert_eq!(a.execution.unwrap().parent_id.as_deref(), Some("pi"));
}

#[test]
fn missing_instance_starts_nothing() {
    let mut s = RuntimeStore::new();
    let sub = subscription("s4", None, EventSubscriptionKind::Message, "order", false);
    let a = activate_event_subprocess(&mut s, &sub);
    assert!(a.execution.is_none());
}

#[test]
fn thrown_error_goes_to_the_nearest_subprocess() {
    let subs = vec![
        subscription("outer", None, EventSubscriptionKind::Error, "", true),
        subscription("inner", Some("sp"), EventSubscriptionKind::Error, "E1", true),
        subscription("other", Some("sp"), EventSubscriptionKind::Message, "E1", true),
    ];
    let mut s = store();
    let cmd = TriggerEventSubprocessByEventCmd::with_source_execution(
        EventSubscriptionKind::Error,
        "E1".to_string(),
        "pi".to_string(),
        "x".to_string(),
    );
    let (result, acts) = cmd.run(&mut s, &subs, &Vec::new());
    assert_eq!(result.triggered_ids, vec!["event_subprocess_error:pi:start-inner".to_string()]);
    assert!(result.interrupting);
    assert!(!acts[0].consumed);
    let mut s = store();
    let cmd = TriggerEventSubprocessByEventCmd::with_source_execution(
        EventSubscriptionKind::Error,
        "E2".to_string(),
        "pi".to_string(),
        "x".to_string(),
    );
    let (result, _) = cmd.run(&mut s, &subs, &Vec::new());
    assert_eq!(result.triggered_ids, vec!["event_subprocess_error:pi:start-outer".to_string()]);
}

#[test]
fn unmatched_event_activates_nothing() {
    let mut s = store();
    let subs = vec![subscription("s1", None, EventSubscriptionKind::Message, "order", true)];
    let cmd = TriggerEventSubprocessByEventCmd::new(EventSubscriptionKind::Message, "other".to_string(), "pi".to_string());
    let (result, acts) = cmd.run(&mut s, &subs, &Vec::new());
    assert!(result.triggered_ids.is_empty() && !result.interrupting && acts.is_empty());
    assert!(s.find_execution(&"x".to_string()).is_some());
}
