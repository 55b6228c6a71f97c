use flowable_engine::boundary::RuntimeBoundaryEventState;
use flowable_engine::boundary_firing::{boundary_state_consumed, find_boundary_timer, CycleSchedule};
use flowable_engine::entities::{Execution, RuntimeTimerJobState, Task};
use flowable_engine::events::{EventSubscription, EventSubscriptionKind};
use flowable_engine::store::RuntimeStore;
use flowable_engine::triggers::{
    TriggerBoundaryEventByEventRefCmd, TriggerBoundaryEventCmd, TriggerTimerBoundaryEventCmd,
};

fn execution(id: &str, parent: Option<&str>, active: bool) -> Execution {
    Execution {
        id: id.to_string(),
        parent_id: parent.map(|p| p.to_string()),
        process_instance_id: Some("pi".to_string()),
        process_definition_id: Some("def".to_string()),
        activity_id: Some(format!("act-{}", id)),
        is_suspended: false,
        is_active: active,
        is_scope: false,
        is_ended: false,
    }
}

fn task(id: &str, execution_id: &str) -> Task {
    Task::new(id.to_string(), "pi".to_string(), execution_id.to_string(), "user".to_string(), "User".to_string())
}

fn timer(id: &str, execution_id: &str) -> RuntimeTimerJobState {
    RuntimeTimerJobState::new(id.to_string(), "pi".to_string(), execution_id.to_string(), "timer".to_string())
}

fn store() -> RuntimeStore {
    let mut s = RuntimeStore::new();
    s.insert_execution(execution("pi", None, true));
    s.insert_execution(execution("h", Some("pi"), false));
    s.insert_execution(execution("c", Some("h"), false));
    s.insert_execution(execution("other", Some("pi"), false));
    s.insert_task(task("t1", "h"));
    s.insert_task(task("t2", "h"));
    s.insert_task(task("t3", "other"));
    s.insert_timer_job_state(timer("j-h", "h"));
    s.insert_timer_job_state(timer("j-c", "c"));
    s.insert_timer_job_state(timer("j-other", "other"));
    s
}

fn boundary(id: &str, host: &str, cancel: bool, kind: EventSubscriptionKind, event_ref: &str) -> RuntimeBoundaryEventState {
    RuntimeBoundaryEventState {
        boundary_event_id: id.to_string(),
        attached_activity_id: format!("act-{}", host),
        process_instance_id: "pi".to_string(),
        host_execution_id: host.to_string(),
        cancel_activity: cancel,
        event_subscription: EventSubscription { kind, event_ref: event_ref.to_string() },
        configuration: None,
    }
}

#[test]
fn interrupting_message_boundary_ends_the_host_subtree() {
    let mut s = store();
    let states = vec![
        boundary("b-other", "other", true, EventSubscriptionKind::Message, "other-message"),
        boundary("b1", "h", true, EventSubscriptionKind::Message, "order"),
    ];
    let cmd = TriggerBoundaryEventByEventRefCmd::new(EventSubscriptionKind::Message, "order".to_string(), "pi".to_string());
    let (result, firing) = cmd.run(&mut s, &states, &Vec::new());
    assert!(result.triggered && result.interrupting);
    let firing = firing.unwrap();
    let mut ended = firing.interrupted.clone();
    ended.sort();
    assert_eq!(ended, vec!["c".to_string(), "h".to_string()]);
    assert_eq!(firing.execution.activity_id.as_deref(), Some("b1"));
    assert_eq!(firing.execution.parent_id.as_deref(), Some("pi"));
    assert!(firing.execution.is_active);
    assert!(s.find_execution(&"h".to_string()).is_none());
    assert!(s.find_execution(&"c".to_string()).is_none());
    assert!(s.find_execution(&"other".to_string()).is_some());
    assert!(s.find_execution(&firing.execution.id).is_some());
    assert!(s.find_task(&"t1".to_string()).is_none());
    assert!(s.find_task(&"t2".to_string()).is_some());
    assert!(s.find_task(&"t3".to_string()).is_some());
    assert!(s.find_timer_job_state(&"j-h".to_string()).is_none());
    assert!(s.find_timer_job_state(&"j-c".to_string()).is_none());
    assert!(s.find_timer_job_state(&"j-other".to_string()).is_some());
}

#[test]
fn unmatched_event_triggers_nothing() {
    let mut s = store();
    let states = vec![boundary("b1", "h", true, EventSubscriptionKind::Message, "order")];
    let cmd = TriggerBoundaryEventByEventRefCmd::new(EventSubscriptionKind::Signal, "order".to_string(), "pi".to_string());
    let (result, firing) = cmd.run(&mut s, &states, &Vec::new());
    assert!(!result.triggered && !result.interrupting);
    assert!(firing.is_none());
    assert!(s.find_execution(&"h".to_string()).is_some());
}

#[test]
fn non_interrupting_boundary_keeps_the_host() {
    let mut s = store();
    let states = vec![boundary("b2", "h", false, EventSubscriptionKind::Signal, "alarm")];
    let cmd = TriggerBoundaryEventCmd::new("b2".to_string(), "pi".to_string());
    let firing = cmd.run(&mut s, &states, true).unwrap();
    assert!(firing.interrupted.is_empty());
    assert!(s.find_execution(&"h".to_string()).is_some());
    assert!(s.find_task(&"t1".to_string()).is_some());
    assert!(!boundary_state_consumed(&states[0]));
    assert!(boundary_state_consumed(&boundary("b3", "h", false, EventSubscriptionKind::Error, "e")));
    assert!(boundary_state_consumed(&boundary("b4", "h", true, EventSubscriptionKind::Signal, "s")));
}

#[test]
fn busy_hosts_and_false_conditions_fire_nothing() {
    let mut s = store();
    let mut busy = execution("h", Some("pi"), true);
    busy.is_scope = false;
    s.insert_execution(busy);
    let states = vec![
        boundary("b1", "h", true, EventSubscriptionKind::Message, "order"),
        boundary("b5", "other", true, EventSubscriptionKind::Conditional, "${x > 1}"),
    ];
    assert!(TriggerBoundaryEventCmd::new("b1".to_string(), "pi".to_string()).run(&mut s, &states, true).is_none());
    assert!(TriggerBoundaryEventCmd::new("b5".to_string(), "pi".to_string()).run(&mut s, &states, false).is_none());
    assert!(s.find_execution(&"other".to_string()).is_some());
    assert!(TriggerBoundaryEventCmd::new("b5".to_string(), "pi".to_string()).run(&mut s, &states, true).is_some());
    assert!(s.find_execution(&"other".to_string()).is_none());
    let mut scope = execution("h", Some("pi"), true);
    scope.is_scope = true;
    s.insert_execution(scope);
    assert!(TriggerBoundaryEventCmd::new("b1".to_string(), "pi".to_string()).run(&mut s, &states, true).is_some());
}

#[test]
fn interrupting_the_instance_row_retires_it() {
    let mut s = RuntimeStore::new();
    let mut root = execution("pi", None, false);
    root.activity_id = Some("wait".to_string());
    s.insert_execution(root);
    let states = vec![boundary("b1", "pi", true, EventSubscriptionKind::Message, "order")];
    let firing = TriggerBoundaryEventCmd::new("b1".to_string(), "pi".to_string()).run(&mut s, &states, true).unwrap();
    assert_eq!(firing.interrupted, vec!["pi".to_string()]);
    let row = s.find_execution(&"pi".to_string()).unwrap();
    assert!(row.is_ended && !row.is_active);
    assert!(row.activity_id.is_none());
}

#[test]
fn repeating_boundary_timer_is_rescheduled_or_retired() {
    let mut s = store();
    let mut t = timer("j-b", "h");
    t.is_boundary = true;
    t.activity_id = "tb".to_string();
    t.time_cycle = Some("R3/PT1H".to_string());
    t.lock_owner = Some("node-1".to_string());
    s.insert_timer_job_state(t);
    assert!(find_boundary_timer(&s, &"tb".to_string(), &"pi".to_string()).is_some());
    let next = CycleSchedule { cycle: "R2/PT1H".to_string(), due_time_millis: 3_600_000 };
    let cmd = TriggerTimerBoundaryEventCmd::new("tb".to_string(), "pi".to_string());
    let firing = cmd.run(&mut s, Some(next)).unwrap();
    assert!(firing.interrupted.is_empty());
    let job = s.find_timer_job_state(&"j-b".to_string()).unwrap();
    assert_eq!(job.time_cycle.as_deref(), Some("R2/PT1H"));
    assert_eq!(job.due_time, Some(3_600_000));
    assert!(job.lock_owner.is_none());
    assert!(s.find_execution(&"h".to_string()).is_some());
    assert!(cmd.run(&mut s, None).is_some());
    assert!(s.find_timer_job_state(&"j-b".to_string()).is_none());
    assert!(cmd.run(&mut s, None).is_none());
}

#[test]
fn interrupting_boundary_timer_ends_its_host() {
    let mut s = store();
    let mut t = timer("j-b", "h");
    t.is_boundary = true;
    t.activity_id = "tb".to_string();
    t.cancel_activity = true;
    s.insert_timer_job_state(t);
    let firing = TriggerTimerBoundaryEventCmd::new("tb".to_string(), "pi".to_string()).run(&mut s, None).unwrap();
    assert_eq!(firing.interrupted.len(), 2);
    assert!(s.find_timer_job_state(&"j-b".to_string()).is_none());
    assert!(s.find_execution(&"h".to_string()).is_none());
    assert_eq!(firing.execution.activity_id.as_deref(), Some("tb"));
}
