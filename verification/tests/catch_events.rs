use flowable_engine::catch_events::{
    cancel_event_gateway_siblings, find_waiting_none_intermediate_catch_execution, is_none_intermediate_catch_event,
    lookup_element_kind, DeployedFlowElement, FlowElementKind,
};
use flowable_engine::correlate::{CorrelateMessageCmd, CorrelateMessageOptions, CorrelationAction};
use flowable_engine::entities::{Execution, ProcessInstance, RuntimeTimerJobState};
use flowable_engine::error::FlowableError;
use flowable_engine::events::{EventSubscription, EventSubscriptionKind, RuntimeEventWaitKind, RuntimeEventWaitState};
use flowable_engine::store::RuntimeStore;
use flowable_engine::triggers::{
    TriggerEventIntermediateCatchCmd, TriggerIntermediateCatchEventCmd, TriggerTimerIntermediateCatchEventCmd,
};

fn waiting(id: &str, parent: Option<&str>, activity: &str) -> Execution {
    Execution {
        id: id.to_string(),
        parent_id: parent.map(|p| p.to_string()),
        process_instance_id: Some("pi".to_string()),
        process_definition_id: Some("def".to_string()),
        activity_id: Some(activity.to_string()),
        is_suspended: false,
        is_active: false,
        is_scope: false,
        is_ended: false,
    }
}

fn element(id: &str, kind: FlowElementKind) -> DeployedFlowElement {
    DeployedFlowElement { process_definition_id: "def".to_string(), element_id: id.to_string(), kind }
}

fn elements() -> Vec<DeployedFlowElement> {
    vec![
        element("wait", FlowElementKind::IntermediateCatchEvent { event_definition_count: 0 }),
        element("timer", FlowElementKind::IntermediateCatchEvent { event_definition_count: 1 }),
        element("message", FlowElementKind::IntermediateCatchEvent { event_definition_count: 1 }),
        element("gateway", FlowElementKind::EventBasedGateway),
        element("task", FlowElementKind::Other),
    ]
}

fn gateway_store() -> RuntimeStore {
    let mut s = RuntimeStore::new();
    let mut gateway = waiting("g", Some("pi"), "gateway");
    gateway.is_active = true;
    s.insert_execution(gateway);
    s.insert_execution(waiting("t", Some("g"), "timer"));
    s.insert_execution(waiting("m", Some("g"), "message"));
    let mut ended = waiting("x", Some("g"), "message");
    ended.is_ended = true;
    s.insert_execution(ended);
    s.insert_timer_job_state(RuntimeTimerJobState::new(
        "job-t".to_string(),
        "pi".to_string(),
        "t".to_string(),
        "timer".to_string(),
    ));
    s
}

#[test]
fn element_lookup_takes_the_first_match() {
    let mut els = elements();
    els.push(element("wait", FlowElementKind::Other));
    assert_eq!(
        lookup_element_kind(&els, "def", "wait"),
        Some(FlowElementKind::IntermediateCatchEvent { event_definition_count: 0 })
    );
    assert_eq!(lookup_element_kind(&els, "other", "wait"), None);
    assert!(is_none_intermediate_catch_event(&els, &waiting("a", None, "wait")));
    assert!(!is_none_intermediate_catch_event(&els, &waiting("a", None, "timer")));
    let mut no_activity = waiting("a", None, "wait");
    no_activity.activity_id = None;
    assert!(!is_none_intermediate_catch_event(&els, &no_activity));
}

#[test]
fn none_catch_trigger_activates_the_least_waiting_execution() {
    let mut s = RuntimeStore::new();
    s.insert_execution(waiting("b", Some("pi"), "wait"));
    s.insert_execution(waiting("a", Some("pi"), "wait"));
    s.insert_execution(waiting("0", Some("pi"), "task"));
    let found = find_waiting_none_intermediate_catch_execution(&s, &elements(), &"pi".to_string()).unwrap();
    assert_eq!(found.id, "a");
    let out = TriggerIntermediateCatchEventCmd::new("pi".to_string()).run(&mut s, &elements()).unwrap().unwrap();
    assert_eq!(out.id, "a");
    assert!(out.is_active);
    assert!(s.find_execution(&"a".to_string()).unwrap().is_active);
    assert!(!s.find_execution(&"b".to_string()).unwrap().is_active);
}

#[test]
fn none_catch_trigger_without_a_waiter_changes_nothing() {
    let mut s = RuntimeStore::new();
    s.insert_execution(waiting("a", Some("pi"), "task"));
    let out = TriggerIntermediateCatchEventCmd::new("pi".to_string()).run(&mut s, &elements());
    assert!(matches!(out, Ok(None)));
    let other = TriggerIntermediateCatchEventCmd::new("other".to_string()).run(&mut s, &elements());
    assert!(matches!(other, Ok(None)));
}

#[test]
fn none_catch_trigger_refuses_a_suspended_execution() {
    let mut s = RuntimeStore::new();
    let mut e = waiting("a", Some("pi"), "wait");
    e.is_suspended = true;
    s.insert_execution(e);
    match TriggerIntermediateCatchEventCmd::new("pi".to_string()).run(&mut s, &elements()) {
        Err(FlowableError::ExecutionError(m)) => assert_eq!(m, "Cannot trigger a suspended execution 'a'"),
        other => panic!("unexpected {:?}", other),
    }
    assert!(!s.find_execution(&"a".to_string()).unwrap().is_active);
}

#[test]
fn gateway_siblings_are_cancelled_with_their_timers() {
    let mut s = gateway_store();
    let fired = s.find_execution(&"m".to_string()).unwrap();
    let cancelled = cancel_event_gateway_siblings(&mut s, &elements(), &fired);
    assert_eq!(cancelled, vec!["t".to_string()]);
    assert!(s.find_execution(&"t".to_string()).is_none());
    assert!(s.find_execution(&"x".to_string()).is_some());
    assert!(s.find_execution(&"m".to_string()).is_some());
    assert!(s.find_timer_job_state(&"job-t".to_string()).is_none());
}

#[test]
fn no_siblings_are_cancelled_outside_a_gateway() {
    let mut s = RuntimeStore::new();
    s.insert_execution(waiting("p", None, "task"));
    s.insert_execution(waiting("a", Some("p"), "message"));
    s.insert_execution(waiting("b", Some("p"), "message"));
    let fired = s.find_execution(&"a".to_string()).unwrap();
    assert!(cancel_event_gateway_siblings(&mut s, &elements(), &fired).is_empty());
    assert!(s.find_execution(&"b".to_string()).is_some());
}

#[test]
fn timer_catch_fires_and_cancels_the_other_gateway_branch() {
    let mut s = gateway_store();
    s.insert_timer_job_state(RuntimeTimerJobState::new(
        "job-m".to_string(),
        "pi".to_string(),
        "m".to_string(),
        "timer".to_string(),
    ));
    let exit = TriggerTimerIntermediateCatchEventCmd::new("t".to_string()).run(&mut s, &elements()).unwrap().unwrap();
    assert_eq!(exit.execution.id, "t");
    assert!(exit.execution.is_active);
    assert_eq!(exit.cancelled_siblings, vec!["m".to_string()]);
    assert!(s.find_timer_job_state(&"job-t".to_string()).is_none());
    assert!(s.find_timer_job_state(&"job-m".to_string()).is_none());
    assert!(s.find_execution(&"m".to_string()).is_none());
    assert!(s.find_execution(&"t".to_string()).unwrap().is_active);
}

#[test]
fn timer_catch_ignores_boundary_timers_and_active_executions() {
    let mut s = gateway_store();
    let mut boundary = RuntimeTimerJobState::new("job-b".to_string(), "pi".to_string(), "m".to_string(), "timer".to_string());
    boundary.is_boundary = true;
    s.insert_timer_job_state(boundary);
    let out = TriggerTimerIntermediateCatchEventCmd::new("m".to_string()).run(&mut s, &elements());
    assert!(matches!(out, Ok(None)));
    assert!(s.find_execution(&"t".to_string()).is_some());
    let mut active = s.find_execution(&"t".to_string()).unwrap();
    active.is_active = true;
    s.insert_execution(active);
    assert!(matches!(TriggerTimerIntermediateCatchEventCmd::new("t".to_string()).run(&mut s, &elements()), Ok(None)));
    assert!(s.find_timer_job_state(&"job-t".to_string()).is_some());
}

#[test]
fn message_catch_leaves_the_wait_state_and_cancels_siblings() {
    let mut s = gateway_store();
    let wait = RuntimeEventWaitState {
        execution_id: "m".to_string(),
        process_instance_id: "pi".to_string(),
        activity_id: "message".to_string(),
        wait_kind: RuntimeEventWaitKind::MessageIntermediateCatchEvent,
        event_subscription: Some(EventSubscription { kind: EventSubscriptionKind::Message, event_ref: "order".to_string() }),
        task_id: None,
    };
    let wrong = TriggerEventIntermediateCatchCmd::new(EventSubscriptionKind::Message, "other".to_string(), "m".to_string());
    assert!(matches!(wrong.run(&mut s, Some(&wait), None, &elements()), Ok(None)));
    let cmd = TriggerEventIntermediateCatchCmd::new(EventSubscriptionKind::Message, "order".to_string(), "m".to_string());
    let exit = cmd.run(&mut s, Some(&wait), None, &elements()).unwrap().unwrap();
    assert_eq!(exit.execution.id, "m");
    assert_eq!(exit.cancelled_siblings, vec!["t".to_string()]);
    assert!(s.find_timer_job_state(&"job-t".to_string()).is_none());
}

#[test]
fn suspension_check_can_be_switched_off() {
    let mut s = RuntimeStore::new();
    let mut e = waiting("m", Some("pi"), "message");
    e.is_suspended = true;
    s.insert_execution(e);
    let wait = RuntimeEventWaitState {
        execution_id: "m".to_string(),
        process_instance_id: "pi".to_string(),
        activity_id: "message".to_string(),
        wait_kind: RuntimeEventWaitKind::SignalIntermediateCatchEvent,
        event_subscription: Some(EventSubscription { kind: EventSubscriptionKind::Signal, event_ref: "go".to_string() }),
        task_id: None,
    };
    let cmd = TriggerEventIntermediateCatchCmd::new(EventSubscriptionKind::Signal, "go".to_string(), "m".to_string());
    assert!(matches!(cmd.run(&mut s, Some(&wait), None, &elements()), Err(FlowableError::ExecutionError(_))));
    let global = TriggerEventIntermediateCatchCmd::new(EventSubscriptionKind::Signal, "go".to_string(), "m".to_string())
        .without_suspension_check();
    let exit = global.run(&mut s, Some(&wait), None, &elements()).unwrap().unwrap();
    assert!(exit.execution.is_active);
}

fn message_wait(execution_id: &str, kind: RuntimeEventWaitKind, task_id: Option<&str>) -> RuntimeEventWaitState {
    RuntimeEventWaitState {
        execution_id: execution_id.to_string(),
        process_instance_id: "pi".to_string(),
        activity_id: "message".to_string(),
        wait_kind: kind,
        event_subscription: Some(EventSubscription { kind: EventSubscriptionKind::Message, event_ref: "order".to_string() }),
        task_id: task_id.map(|t| t.to_string()),
    }
}

fn no_filters() -> CorrelateMessageOptions {
    CorrelateMessageOptions { process_instance_id: None, business_key: None, tenant_id: None, start_new_if_no_match: false }
}

#[test]
fn correlation_delivers_to_the_least_waiting_catch_event() {
    let mut s = gateway_store();
    s.insert_execution(waiting("n", Some("pi"), "message"));
    let waits = vec![
        message_wait("n", RuntimeEventWaitKind::MessageIntermediateCatchEvent, None),
        message_wait("m", RuntimeEventWaitKind::MessageIntermediateCatchEvent, None),
    ];
    let cmd = CorrelateMessageCmd::new("order".to_string(), no_filters());
    match cmd.run(&mut s, &waits, &elements()).unwrap() {
        CorrelationAction::LeftCatchEvent { target, exit } => {
            assert_eq!(target.execution_id, "m");
            let exit = exit.unwrap();
            assert_eq!(exit.cancelled_siblings, vec!["t".to_string()]);
        },
        other => panic!("unexpected {:?}", other),
    }
    assert!(s.find_execution(&"m".to_string()).unwrap().is_active);
    assert!(!s.find_execution(&"n".to_string()).unwrap().is_active);
}

#[test]
fn correlation_hands_a_receive_task_back_for_completion() {
    let mut s = RuntimeStore::new();
    s.insert_execution(waiting("r", Some("pi"), "receive"));
    let waits = vec![message_wait("r", RuntimeEventWaitKind::ReceiveTask, Some("task-1"))];
    let cmd = CorrelateMessageCmd::new("order".to_string(), no_filters());
    match cmd.run(&mut s, &waits, &elements()).unwrap() {
        CorrelationAction::CompleteReceiveTask { target, task_id } => {
            assert_eq!(target.execution_id, "r");
            assert_eq!(task_id.as_deref(), Some("task-1"));
        },
        other => panic!("unexpected {:?}", other),
    }
    assert!(!s.find_execution(&"r".to_string()).unwrap().is_active);
}

#[test]
fn correlation_without_a_waiter_lists_the_running_instances() {
    let mut s = RuntimeStore::new();
    s.insert_process_instance(ProcessInstance::new("p1".to_string(), "def".to_string(), "key".to_string()));
    let mut ended = ProcessInstance::new("p2".to_string(), "def".to_string(), "key".to_string());
    ended.is_ended = true;
    s.insert_process_instance(ended);
    s.insert_process_instance(ProcessInstance::new("p3".to_string(), "def".to_string(), "key".to_string()));
    let waits = vec![message_wait("r", RuntimeEventWaitKind::ReceiveTask, None)];
    let cmd = CorrelateMessageCmd::new("other".to_string(), no_filters());
    match cmd.run(&mut s, &waits, &elements()).unwrap() {
        CorrelationAction::TryInstances { process_instance_ids } => {
            assert_eq!(process_instance_ids, vec!["p1".to_string(), "p3".to_string()]);
        },
        other => panic!("unexpected {:?}", other),
    }
}
