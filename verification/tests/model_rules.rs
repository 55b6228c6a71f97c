use flowable_engine::behaviors::{
    is_supported_boundary_event, is_supported_intermediate_throw_event, is_wait_state_intermediate_catch_event,
    BehaviorKind, DefaultActivityBehaviorFactory, EventDefinitionKind, FlowElementKind, FlowElementShape,
};
use flowable_engine::command::{ActivationCoordinator, CommandContext, EngineConfig};
use flowable_engine::entities::{Execution, ProcessInstance, Task};
use flowable_engine::error::FlowableError;
use flowable_engine::expressions::{
    category_value_to_string, is_skip_expression_enabled, resolve_job_category, resolve_job_category_text,
    resolve_listener_name, should_skip_flow_element, should_skip_sequence_flow, ExpressionValue,
};
use flowable_engine::fault::{
    call_activity_chain, end_process_instance_for_cross_call_propagation, error_delete_reason,
    escalation_delete_reason, uncaught_bpmn_error,
};
use flowable_engine::store::RuntimeStore;

fn shape(kind: FlowElementKind, defs: Vec<EventDefinitionKind>, multi: bool) -> FlowElementShape {
    FlowElementShape { kind, event_definitions: defs, has_event_type: false, multi_instance: multi }
}

#[test]
fn behaviors_follow_the_element_kind() {
    let f = DefaultActivityBehaviorFactory::new();
    let user = f.resolve_behavior(&shape(FlowElementKind::UserTask, Vec::new(), false)).unwrap();
    assert_eq!(user.behavior, BehaviorKind::UserTask);
    assert_eq!(user.multi_instance, None);
    let cancel_end = f.resolve_behavior(&shape(FlowElementKind::EndEvent, vec![EventDefinitionKind::Cancel], false)).unwrap();
    assert_eq!(cancel_end.behavior, BehaviorKind::CancelEndEvent);
    let listener_start =
        f.resolve_behavior(&shape(FlowElementKind::StartEvent, vec![EventDefinitionKind::VariableListener], false)).unwrap();
    assert_eq!(listener_start.behavior, BehaviorKind::VariableListenerEvent);
    let looping_sub = f.resolve_behavior(&shape(FlowElementKind::SubProcess, Vec::new(), true)).unwrap();
    assert_eq!(looping_sub.behavior, BehaviorKind::SubProcess);
    assert_eq!(looping_sub.multi_instance, Some(true));
    let looping_task = f.resolve_behavior(&shape(FlowElementKind::ServiceTask, Vec::new(), true)).unwrap();
    assert_eq!(looping_task.multi_instance, Some(false));
}

#[test]
fn catch_throw_and_boundary_support() {
    let timer_catch = shape(FlowElementKind::IntermediateCatchEvent, vec![EventDefinitionKind::Timer], false);
    assert!(is_wait_state_intermediate_catch_event(&timer_catch));
    let error_catch = shape(FlowElementKind::IntermediateCatchEvent, vec![EventDefinitionKind::Error], false);
    assert!(!is_wait_state_intermediate_catch_event(&error_catch));
    let f = DefaultActivityBehaviorFactory::new();
    assert_eq!(
        f.resolve_behavior(&error_catch).unwrap().behavior,
        BehaviorKind::Unsupported(FlowElementKind::IntermediateCatchEvent)
    );
    let throw = shape(FlowElementKind::IntermediateThrowEvent, vec![EventDefinitionKind::Escalation], false);
    assert!(is_supported_intermediate_throw_event(&throw));
    let two = shape(FlowElementKind::IntermediateThrowEvent, vec![EventDefinitionKind::Signal, EventDefinitionKind::Link], false);
    assert!(!is_supported_intermediate_throw_event(&two));
    let boundary = shape(FlowElementKind::BoundaryEvent, vec![EventDefinitionKind::Compensate], false);
    assert!(is_supported_boundary_event(&boundary));
    let mut registry = shape(FlowElementKind::BoundaryEvent, Vec::new(), false);
    assert!(!is_supported_boundary_event(&registry));
    registry.has_event_type = true;
    assert!(is_supported_boundary_event(&registry));
}

#[test]
fn job_category_from_text_or_expression() {
    assert_eq!(resolve_job_category_text("  billing ", None), Some("billing".to_string()));
    assert_eq!(resolve_job_category_text("   ", None), None);
    assert_eq!(resolve_job_category_text("${cat}", Some(&ExpressionValue::Number(42))), Some("42".to_string()));
    assert_eq!(resolve_job_category_text("${cat}", None), None);
    assert_eq!(category_value_to_string(&ExpressionValue::Bool(true)), Some("true".to_string()));
    assert_eq!(category_value_to_string(&ExpressionValue::Structured("[1]".to_string())), None);
    assert_eq!(resolve_job_category(&vec![Some(" a ".to_string()), Some("b".to_string())], None), Some("a".to_string()));
    // the first non-blank entry wins
    assert_eq!(resolve_job_category(&vec![None, Some("  ".to_string()), Some("b".to_string())], None), Some("b".to_string()));
}

#[test]
fn listener_names_resolve_by_type() {
    assert_eq!(resolve_listener_name("executionListener", "class", "com.Foo", None).unwrap(), "com.Foo");
    let by_expr = resolve_listener_name(
        "executionListener",
        "delegateExpression",
        "${bean}",
        Some(&ExpressionValue::Text("audit".to_string())),
    );
    assert_eq!(by_expr.unwrap(), "audit");
    let bad = resolve_listener_name("taskListener", "delegateExpression", "${bean}", Some(&ExpressionValue::Number(1)));
    assert!(matches!(bad, Err(FlowableError::ExecutionError(_))));
}

#[test]
fn skip_expressions() {
    assert_eq!(is_skip_expression_enabled(None, None, None).unwrap(), false);
    assert_eq!(is_skip_expression_enabled(None, None, Some(&ExpressionValue::Bool(true))).unwrap(), true);
    assert_eq!(
        is_skip_expression_enabled(None, Some(&ExpressionValue::Bool(false)), Some(&ExpressionValue::Bool(true))).unwrap(),
        false
    );
    assert!(is_skip_expression_enabled(Some("a"), Some(&ExpressionValue::Text("yes".to_string())), None).is_err());
    assert_eq!(should_skip_flow_element(None, "task", Some("a"), Ok(true), None).unwrap(), false);
    assert_eq!(
        should_skip_flow_element(Some("${skip}"), "task", Some("a"), Ok(true), Some(&ExpressionValue::Bool(true))).unwrap(),
        true
    );
    assert_eq!(
        should_skip_flow_element(Some("${skip}"), "task", Some("a"), Ok(false), Some(&ExpressionValue::Bool(true))).unwrap(),
        false
    );
    assert!(should_skip_flow_element(Some("${skip}"), "task", Some("a"), Ok(true), None).is_err());
    // the only outgoing flow is always taken as skipped when skipping is on
    assert_eq!(should_skip_sequence_flow(1, Some("${s}"), Some("f"), Ok(true), None).unwrap(), true);
    assert_eq!(
        should_skip_sequence_flow(2, Some("${s}"), Some("f"), Ok(true), Some(&ExpressionValue::Bool(false))).unwrap(),
        false
    );
}

#[test]
fn fault_messages() {
    match uncaught_bpmn_error("E1") {
        FlowableError::ExecutionError(m) => assert_eq!(
            m,
            "No catching boundary event found for error with errorCode 'E1', neither in same process nor in parent process"
        ),
        other => panic!("unexpected {:?}", other),
    }
    assert_eq!(error_delete_reason("E1"), "ERROR_EVENT E1");
    assert_eq!(escalation_delete_reason(""), "escalation end event");
    assert_eq!(escalation_delete_reason("esc"), "escalation end event (esc)");
}

fn execution(id: &str, pi: &str) -> Execution {
    Execution {
        id: id.to_string(),
        parent_id: None,
        process_instance_id: Some(pi.to_string()),
        process_definition_id: None,
        activity_id: None,
        is_suspended: false,
        is_active: true,
        is_scope: true,
        is_ended: false,
    }
}

fn called_store() -> RuntimeStore {
    let mut s = RuntimeStore::new();
    s.insert_process_instance(ProcessInstance::new("top".to_string(), "d".to_string(), "k".to_string()));
    s.insert_execution(execution("top-call", "top"));
    let mut mid = ProcessInstance::new("mid".to_string(), "d".to_string(), "k".to_string());
    mid.super_execution_id = Some("top-call".to_string());
    s.insert_process_instance(mid);
    s.insert_execution(execution("mid-call", "mid"));
    let mut child = ProcessInstance::new("child".to_string(), "d".to_string(), "k".to_string());
    child.super_execution_id = Some("mid-call".to_string());
    s.insert_process_instance(child);
    s.insert_execution(execution("child-1", "child"));
    s.insert_task(Task::new("t1".to_string(), "child".to_string(), "child-1".to_string(), "k".to_string(), "n".to_string()));
    s
}

#[test]
fn call_chain_climbs_to_the_top() {
    let s = called_store();
    let chain = call_activity_chain(&s, &"child".to_string());
    assert_eq!(chain.len(), 2);
    assert_eq!(chain[0].crossed_process_instance_id, "child");
    assert_eq!(chain[0].super_execution_id, "mid-call");
    assert_eq!(chain[0].parent_process_instance_id, "mid");
    assert_eq!(chain[1].parent_process_instance_id, "top");
    assert!(call_activity_chain(&s, &"top".to_string()).is_empty());
}

#[test]
fn crossing_a_call_removes_the_called_instance() {
    let mut ctx = CommandContext::new(called_store(), EngineConfig::new(), ActivationCoordinator::inactive(), 0);
    end_process_instance_for_cross_call_propagation(&mut ctx, &"child".to_string());
    assert!(ctx.session.find_process_instance(&"child".to_string()).unwrap().is_ended);
    assert!(ctx.session.find_execution(&"child-1".to_string()).is_none());
    assert!(ctx.session.find_task(&"t1".to_string()).is_none());
    assert!(ctx.session.find_execution(&"mid-call".to_string()).is_some());
}

fn categories(texts: &[&str]) -> Vec<Option<String>> {
    texts.iter().map(|t| Some(t.to_string())).collect()
}

#[test]
fn literal_category_is_returned_unchanged() {
    assert_eq!(resolve_job_category(&categories(&["orders"]), None).as_deref(), Some("orders"));
}

#[test]
fn expression_string_category_is_evaluated() {
    let value = ExpressionValue::Text("orders".to_string());
    assert_eq!(resolve_job_category(&categories(&["${categoryValue}"]), Some(&value)).as_deref(), Some("orders"));
}

#[test]
fn expression_number_and_bool_use_java_style_string_value() {
    let number = ExpressionValue::Number(42);
    assert_eq!(resolve_job_category(&categories(&["${categoryValue}"]), Some(&number)).as_deref(), Some("42"));
    let boolean = ExpressionValue::Bool(true);
    assert_eq!(resolve_job_category(&categories(&["${categoryValue}"]), Some(&boolean)).as_deref(), Some("true"));
}

#[test]
fn missing_or_null_expression_resolves_to_none() {
    // a variable that is not set leaves the expression without a value
    assert_eq!(resolve_job_category(&categories(&["${categoryValue}"]), None), None);
    assert_eq!(resolve_job_category(&categories(&["${categoryValue}"]), Some(&ExpressionValue::Null)), None);
}

#[test]
fn empty_text_resolves_to_none() {
    assert_eq!(resolve_job_category(&categories(&["   "]), None), None);
    assert_eq!(resolve_job_category(&categories(&[""]), None), None);
}

#[test]
fn first_job_category_entry_wins() {
    assert_eq!(resolve_job_category(&categories(&["first", "second"]), None).as_deref(), Some("first"));
}

#[test]
fn missing_extension_resolves_to_none() {
    assert_eq!(resolve_job_category(&Vec::new(), None), None);
}

#[test]
fn skip_switch_of_wrong_type_names_the_value_as_json() {
    let text = ExpressionValue::Text("ye\"s\n".to_string());
    match is_skip_expression_enabled(Some("task1"), Some(&text), None) {
        Err(FlowableError::ExecutionError(m)) => assert_eq!(
            m,
            "Skip expression variable for activity 'task1' does not resolve to a boolean: \"ye\\\"s\\n\""
        ),
        other => panic!("unexpected {:?}", other),
    }
    match is_skip_expression_enabled(None, None, Some(&ExpressionValue::Number(-3))) {
        Err(FlowableError::ExecutionError(m)) => {
            assert_eq!(m, "Skip expression variable for activity '<unknown>' does not resolve to a boolean: -3")
        },
        other => panic!("unexpected {:?}", other),
    }
    match is_skip_expression_enabled(None, Some(&ExpressionValue::Null), None) {
        Err(FlowableError::ExecutionError(m)) => assert!(m.ends_with(": null")),
        other => panic!("unexpected {:?}", other),
    }
}
