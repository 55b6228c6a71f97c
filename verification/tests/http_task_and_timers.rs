use flowable_engine::http_task::{
    parse_status_codes, status_outcome, HttpExecutionMode, HttpRuntimeMode, HttpStatusAction, JavaHttpContract,
};
use flowable_engine::timer_util::{
    default_timer_retries, evaluate_timer_field, max_iterations_from_cycle, parse_u32,
    resolve_business_calendar, timer_value_to_field, TimerFieldKind, TimerFieldValue,
};
use flowable_engine::command::{ActivationCoordinator, CommandContext, EngineConfig};
use flowable_engine::store::RuntimeStore;
use flowable_engine::error::FlowableError;

#[test]
fn status_patterns_match_java_exact_and_family_codes() {
    let contract = JavaHttpContract {
        fail_status_codes: parse_status_codes(Some("404,5XX".to_string())),
        handle_status_codes: parse_status_codes(Some("4XX".to_string())),
        ..Default::default()
    };
    assert_eq!(
        contract.status_action(404, false),
        HttpStatusAction::BpmnError("HTTP404".to_string())
    );
    assert_eq!(
        contract.status_action(503, false),
        HttpStatusAction::Fail("HTTP503".to_string())
    );
    assert_eq!(contract.status_action(302, true), HttpStatusAction::Continue);
}

#[test]
fn max_iterations_from_cycle_matches_java_calculate_max_iterations_value() {
    assert_eq!(max_iterations_from_cycle("R5/PT1H"), Some(5));
    assert_eq!(
        max_iterations_from_cycle(" R12/PT1H/2030-01-01T00:00:00Z "),
        Some(12)
    );
    assert_eq!(
        max_iterations_from_cycle("R/PT1H"),
        None,
        "uncounted repeat is unbounded"
    );
    assert_eq!(
        max_iterations_from_cycle("0 0 * * * ?"),
        None,
        "cron is unbounded"
    );
}

#[test]
fn max_iterations_rejects_non_numeric_and_overflowing_counts() {
    assert_eq!(max_iterations_from_cycle("R+7/PT1M"), Some(7));
    assert_eq!(max_iterations_from_cycle("Rx/PT1M"), None);
    assert_eq!(max_iterations_from_cycle("R4294967295/PT1M"), Some(4294967295));
    assert_eq!(max_iterations_from_cycle("R4294967296/PT1M"), None);
    assert_eq!(max_iterations_from_cycle(""), None);
    assert_eq!(parse_u32("42"), Some(42));
    assert_eq!(parse_u32("+"), None);
}

#[test]
fn timer_fields_trim_literals_and_refuse_blank_values() {
    assert_eq!(evaluate_timer_field("  PT5M ", "timeDuration", None).unwrap(), "PT5M");
    assert!(matches!(
        evaluate_timer_field("   ", "timeDuration", None),
        Err(FlowableError::ExecutionError(_))
    ));
    let text = TimerFieldValue::Text(" PT1H ".to_string());
    assert_eq!(evaluate_timer_field("${due}", "timeDuration", Some(&text)).unwrap(), "PT1H");
    assert!(evaluate_timer_field("${due}", "timeDuration", None).is_err());
    assert!(evaluate_timer_field("${due}", "timeDuration", Some(&TimerFieldValue::Null)).is_err());
    assert!(evaluate_timer_field("${due}", "timeDuration", Some(&TimerFieldValue::Structured)).is_err());
}

#[test]
fn numeric_timer_values_become_text_or_instants() {
    let small = timer_value_to_field(&TimerFieldValue::Number(-42), "timeDate").unwrap();
    assert_eq!(small.text, "-42");
    assert_eq!(small.instant, None);
    let instant = timer_value_to_field(&TimerFieldValue::Number(1_700_000_000_000), "timeDate").unwrap();
    assert_eq!(instant.text, "2023-11-14T22:13:20+00:00");
    assert_eq!(instant.instant, Some(1_700_000_000_000));
    let b = timer_value_to_field(&TimerFieldValue::Bool(true), "timeDate").unwrap();
    assert_eq!(b.text, "true");
}

#[test]
fn business_calendar_defaults_per_kind_and_refuses_unknown_names() {
    let registered = vec!["dueDate".to_string(), "cycle".to_string(), "duration".to_string(), "custom".to_string()];
    assert_eq!(TimerFieldKind::Cycle.default_calendar_name(), "cycle");
    assert_eq!(
        resolve_business_calendar(TimerFieldKind::Date.default_calendar_name(), None, None, &registered).unwrap(),
        "dueDate"
    );
    let blank = "  ".to_string();
    assert_eq!(
        resolve_business_calendar("duration", Some(&blank), None, &registered).unwrap(),
        "duration"
    );
    let named = "custom".to_string();
    assert_eq!(resolve_business_calendar("duration", Some(&named), None, &registered).unwrap(), "custom");
    let unknown = "missing".to_string();
    let err = resolve_business_calendar("duration", Some(&unknown), None, &registered).unwrap_err();
    assert!(matches!(err, FlowableError::ExecutionError(_)));
}

#[test]
fn default_timer_retries_never_negative() {
    let mut config = EngineConfig::new();
    let ctx = CommandContext::new(RuntimeStore::new(), EngineConfig::new(), ActivationCoordinator::inactive(), 0);
    assert_eq!(default_timer_retries(&ctx), Some(3));
    config.number_of_retries = -2;
    let ctx = CommandContext::new(RuntimeStore::new(), config, ActivationCoordinator::inactive(), 0);
    assert_eq!(default_timer_retries(&ctx), Some(0));
}

#[test]
fn explicit_java_parallel_flag_overrides_rust_runtime_mode() {
    let mut java = JavaHttpContract::default();
    java.parallel_in_same_transaction = Some(true);
    assert_eq!(java.execution_mode(HttpRuntimeMode::Real), HttpExecutionMode::ParallelInSameTransaction);
    java.parallel_in_same_transaction = Some(false);
    assert_eq!(java.execution_mode(HttpRuntimeMode::Async), HttpExecutionMode::Inline);
    java.parallel_in_same_transaction = None;
    assert_eq!(java.execution_mode(HttpRuntimeMode::Async), HttpExecutionMode::ParallelInSameTransaction);
}

#[test]
fn ignore_exception_suppresses_fail_status_but_not_bpmn_error() {
    let mut java = JavaHttpContract {
        ignore_exception: true,
        fail_status_codes: parse_status_codes(Some("5XX".to_string())),
        result_variable_prefix: "contract".to_string(),
        ..Default::default()
    };
    let ignored_failure = status_outcome(&java, 500, false);
    assert_eq!(ignored_failure.status_action, HttpStatusAction::Continue);
    assert_eq!(
        ignored_failure.error_variable,
        Some(("contractErrorMessage".to_string(), "HTTP500".to_string()))
    );

    java.handle_status_codes = parse_status_codes(Some("5XX".to_string()));
    let bpmn_error = status_outcome(&java, 500, false);
    assert_eq!(bpmn_error.status_action, HttpStatusAction::BpmnError("HTTP500".to_string()));
}
