use flowable_engine::boundary::{EventRefModel, SignalDefinition};
use flowable_engine::entities::Execution;
use flowable_engine::error::FlowableError;
use flowable_engine::events::{EventSubscription, EventSubscriptionKind, RuntimeEventWaitKind};
use flowable_engine::external_worker::{
    map_cmmn_external_worker_error, CmmnError, CompleteExternalWorkerJobWithBpmnErrorCmd,
    ExternalWorkerBpmnErrorRequest, ExternalWorkerFetchAndLockRequest, FetchAndLockExternalWorkerJobsCmd,
};
use flowable_engine::store::RuntimeStore;
use flowable_engine::triggers::{
    event_ref_matches, execution_is_descendant_of_scope, require_active_execution, wait_kind_accepts,
};

fn execution(id: &str, parent: Option<&str>, suspended: bool) -> Execution {
    Execution {
        id: id.to_string(),
        parent_id: parent.map(|p| p.to_string()),
        process_instance_id: Some("pi".to_string()),
        process_definition_id: None,
        activity_id: None,
        is_suspended: suspended,
        is_active: false,
        is_scope: true,
        is_ended: false,
    }
}

#[test]
fn suspended_executions_cannot_be_triggered() {
    assert!(require_active_execution(&execution("e", None, false)).is_ok());
    match require_active_execution(&execution("e", None, true)) {
        Err(FlowableError::ExecutionError(m)) => assert_eq!(m, "Cannot trigger a suspended execution 'e'"),
        other => panic!("unexpected {:?}", other),
    }
}

#[test]
fn wait_kinds_accept_their_own_events() {
    assert!(wait_kind_accepts(RuntimeEventWaitKind::SignalIntermediateCatchEvent, EventSubscriptionKind::Signal));
    assert!(!wait_kind_accepts(RuntimeEventWaitKind::SignalIntermediateCatchEvent, EventSubscriptionKind::Message));
    assert!(!wait_kind_accepts(RuntimeEventWaitKind::SendEventTask, EventSubscriptionKind::Message));
}

#[test]
fn signal_refs_match_through_the_model() {
    let model = EventRefModel {
        escalations: Vec::new(),
        errors: Vec::new(),
        signals: vec![SignalDefinition { id: Some("sig-1".to_string()), name: Some("alarm".to_string()) }],
    };
    let sub = EventSubscription { kind: EventSubscriptionKind::Signal, event_ref: "sig-1".to_string() };
    assert!(event_ref_matches(&sub, EventSubscriptionKind::Signal, "sig-1", None));
    assert!(event_ref_matches(&sub, EventSubscriptionKind::Signal, "alarm", Some(&model)));
    assert!(!event_ref_matches(&sub, EventSubscriptionKind::Message, "alarm", Some(&model)));
    assert!(!event_ref_matches(&sub, EventSubscriptionKind::Signal, "alarm", None));
}

#[test]
fn descendant_of_scope_walks_parents() {
    let mut s = RuntimeStore::new();
    s.insert_execution(execution("root", None, false));
    s.insert_execution(execution("scope", Some("root"), false));
    s.insert_execution(execution("leaf", Some("scope"), false));
    let leaf = execution("leaf", Some("scope"), false);
    assert!(execution_is_descendant_of_scope(&s, &leaf, &"scope".to_string()));
    assert!(execution_is_descendant_of_scope(&s, &leaf, &"root".to_string()));
    let root = execution("root", None, false);
    assert!(!execution_is_descendant_of_scope(&s, &root, &"scope".to_string()));
}

#[test]
fn fetch_needs_positive_limits() {
    let ok = FetchAndLockExternalWorkerJobsCmd::new(ExternalWorkerFetchAndLockRequest {
        worker_id: "w".to_string(),
        max_jobs: 1,
        lock_duration_ms: 10,
        topic: None,
    });
    assert!(ok.validate().is_ok());
    let none = FetchAndLockExternalWorkerJobsCmd::new(ExternalWorkerFetchAndLockRequest {
        worker_id: "w".to_string(),
        max_jobs: 0,
        lock_duration_ms: 10,
        topic: None,
    });
    match none.validate() {
        Err(FlowableError::BadRequest(m)) => assert_eq!(m, "external worker fetch requires max_jobs > 0"),
        other => panic!("unexpected {:?}", other),
    }
}

#[test]
fn unhandled_worker_error_and_case_errors() {
    let cmd = CompleteExternalWorkerJobWithBpmnErrorCmd::new(
        "job".to_string(),
        ExternalWorkerBpmnErrorRequest { worker_id: "w".to_string(), error_code: "E7".to_string() },
    );
    match cmd.unhandled_error() {
        FlowableError::BadRequest(m) => assert_eq!(
            m,
            "external worker BPMN error was not handled: No matching BPMN error handler found for errorCode E7"
        ),
        other => panic!("unexpected {:?}", other),
    }
    match map_cmmn_external_worker_error(CmmnError::Conflict { message: "busy".to_string() }) {
        FlowableError::Forbidden(m) => assert_eq!(m, "busy"),
        other => panic!("unexpected {:?}", other),
    }
    match map_cmmn_external_worker_error(CmmnError::NonUniqueResult { query: "q".to_string(), count: 3 }) {
        FlowableError::BadRequest(m) => assert_eq!(m, "non-unique result for q: 3 matches"),
        other => panic!("unexpected {:?}", other),
    }
}
