use flowable_engine::command::{execute_command, ActivationCoordinator, CommandOutcome, EngineConfig};
use flowable_engine::comment_cmd::{
    normalize_comment_event_message, CreateProcessInstanceCommentCmd, CreateTaskCommentCmd,
    DeleteTaskCommentCmd, DeleteTaskEventCmd, RecordTaskEventCmd, SaveCommentCmd,
};
use flowable_engine::command::Command;
use flowable_engine::entities::{HistoricComment, ProcessInstance, Task};
use flowable_engine::error::FlowableError;
use flowable_engine::store::RuntimeStore;

fn run<T, C: Command<T>>(store: &mut RuntimeStore, cmd: &C) -> CommandOutcome<T> {
    execute_command(store, cmd, EngineConfig::new(), ActivationCoordinator::inactive(), 1_000)
}

fn task(id: &str, process_instance_id: &str) -> Task {
    Task::new(
        id.to_string(),
        process_instance_id.to_string(),
        process_instance_id.to_string(),
        "task-definition".to_string(),
        "Review".to_string(),
    )
}

fn process_instance(id: &str, is_suspended: bool) -> ProcessInstance {
    let mut pi = ProcessInstance::new(id.to_string(), "definition-1".to_string(), "definition".to_string());
    pi.is_suspended = is_suspended;
    pi
}

#[test]
fn missing_task_is_rejected_before_comment_insert() {
    let mut store = RuntimeStore::new();
    let error = run(
        &mut store,
        &CreateTaskCommentCmd::new("missing".to_string(), None, "comment".to_string(), None),
    )
    .result
    .expect_err("the task must exist");
    assert!(matches!(error, FlowableError::NotFound(_)));
    assert!(store.comments.rows.is_empty());
    assert!(store.task_events.rows.is_empty());
}

#[test]
fn suspended_task_is_rejected_before_comment_insert() {
    let mut store = RuntimeStore::new();
    let mut t = task("task-1", "process-1");
    t.set_suspension_state(true);
    store.insert_task(t);
    let error = run(
        &mut store,
        &CreateTaskCommentCmd::new("task-1".to_string(), None, "comment".to_string(), None),
    )
    .result
    .expect_err("suspended tasks are refused");
    assert!(error.to_display_string().contains("suspended task"));
    assert!(store.comments.rows.is_empty());
}

#[test]
fn suspended_process_instance_is_validated_independently() {
    let mut store = RuntimeStore::new();
    store.insert_task(task("task-1", "process-1"));
    store.insert_process_instance(process_instance("process-1", true));
    let error = run(
        &mut store,
        &CreateTaskCommentCmd::new(
            "task-1".to_string(),
            Some("process-1".to_string()),
            "comment".to_string(),
            None,
        ),
    )
    .result
    .expect_err("the named execution is validated too");
    assert!(error.to_display_string().contains("suspended process instance"));
}

#[test]
fn process_instance_comment_requires_runtime_execution() {
    let mut store = RuntimeStore::new();
    let error = run(
        &mut store,
        &CreateProcessInstanceCommentCmd::new("missing-pi".to_string(), "comment".to_string(), None),
    )
    .result
    .expect_err("the runtime execution must exist");
    assert!(matches!(error, FlowableError::NotFound(_)));
    assert!(error.to_display_string().contains("execution missing-pi doesn't exist"));
}

#[test]
fn process_instance_comment_rejects_suspended_instance() {
    let mut store = RuntimeStore::new();
    store.insert_process_instance(process_instance("process-1", true));
    let error = run(
        &mut store,
        &CreateProcessInstanceCommentCmd::new("process-1".to_string(), "comment".to_string(), None),
    )
    .result
    .expect_err("suspended instances are refused");
    assert!(error.to_display_string().contains("suspended process instance"));
}

#[test]
fn task_comment_stores_full_message_and_normalized_event() {
    let mut store = RuntimeStore::new();
    store.insert_task(task("task-1", "process-1"));
    let message = "first   line\n\tsecond line".to_string();
    let comment = run(
        &mut store,
        &CreateTaskCommentCmd::new("task-1".to_string(), None, message.clone(), Some("kermit".to_string())),
    )
    .result
    .expect("an active task accepts comments");
    assert_eq!(comment.message, message);
    assert_eq!(comment.comment_type.as_deref(), Some("comment"));
    assert_eq!(comment.time, 1_000);
    assert_eq!(store.comments.rows.len(), 1);
    assert_eq!(store.task_events.rows.len(), 1);
    let event = &store.task_events.rows[0];
    assert_eq!(event.action, "AddComment");
    assert_eq!(event.message, vec!["first line second line".to_string()]);
    assert_eq!(event.user_id.as_deref(), Some("kermit"));
}

#[test]
fn comment_type_is_kept_when_given() {
    let mut store = RuntimeStore::new();
    store.insert_process_instance(process_instance("process-1", false));
    let comment = run(
        &mut store,
        &CreateProcessInstanceCommentCmd::with_type(
            "process-1".to_string(),
            Some("event".to_string()),
            "hi".to_string(),
            None,
        ),
    )
    .result
    .expect("active instance");
    assert_eq!(comment.comment_type.as_deref(), Some("event"));
    assert_eq!(comment.task_id, None);
    assert!(store.task_events.rows.is_empty());
}

#[test]
fn event_message_is_cut_after_163_characters() {
    let long = "a".repeat(200);
    let normalized = normalize_comment_event_message(&long);
    assert_eq!(normalized.chars().count(), 163);
    assert!(normalized.ends_with("..."));
    assert_eq!(&normalized[..160], &long[..160]);
    let exact = "b".repeat(163);
    assert_eq!(normalize_comment_event_message(&exact), exact);
    assert_eq!(normalize_comment_event_message("  a  b  "), " a b ");
}

#[test]
fn save_comment_requires_an_existing_id() {
    let mut store = RuntimeStore::new();
    let comment = HistoricComment {
        id: String::new(),
        task_id: None,
        process_instance_id: None,
        message: "m".to_string(),
        author: None,
        time: 0,
        action: None,
        comment_type: None,
    };
    let error = run(&mut store, &SaveCommentCmd::new(comment)).result.expect_err("empty id");
    assert!(matches!(error, FlowableError::BadRequest(_)));
    let comment = HistoricComment {
        id: "c-1".to_string(),
        task_id: None,
        process_instance_id: None,
        message: "m".to_string(),
        author: None,
        time: 0,
        action: None,
        comment_type: None,
    };
    let error = run(&mut store, &SaveCommentCmd::new(comment)).result.expect_err("unknown id");
    assert_eq!(error.to_display_string(), "Not found: Comment 'c-1' was not found");
}

#[test]
fn delete_comment_only_for_its_task() {
    let mut store = RuntimeStore::new();
    store.insert_task(task("task-1", "process-1"));
    let comment = run(
        &mut store,
        &CreateTaskCommentCmd::new("task-1".to_string(), None, "x".to_string(), None),
    )
    .result
    .expect("stored");
    let other = run(&mut store, &DeleteTaskCommentCmd::new("task-2".to_string(), comment.id.clone()))
        .result
        .expect("never fails");
    assert!(other.is_none());
    assert_eq!(store.comments.rows.len(), 1);
    let deleted = run(&mut store, &DeleteTaskCommentCmd::new("task-1".to_string(), comment.id.clone()))
        .result
        .expect("never fails");
    assert_eq!(deleted.map(|c| c.id), Some(comment.id));
    assert!(store.comments.rows.is_empty());
}

#[test]
fn recorded_task_event_can_be_deleted_by_its_task() {
    let mut store = RuntimeStore::new();
    let event = run(
        &mut store,
        &RecordTaskEventCmd::new(
            "task-1".to_string(),
            "AddUserLink".to_string(),
            vec!["kermit".to_string()],
            None,
        ),
    )
    .result
    .expect("recording never fails");
    assert_eq!(event.time, 1_000);
    assert!(run(&mut store, &DeleteTaskEventCmd::new("task-9".to_string(), event.id.clone()))
        .result
        .expect("never fails")
        .is_none());
    let deleted = run(&mut store, &DeleteTaskEventCmd::new("task-1".to_string(), event.id.clone()))
        .result
        .expect("never fails");
    assert_eq!(deleted.map(|e| e.action), Some("AddUserLink".to_string()));
    assert!(store.task_events.rows.is_empty());
}

#[test]
fn comment_event_message_collapses_only_regex_spaces() {
    assert_eq!(normalize_comment_event_message("a \t\n b"), "a b");
    assert_eq!(normalize_comment_event_message("a\u{b}\u{c}\rb"), "a b");
    assert_eq!(normalize_comment_event_message("\u{a0}"), "\u{a0}");
    assert_eq!(normalize_comment_event_message("x\u{2003}y"), "x\u{2003}y");
}
