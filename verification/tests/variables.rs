use flowable_engine::entities::{Execution, Task};
use flowable_engine::error::FlowableError;
use flowable_engine::store::RuntimeStore;
use flowable_engine::variable_writes::{
    ExecutionVariableMutation, MutateExecutionVariablesAsyncCmd, MutateExecutionVariablesCmd, MutateTaskVariablesCmd,
    TaskVariableMutation,
};
use flowable_engine::variables::{
    scope_value, ExecutionVariableScope, GetScopedExecutionVariableCmd, GetScopedExecutionVariablesCmd, GetTaskVariableCmd,
    GetTaskVariablesCmd, RemoveExecutionVariablesCmd,
    RemoveTaskVariablesCmd, TaskVariableScope, VariableMutationMode, VariableRow, Variables,
};

fn execution(id: &str, parent: Option<&str>, suspended: bool) -> Execution {
    Execution {
        id: id.to_string(),
        parent_id: parent.map(|p| p.to_string()),
        process_instance_id: Some("root".to_string()),
        process_definition_id: None,
        activity_id: None,
        is_suspended: suspended,
        is_active: true,
        is_scope: true,
        is_ended: false,
    }
}

fn row(owner: &str, name: &str, value: &str, local: bool) -> VariableRow {
    VariableRow { owner_id: owner.to_string(), name: name.to_string(), value: value.to_string(), local }
}

/// root <- child <- leaf, with task-1 on leaf.
fn store() -> RuntimeStore {
    let mut s = RuntimeStore::new();
    s.insert_execution(execution("root", None, false));
    s.insert_execution(execution("child", Some("root"), false));
    s.insert_execution(execution("leaf", Some("child"), false));
    s.insert_task(Task::new("task-1".to_string(), "root".to_string(), "leaf".to_string(), "t".to_string(), "T".to_string()));
    s
}

fn task_write(name: &str, value: &str) -> TaskVariableMutation {
    TaskVariableMutation { name: name.to_string(), value: value.to_string() }
}

fn exec_write(name: &str, value: &str) -> ExecutionVariableMutation {
    ExecutionVariableMutation { name: name.to_string(), value: value.to_string() }
}

fn empty() -> Variables {
    Variables { execution_rows: Vec::new(), task_rows: Vec::new() }
}

fn read_task(store: &RuntimeStore, vars: &Variables, name: &str) -> Option<String> {
    GetTaskVariableCmd::new("task-1".to_string(), name.to_string()).run(store, vars).unwrap()
}

#[test]
fn task_local_batch_reads_back_last_value() {
    let s = store();
    let mut vars = empty();
    let cmd = MutateTaskVariablesCmd::new(
        "task-1".to_string(),
        TaskVariableScope::Local,
        VariableMutationMode::Upsert,
        vec![task_write("a", "1"), task_write("b", "2"), task_write("a", "3")],
    );
    assert!(cmd.run(&s, &mut vars).is_ok());
    assert_eq!(read_task(&s, &vars, "a"), Some("3".to_string()));
    assert_eq!(read_task(&s, &vars, "b"), Some("2".to_string()));
    assert_eq!(read_task(&s, &vars, "c"), None);
    assert!(vars.execution_rows.is_empty());
}

#[test]
fn create_only_conflicts_on_first_present_name() {
    let s = store();
    let mut vars = empty();
    vars.task_rows.push(row("task-1", "b", "old", true));
    let cmd = MutateTaskVariablesCmd::new(
        "task-1".to_string(),
        TaskVariableScope::Local,
        VariableMutationMode::CreateOnly,
        vec![task_write("a", "1"), task_write("b", "2")],
    );
    match cmd.run(&s, &mut vars) {
        Err(FlowableError::Conflict(m)) => assert_eq!(m, "Variable 'b' is already present on task 'task-1'."),
        other => panic!("unexpected {:?}", other),
    }
    // nothing was written
    assert_eq!(vars.task_rows.len(), 1);
    assert_eq!(read_task(&s, &vars, "a"), None);
}

#[test]
fn update_only_refuses_absent_name() {
    let s = store();
    let mut vars = empty();
    let cmd = MutateTaskVariablesCmd::new(
        "task-1".to_string(),
        TaskVariableScope::Local,
        VariableMutationMode::UpdateOnly,
        vec![task_write("a", "1")],
    );
    match cmd.run(&s, &mut vars) {
        Err(FlowableError::NotFound(m)) => assert_eq!(m, "Task 'task-1' does not have a variable with name: 'a'."),
        other => panic!("unexpected {:?}", other),
    }
}

#[test]
fn empty_variable_name_is_a_bad_request() {
    let s = store();
    let mut vars = empty();
    let cmd = MutateTaskVariablesCmd::new(
        "task-1".to_string(),
        TaskVariableScope::Local,
        VariableMutationMode::Upsert,
        vec![task_write("a", "1"), task_write("", "2")],
    );
    match cmd.run(&s, &mut vars) {
        Err(FlowableError::BadRequest(m)) => assert_eq!(m, "Variable name is required"),
        other => panic!("unexpected {:?}", other),
    }
    assert!(vars.task_rows.is_empty());
}

#[test]
fn unknown_task_is_not_found() {
    let s = store();
    let mut vars = empty();
    let cmd = MutateTaskVariablesCmd::new(
        "nope".to_string(),
        TaskVariableScope::Local,
        VariableMutationMode::Upsert,
        vec![task_write("a", "1")],
    );
    match cmd.run(&s, &mut vars) {
        Err(FlowableError::NotFound(m)) => assert_eq!(m, "Cannot find task with id nope"),
        other => panic!("unexpected {:?}", other),
    }
}

#[test]
fn task_global_write_updates_holder_or_lands_on_root() {
    let s = store();
    let mut vars = empty();
    vars.execution_rows.push(row("child", "held", "old", false));
    let cmd = MutateTaskVariablesCmd::new(
        "task-1".to_string(),
        TaskVariableScope::Global,
        VariableMutationMode::Upsert,
        vec![task_write("held", "new"), task_write("fresh", "x")],
    );
    assert!(cmd.run(&s, &mut vars).is_ok());
    assert_eq!(scope_value(&vars.execution_rows, "child", "held"), Some("new".to_string()));
    assert_eq!(scope_value(&vars.execution_rows, "root", "fresh"), Some("x".to_string()));
    assert_eq!(scope_value(&vars.execution_rows, "leaf", "fresh"), None);
    // the task itself sees both through its execution
    assert_eq!(read_task(&s, &vars, "held"), Some("new".to_string()));
    assert_eq!(read_task(&s, &vars, "fresh"), Some("x".to_string()));
}

#[test]
fn suspended_task_refuses_writes() {
    let mut s = store();
    let mut t = Task::new("task-2".to_string(), "root".to_string(), "leaf".to_string(), "t".to_string(), "T".to_string());
    t.set_suspension_state(true);
    s.insert_task(t);
    let mut vars = empty();
    let cmd = MutateTaskVariablesCmd::new(
        "task-2".to_string(),
        TaskVariableScope::Local,
        VariableMutationMode::Upsert,
        vec![task_write("a", "1")],
    );
    match cmd.run(&s, &mut vars) {
        Err(FlowableError::ExecutionError(m)) => assert_eq!(m, "Cannot add variables to a suspended task 'task-2'"),
        other => panic!("unexpected {:?}", other),
    }
}

#[test]
fn execution_local_write_keeps_process_copy_kind() {
    let s = store();
    let mut vars = empty();
    vars.execution_rows.push(row("leaf", "p", "old", false));
    let cmd = MutateExecutionVariablesCmd::new(
        "leaf".to_string(),
        ExecutionVariableScope::Local,
        VariableMutationMode::Upsert,
        vec![exec_write("p", "new"), exec_write("q", "1")],
    );
    assert!(cmd.run(&s, &mut vars).is_ok());
    let p_rows: Vec<&VariableRow> = vars.execution_rows.iter().filter(|r| r.name == "p").collect();
    assert_eq!(p_rows.len(), 1);
    assert!(!p_rows[0].local);
    assert_eq!(p_rows[0].value, "new");
    let q_rows: Vec<&VariableRow> = vars.execution_rows.iter().filter(|r| r.name == "q").collect();
    assert!(q_rows[0].local);
    let read = GetScopedExecutionVariableCmd::new("leaf".to_string(), "p".to_string(), None).run(&s, &vars).unwrap();
    assert_eq!(read, Some(("new".to_string(), ExecutionVariableScope::Local)));
}

#[test]
fn execution_global_write_goes_to_parent() {
    let s = store();
    let mut vars = empty();
    let cmd = MutateExecutionVariablesCmd::new(
        "leaf".to_string(),
        ExecutionVariableScope::Global,
        VariableMutationMode::Upsert,
        vec![exec_write("g", "1")],
    );
    assert!(cmd.run(&s, &mut vars).is_ok());
    assert_eq!(scope_value(&vars.execution_rows, "child", "g"), Some("1".to_string()));
    let read = GetScopedExecutionVariableCmd::new("leaf".to_string(), "g".to_string(), None).run(&s, &vars).unwrap();
    assert_eq!(read, Some(("1".to_string(), ExecutionVariableScope::Global)));
}

#[test]
fn root_execution_has_no_global_scope() {
    let s = store();
    let mut vars = empty();
    let cmd = MutateExecutionVariablesCmd::new(
        "root".to_string(),
        ExecutionVariableScope::Global,
        VariableMutationMode::Upsert,
        vec![exec_write("g", "1")],
    );
    assert!(matches!(cmd.run(&s, &mut vars), Err(FlowableError::BadRequest(_))));
}

#[test]
fn execution_create_only_conflict_message() {
    let s = store();
    let mut vars = empty();
    vars.execution_rows.push(row("leaf", "x", "1", true));
    let cmd = MutateExecutionVariablesCmd::new(
        "leaf".to_string(),
        ExecutionVariableScope::Local,
        VariableMutationMode::CreateOnly,
        vec![exec_write("x", "2")],
    );
    match cmd.run(&s, &mut vars) {
        Err(FlowableError::Conflict(m)) => assert_eq!(m, "Variable 'x' is already present on execution 'leaf'."),
        other => panic!("unexpected {:?}", other),
    }
}

#[test]
fn suspended_target_refuses_set() {
    let mut s = RuntimeStore::new();
    s.insert_execution(execution("root", None, true));
    s.insert_execution(execution("leaf", Some("root"), false));
    let mut vars = empty();
    let cmd = MutateExecutionVariablesCmd::new(
        "leaf".to_string(),
        ExecutionVariableScope::Global,
        VariableMutationMode::Upsert,
        vec![exec_write("g", "1")],
    );
    match cmd.run(&s, &mut vars) {
        Err(FlowableError::ExecutionError(m)) => assert_eq!(m, "Cannot set variables to a suspended execution 'root'"),
        other => panic!("unexpected {:?}", other),
    }
}

#[test]
fn async_batch_schedules_a_job_on_the_target() {
    let s = store();
    let vars = empty();
    let cmd = MutateExecutionVariablesAsyncCmd::new(
        "leaf".to_string(),
        ExecutionVariableScope::Global,
        VariableMutationMode::Upsert,
        vec![exec_write("g", "1")],
    );
    let job = cmd.run(&s, &vars).unwrap().unwrap();
    assert_eq!(job.execution_id, "child");
    assert!(!job.local);
    assert_eq!(job.writes, vec![("g".to_string(), "1".to_string())]);
    let none = MutateExecutionVariablesAsyncCmd::new(
        "leaf".to_string(),
        ExecutionVariableScope::Local,
        VariableMutationMode::Upsert,
        Vec::new(),
    );
    assert!(none.run(&s, &vars).unwrap().is_none());
}

#[test]
fn removing_task_variables_reads_as_absent() {
    let s = store();
    let mut vars = empty();
    vars.task_rows.push(row("task-1", "a", "1", true));
    vars.task_rows.push(row("task-1", "b", "2", true));
    let cmd = RemoveTaskVariablesCmd::new("task-1".to_string(), TaskVariableScope::Local, Some(vec!["a".to_string()]), true);
    assert!(cmd.run(&s, &mut vars).is_ok());
    assert_eq!(read_task(&s, &vars, "a"), None);
    assert_eq!(read_task(&s, &vars, "b"), Some("2".to_string()));
    let missing = RemoveTaskVariablesCmd::new("task-1".to_string(), TaskVariableScope::Local, Some(vec!["zz".to_string()]), true);
    match missing.run(&s, &mut vars) {
        Err(FlowableError::NotFound(m)) => assert_eq!(m, "Task 'task-1' does not have a variable with name: 'zz'."),
        other => panic!("unexpected {:?}", other),
    }
}

#[test]
fn removing_all_global_task_variables_is_refused() {
    let s = store();
    let mut vars = empty();
    let cmd = RemoveTaskVariablesCmd::new("task-1".to_string(), TaskVariableScope::Global, None, false);
    match cmd.run(&s, &mut vars) {
        Err(FlowableError::BadRequest(m)) => {
            assert_eq!(m, "Removing all variables is only supported for task-local variables")
        },
        other => panic!("unexpected {:?}", other),
    }
}

#[test]
fn global_task_removal_takes_nearest_holder_each_time() {
    let s = store();
    let mut vars = empty();
    vars.execution_rows.push(row("child", "x", "near", false));
    vars.execution_rows.push(row("root", "x", "far", false));
    let cmd = RemoveTaskVariablesCmd::new(
        "task-1".to_string(),
        TaskVariableScope::Global,
        Some(vec!["x".to_string(), "x".to_string()]),
        false,
    );
    assert!(cmd.run(&s, &mut vars).is_ok());
    assert!(vars.execution_rows.is_empty());
}

#[test]
fn execution_removal_of_all_local_variables() {
    let s = store();
    let mut vars = empty();
    vars.execution_rows.push(row("leaf", "a", "1", true));
    vars.execution_rows.push(row("child", "a", "2", false));
    let cmd = RemoveExecutionVariablesCmd::new("leaf".to_string(), ExecutionVariableScope::Local, None, false);
    assert!(cmd.run(&s, &mut vars).is_ok());
    assert_eq!(vars.execution_rows.len(), 1);
    assert_eq!(vars.execution_rows[0].owner_id, "child");
    let all_global = RemoveExecutionVariablesCmd::new("leaf".to_string(), ExecutionVariableScope::Global, None, false);
    match all_global.run(&s, &mut vars) {
        Err(FlowableError::BadRequest(m)) => {
            assert_eq!(m, "Removing all variables is only supported for execution-local variables")
        },
        other => panic!("unexpected {:?}", other),
    }
}

#[test]
fn scoped_listing_puts_locals_first_then_unshadowed_globals() {
    let s = store();
    let mut vars = empty();
    vars.execution_rows.push(row("leaf", "b", "leaf-b", true));
    vars.execution_rows.push(row("leaf", "a", "leaf-a", false));
    vars.execution_rows.push(row("child", "b", "child-b", false));
    vars.execution_rows.push(row("root", "c", "root-c", false));
    vars.execution_rows.push(row("child", "c", "child-c", false));
    let all = GetScopedExecutionVariablesCmd::new("leaf".to_string(), None).run(&s, &vars).unwrap();
    assert_eq!(
        all,
        vec![
            ("a".to_string(), "leaf-a".to_string(), ExecutionVariableScope::Local),
            ("b".to_string(), "leaf-b".to_string(), ExecutionVariableScope::Local),
            ("c".to_string(), "child-c".to_string(), ExecutionVariableScope::Global),
        ]
    );
    let global = GetScopedExecutionVariablesCmd::new("leaf".to_string(), Some(ExecutionVariableScope::Global))
        .run(&s, &vars)
        .unwrap();
    assert_eq!(
        global,
        vec![
            ("b".to_string(), "child-b".to_string(), ExecutionVariableScope::Global),
            ("c".to_string(), "child-c".to_string(), ExecutionVariableScope::Global),
        ]
    );
    let local = GetScopedExecutionVariablesCmd::new("root".to_string(), Some(ExecutionVariableScope::Local))
        .run(&s, &vars)
        .unwrap();
    assert_eq!(local, vec![("c".to_string(), "root-c".to_string(), ExecutionVariableScope::Local)]);
    assert!(GetScopedExecutionVariablesCmd::new("nope".to_string(), None).run(&s, &vars).is_err());
}

#[test]
fn task_listing_overlays_task_values_on_execution_values() {
    let s = store();
    let mut vars = empty();
    vars.task_rows.push(row("task-1", "x", "task-x", true));
    vars.execution_rows.push(row("root", "x", "root-x", false));
    vars.execution_rows.push(row("child", "y", "child-y", false));
    vars.execution_rows.push(row("elsewhere", "z", "other", false));
    let listing = GetTaskVariablesCmd::new("task-1".to_string()).run(&s, &vars).unwrap();
    assert_eq!(
        listing,
        vec![("x".to_string(), "task-x".to_string()), ("y".to_string(), "child-y".to_string())]
    );
    for (name, value) in &listing {
        assert_eq!(read_task(&s, &vars, name), Some(value.clone()));
    }
    assert!(GetTaskVariablesCmd::new("nope".to_string()).run(&s, &vars).is_err());
}
