use flowable_engine::command::{
    execute_command, ActivationCoordinator, Command, CommandContext, EngineConfig, EngineEvent,
    EntityEventType, EntityKind,
};
use flowable_engine::entities::{Execution, ProcessDefinition, ProcessInstance, RuntimeTimerJobState, Task};
use flowable_engine::error::FlowableError;
use flowable_engine::store::RuntimeStore;
use flowable_engine::suspension::{
    set_process_definition_suspension_state, set_process_instance_suspension_state,
    SuspendProcessInstancesByDefinitionCmd,
};

struct SuspendThenFailCmd;

impl Command<()> for SuspendThenFailCmd {
    fn execute(&self, ctx: &mut CommandContext) -> Result<(), FlowableError> {
        let pi = ctx
            .session
            .find_process_instance(&"process-1".to_string())
            .expect("seeded process instance");
        set_process_instance_suspension_state(ctx, pi, true)?;
        Err(FlowableError::ExecutionError(
            "forced rollback after process suspension".to_string(),
        ))
    }
}

struct SuspendDefinitionThenFailCmd;

impl Command<()> for SuspendDefinitionThenFailCmd {
    fn execute(&self, ctx: &mut CommandContext) -> Result<(), FlowableError> {
        set_process_definition_suspension_state(ctx, &"definition-1".to_string(), true, true)?;
        Err(FlowableError::ExecutionError(
            "forced rollback after definition suspension".to_string(),
        ))
    }
}

fn process_instance() -> ProcessInstance {
    ProcessInstance::new(
        "process-1".to_string(),
        "definition-1".to_string(),
        "definition".to_string(),
    )
}

fn definition() -> ProcessDefinition {
    ProcessDefinition {
        id: "definition-1".to_string(),
        key: "definition".to_string(),
        name: Some("Definition".to_string()),
        version: 1,
        is_suspended: false,
        tenant_id: None,
    }
}

fn timer_job() -> RuntimeTimerJobState {
    let mut job = RuntimeTimerJobState::new(
        "timer-1".to_string(),
        "process-1".to_string(),
        "execution-1".to_string(),
        "timer".to_string(),
    );
    job.job_state = Some("timer".to_string());
    job.due_time = Some(1);
    job.lock_owner = Some("old-owner".to_string());
    job.lock_time = Some(1);
    job.lock_expiration_time = Some(2);
    job.retries = Some(1);
    job
}

fn assert_untouched(store: &RuntimeStore) {
    assert!(
        !store
            .find_process_instance(&"process-1".to_string())
            .expect("process instance should remain")
            .is_suspended
    );
    let job = store
        .find_timer_job_state(&"timer-1".to_string())
        .expect("timer should remain");
    assert_eq!(job.job_state.as_deref(), Some("timer"));
    assert_eq!(job.lock_owner.as_deref(), Some("old-owner"));
    assert!(store.find_timer_job_type(&"timer-1".to_string()).is_none());
}

#[test]
fn process_and_job_suspension_roll_back_together() {
    let mut store = RuntimeStore::new();
    store.insert_process_instance(process_instance());
    store.insert_timer_job_state(timer_job());
    let outcome = execute_command(
        &mut store,
        &SuspendThenFailCmd,
        EngineConfig::new(),
        ActivationCoordinator::inactive(),
        10,
    );
    let error = outcome.result.expect_err("outer command should force rollback");
    assert_eq!(
        error.to_display_string(),
        "Execution error: forced rollback after process suspension"
    );
    assert!(outcome.events.is_empty());
    assert_untouched(&store);
}

#[test]
fn definition_instance_and_job_suspension_roll_back_together() {
    let mut store = RuntimeStore::new();
    store.insert_process_definition(definition());
    store.insert_process_instance(process_instance());
    store.insert_timer_job_state(timer_job());
    let outcome = execute_command(
        &mut store,
        &SuspendDefinitionThenFailCmd,
        EngineConfig::new(),
        ActivationCoordinator::inactive(),
        10,
    );
    let error = outcome.result.expect_err("outer command should force rollback");
    assert_eq!(
        error.to_display_string(),
        "Execution error: forced rollback after definition suspension"
    );
    assert!(
        !store
            .get_process_definition(&"definition-1".to_string())
            .expect("definition should remain")
            .is_suspended
    );
    assert_untouched(&store);
}

#[test]
fn suspending_an_instance_moves_its_executions_tasks_and_jobs() {
    let mut store = RuntimeStore::new();
    store.insert_process_instance(process_instance());
    store.insert_execution(Execution {
        id: "process-1".to_string(),
        parent_id: None,
        process_instance_id: Some("process-1".to_string()),
        process_definition_id: Some("definition-1".to_string()),
        activity_id: None,
        is_suspended: false,
        is_active: true,
        is_scope: true,
        is_ended: false,
    });
    store.insert_execution(Execution {
        id: "child-1".to_string(),
        parent_id: Some("process-1".to_string()),
        process_instance_id: Some("process-1".to_string()),
        process_definition_id: Some("definition-1".to_string()),
        activity_id: Some("task".to_string()),
        is_suspended: false,
        is_active: false,
        is_scope: false,
        is_ended: false,
    });
    store.insert_task(Task::new(
        "task-1".to_string(),
        "process-1".to_string(),
        "child-1".to_string(),
        "task".to_string(),
        "Review".to_string(),
    ));
    store.insert_timer_job_state(timer_job());
    let outcome = execute_command(
        &mut store,
        &SuspendProcessInstancesByDefinitionCmd::new("definition-1".to_string(), true),
        EngineConfig::new(),
        ActivationCoordinator::inactive(),
        10,
    );
    assert_eq!(outcome.result.expect("suspension succeeds"), 1);
    assert!(store.find_process_instance(&"process-1".to_string()).unwrap().is_suspended);
    assert!(store.find_execution(&"process-1".to_string()).unwrap().is_suspended);
    assert!(store.find_execution(&"child-1".to_string()).unwrap().is_suspended);
    assert!(store.find_task(&"task-1".to_string()).unwrap().is_suspended());
    let job = store.find_timer_job_state(&"timer-1".to_string()).unwrap();
    assert_eq!(job.job_state.as_deref(), Some("suspended"));
    assert_eq!(job.lock_owner, None);
    assert!(store.find_timer_job_type(&"timer-1".to_string()).is_some());
    let kinds: Vec<&str> = outcome
        .events
        .iter()
        .map(|event| match event {
            EngineEvent::Entity { entity_kind: EntityKind::Execution, event_type: EntityEventType::EntitySuspended, .. } => "execution",
            EngineEvent::Entity { entity_kind: EntityKind::Task, event_type: EntityEventType::EntitySuspended, .. } => "task",
            _ => "other",
        })
        .collect();
    assert_eq!(kinds, vec!["execution", "execution", "task"]);

    let outcome = execute_command(
        &mut store,
        &SuspendProcessInstancesByDefinitionCmd::new("definition-1".to_string(), false),
        EngineConfig::new(),
        ActivationCoordinator::inactive(),
        20,
    );
    assert_eq!(outcome.result.expect("activation succeeds"), 1);
    let job = store.find_timer_job_state(&"timer-1".to_string()).unwrap();
    assert_eq!(job.job_state.as_deref(), Some("timer"));
    assert!(!store.find_task(&"task-1".to_string()).unwrap().is_suspended());
}
