//! Commands, the context they run in, and the executor that commits a
//! command's work or rolls all of it back.
use vstd::prelude::*;
use crate::entities::{opt_view, RuntimeTimerJobState};
use crate::error::FlowableError;
use crate::store::RuntimeStore;

verus! {

/// Engine settings the commands read.
#[derive(Debug)]
pub struct EngineConfig {
    /// Retries given to a job that fails for the first time (negative reads as 0).
    pub number_of_retries: i32,
    /// Delay before a failed async job is retried.
    pub async_failed_job_wait_time_ms: u64,
    /// Lock duration of acquired timer work.
    pub timer_lock_time_ms: u64,
    /// Lock duration of acquired async jobs.
    pub async_job_lock_time_ms: u64,
}

impl EngineConfig {
    /// The default settings: 3 retries, 10 s failed-job wait, 5 min locks.
    pub fn new() -> (r: Self)
        ensures
            r.number_of_retries == 3,
            r.async_failed_job_wait_time_ms == 10000,
            r.timer_lock_time_ms == 300000,
            r.async_job_lock_time_ms == 300000,
    {
        EngineConfig {
            number_of_retries: 3,
            async_failed_job_wait_time_ms: 10000,
            timer_lock_time_ms: 300000,
            async_job_lock_time_ms: 300000,
        }
    }
}

/// The async executor as seen by job activation: whether it runs, the lock
/// owner it stamps on pre-locked jobs and the categories it executes.
#[derive(Debug)]
pub struct ActivationCoordinator {
    pub active: bool,
    pub tenant_enabled: bool,
    pub lock_owner: String,
    pub async_job_lock_ms: i64,
    /// Empty: every category.
    pub enabled_categories: Vec<String>,
}

/// Whether `category` is in `list`.
pub open spec fn contains_view(list: Seq<String>, category: Seq<char>) -> bool {
    exists|i: int| 0 <= i < list.len() && (#[trigger] list[i])@ == category
}

/// Whether a job of the given category is handed to the executor after commit.
pub open spec fn category_enabled_spec(enabled: Seq<String>, category: Option<Seq<char>>) -> bool {
    enabled.len() == 0 || (category matches Some(c) && contains_view(enabled, c))
}

/// Whether `s` is one of `list`.
pub fn contains_string(list: &Vec<String>, s: &String) -> (r: bool)
    ensures
        r == contains_view(list@, s@),
{
    let mut i: usize = 0;
    while i < list.len()
        invariant
            0 <= i <= list.len(),
            forall|j: int| 0 <= j < i ==> (#[trigger] list@[j])@ != s@,
        decreases list.len() - i,
    {
        if list[i].eq(s) {
            return true;
        }
        i = i + 1;
    }
    false
}

impl ActivationCoordinator {
    /// An executor that is not running.
    pub fn inactive() -> (r: Self)
        ensures
            !r.active,
            !r.tenant_enabled,
            r.lock_owner@.len() == 0,
            r.async_job_lock_ms == 0,
            r.enabled_categories@.len() == 0,
    {
        ActivationCoordinator {
            active: false,
            tenant_enabled: false,
            lock_owner: String::new(),
            async_job_lock_ms: 0,
            enabled_categories: Vec::new(),
        }
    }

    /// Whether a committed job of this category is hinted to the executor.
    pub fn category_enabled_for_hint(&self, category: &Option<String>) -> (r: bool)
        ensures
            r == category_enabled_spec(self.enabled_categories@, opt_view(*category)),
    {
        if self.enabled_categories.len() == 0 {
            return true;
        }
        match category {
            Some(c) => contains_string(&self.enabled_categories, c),
            None => false,
        }
    }
}

/// What an entity event reports.
#[derive(Debug)]
pub enum EntityEventType {
    EntitySuspended,
    EntityActivated,
    ProcessCompletedWithEscalationEndEvent,
}

/// The kind of entity an event is about.
#[derive(Debug)]
pub enum EntityKind {
    Execution,
    Task,
    ProcessDefinition,
    ProcessInstance,
}

/// An event dispatched after the command's work has been committed.
#[derive(Debug)]
pub enum EngineEvent {
    Entity {
        event_type: EntityEventType,
        entity_kind: EntityKind,
        entity_id: String,
        process_instance_id: Option<String>,
        execution_id: Option<String>,
        process_definition_id: Option<String>,
    },
    JobExecutionSuccess { job_id: String },
    Job { event_type: JobEventType, job: RuntimeTimerJobState },
}

/// What a job event reports.
#[derive(Debug)]
pub enum JobEventType {
    ExecutionFailure,
    MovedToDeadLetter,
    EntityUpdated,
    RetriesDecremented,
    Rescheduled,
    TimerScheduled,
}

/// What a command runs against: its own working copy of the store, the
/// engine settings, the clock reading, and what it leaves for after commit.
#[derive(Debug)]
pub struct CommandContext {
    pub session: RuntimeStore,
    pub config: EngineConfig,
    pub coordinator: ActivationCoordinator,
    pub now_ms: i64,
    pub events: Vec<EngineEvent>,
    pub pending_async_hints: Vec<RuntimeTimerJobState>,
}

impl CommandContext {
    /// A context over `session` with nothing pending.
    pub fn new(
        session: RuntimeStore,
        config: EngineConfig,
        coordinator: ActivationCoordinator,
        now_ms: i64,
    ) -> (r: Self)
        ensures
            r.session == session,
            r.config == config,
            r.coordinator == coordinator,
            r.now_ms == now_ms,
            r.events@.len() == 0,
            r.pending_async_hints@.len() == 0,
    {
        CommandContext {
            session,
            config,
            coordinator,
            now_ms,
            events: Vec::new(),
            pending_async_hints: Vec::new(),
        }
    }

    /// Queues an event for dispatch after commit.
    pub fn add_post_agenda_event(&mut self, event: EngineEvent)
        ensures
            final(self).events@ == old(self).events@.push(event),
            final(self).session == old(self).session,
            final(self).config == old(self).config,
            final(self).coordinator == old(self).coordinator,
            final(self).now_ms == old(self).now_ms,
            final(self).pending_async_hints == old(self).pending_async_hints,
    {
        self.events.push(event);
    }
}

/// A unit of engine work.
pub trait Command<T> {
    fn execute(&self, ctx: &mut CommandContext) -> (r: Result<T, FlowableError>)
        requires
            old(ctx).session.wf(),
        ensures
            final(ctx).session.wf(),
    ;
}

/// What running a command produced.
#[derive(Debug)]
pub struct CommandOutcome<T> {
    pub result: Result<T, FlowableError>,
    /// Events to dispatch, in order; empty when the command failed.
    pub events: Vec<EngineEvent>,
    /// Jobs to hand to the async executor; empty when the command failed.
    pub async_hints: Vec<RuntimeTimerJobState>,
}

/// Runs `cmd` on a working copy of `store`. On success the copy, with all
/// the command's changes, becomes the store; on failure the store is left
/// exactly as it was and nothing is dispatched.
pub fn execute_command<T, C: Command<T>>(
    store: &mut RuntimeStore,
    cmd: &C,
    config: EngineConfig,
    coordinator: ActivationCoordinator,
    now_ms: i64,
) -> (r: CommandOutcome<T>)
    requires
        old(store).wf(),
    ensures
        final(store).wf(),
        r.result is Err ==> *final(store) == *old(store),
        r.result is Err ==> r.events@.len() == 0 && r.async_hints@.len() == 0,
{
    let session = store.working_copy();
    let mut ctx = CommandContext::new(session, config, coordinator, now_ms);
    let result = cmd.execute(&mut ctx);
    match result {
        Ok(v) => {
            *store = ctx.session;
            CommandOutcome { result: Ok(v), events: ctx.events, async_hints: ctx.pending_async_hints }
        },
        Err(e) => CommandOutcome { result: Err(e), events: Vec::new(), async_hints: Vec::new() },
    }
}

} // verus!
