//! Recording a failed job: its retries are counted down, its lock is
//! released, and it waits for a retry or moves to the dead-letter state.
use vstd::prelude::*;
use crate::command::{Command, CommandContext, EngineEvent, JobEventType};
use crate::entities::{opt_view, Duplicate, RuntimeTimerJobState};
use crate::error::{error_message, FlowableError};
use crate::jobs::{async_continuation_marker, opt_is, sat_add, saturating_add_i64};
use crate::timer_work::TimerWork;

verus! {

/// Who ran the job that failed.
#[derive(Clone, Copy, Debug, PartialEq, Eq, Structural)]
pub enum FailedJobExecutionOrigin {
    ManualManagementService,
    AutomaticExecutor,
}

/// A failed-job retry cycle (`R<n>/<period>`): how many retries it gives
/// and how long each waits.
#[derive(Clone, Copy, Debug, PartialEq, Eq, Structural)]
pub struct RetryCycle {
    pub repetitions: i32,
    pub delay_ms: i64,
}

/// Retries the job had before this failure: on its first failure, those of
/// its retry cycle, else its own, else the configured number (never
/// negative); on later failures, its own (none left when unset).
pub open spec fn retries_before_failure(
    job: RuntimeTimerJobState,
    cycle: Option<RetryCycle>,
    configured: i32,
) -> int {
    if job.error_message is None {
        match cycle {
            Some(c) => c.repetitions as int,
            None => match job.retries {
                Some(r) => r as int,
                None => if configured < 0 { 0 } else { configured as int },
            },
        }
    } else {
        match job.retries {
            Some(r) => r as int,
            None => 0,
        }
    }
}

/// Retries left after this failure: none for an unrecoverable failure, else
/// one less (saturating at `i32::MIN`).
pub open spec fn retries_after_failure(before: int, unrecoverable: bool) -> int {
    if unrecoverable {
        0
    } else if before == i32::MIN {
        before
    } else {
        before - 1
    }
}

pub open spec fn is_async_continuation_marked(job: RuntimeTimerJobState) -> bool {
    opt_view(job.time_duration) == Some(async_continuation_marker())
}

/// The state a failed job is left in: dead letter without retries; a timer
/// for an async continuation or a job without a state; else unchanged.
pub open spec fn failed_state(job: RuntimeTimerJobState, retries: int) -> Option<Seq<char>> {
    if retries <= 0 {
        Some("deadletter"@)
    } else if is_async_continuation_marked(job) || job.job_state is None {
        Some("timer"@)
    } else {
        opt_view(job.job_state)
    }
}

/// When a failed job is next due: an async continuation with retries left
/// waits its cycle's delay (at least 0), else the configured wait; other
/// jobs keep their due time.
pub open spec fn failed_due_time(
    job: RuntimeTimerJobState,
    retries: int,
    cycle: Option<RetryCycle>,
    wait_ms: u64,
    now: i64,
) -> Option<i64> {
    if retries > 0 && is_async_continuation_marked(job) {
        let delay: int = match cycle {
            Some(c) => if c.delay_ms < 0 { 0 } else { c.delay_ms as int },
            None => if wait_ms > i64::MAX as u64 { i64::MAX as int } else { wait_ms as int },
        };
        Some(sat_add(now as int, delay) as i64)
    } else {
        job.due_time
    }
}

/// The job after a failure with `message` and `details`, but for its state.
pub open spec fn failed_job_spec(
    job: RuntimeTimerJobState,
    cycle: Option<RetryCycle>,
    configured: i32,
    wait_ms: u64,
    now: i64,
    unrecoverable: bool,
    message: String,
    details: String,
) -> RuntimeTimerJobState {
    let retries = retries_after_failure(retries_before_failure(job, cycle, configured), unrecoverable);
    RuntimeTimerJobState {
        retries: Some(retries as i32),
        error_message: Some(message),
        error_details: Some(details),
        lock_owner: None,
        lock_time: None,
        lock_expiration_time: None,
        due_time: failed_due_time(job, retries, cycle, wait_ms, now),
        ..job
    }
}

/// The job after a failure, and whether it newly moved to the dead-letter state.
pub fn failed_job_update(
    job: &RuntimeTimerJobState,
    cycle: Option<RetryCycle>,
    configured_retries: i32,
    failed_job_wait_ms: u64,
    now: i64,
    unrecoverable: bool,
    message: &String,
    details: &String,
) -> (r: (RuntimeTimerJobState, bool))
    ensures
        r.0 == (RuntimeTimerJobState {
            job_state: r.0.job_state,
            ..failed_job_spec(*job, cycle, configured_retries, failed_job_wait_ms, now, unrecoverable, *message, *details)
        }),
        opt_view(r.0.job_state) == failed_state(*job, retries_after_failure(
            retries_before_failure(*job, cycle, configured_retries),
            unrecoverable,
        )),
        r.1 == (retries_after_failure(retries_before_failure(*job, cycle, configured_retries), unrecoverable)
            <= 0 && opt_view(job.job_state) != Some("deadletter"@)),
{
    let first_failure = job.error_message.is_none();
    let before: i32 = if first_failure {
        match cycle {
            Some(c) => c.repetitions,
            None => match job.retries {
                Some(r) => r,
                None => if configured_retries < 0 { 0 } else { configured_retries },
            },
        }
    } else {
        match job.retries {
            Some(r) => r,
            None => 0,
        }
    };
    let retries: i32 = if unrecoverable {
        0
    } else if before == i32::MIN {
        before
    } else {
        before - 1
    };
    let mut updated = job.duplicate();
    updated.retries = Some(retries);
    updated.error_message = Some(message.clone());
    updated.error_details = Some(details.clone());
    updated.lock_owner = None;
    updated.lock_time = None;
    updated.lock_expiration_time = None;
    let marked = opt_is(&job.time_duration, async_marker());
    proof {
        reveal_strlit("deadletter");
        reveal_strlit("timer");
    }
    let was_deadletter = opt_is(&job.job_state, "deadletter");
    let moved = retries <= 0 && !was_deadletter;
    if retries <= 0 {
        updated.job_state = Some(String::from_str("deadletter"));
    } else if marked || job.job_state.is_none() {
        updated.job_state = Some(String::from_str("timer"));
    }
    if retries > 0 && marked {
        let delay: i64 = match cycle {
            Some(c) => if c.delay_ms < 0 { 0 } else { c.delay_ms },
            None => if failed_job_wait_ms > 9223372036854775807u64 {
                9223372036854775807i64
            } else {
                failed_job_wait_ms as i64
            },
        };
        updated.due_time = Some(saturating_add_i64(now, delay));
    }
    (updated, moved)
}

fn async_marker() -> (r: &'static str)
    ensures
        r@ == async_continuation_marker(),
{
    crate::jobs::async_continuation_job_type_marker()
}

/// Records the failure of a piece of timer work.
#[derive(Debug)]
pub struct RecordFailedTimerWorkCmd {
    pub work: TimerWork,
    /// The error the work failed with.
    pub error: FlowableError,
    pub error_message: String,
    pub error_details: String,
    pub unrecoverable: bool,
    pub origin: FailedJobExecutionOrigin,
    /// The job's failed-job retry cycle, resolved from its definition.
    pub retry_cycle: Option<RetryCycle>,
}

impl RecordFailedTimerWorkCmd {
    /// A failure seen by the management service.
    pub fn new(work: TimerWork, error: &FlowableError) -> (r: Self)
        ensures
            r.work == work,
            r.error == *error,
            r.error_message@ == error_message(*error),
            r.error_details@ == crate::error::error_debug(*error),
            r.unrecoverable == crate::error::error_is_unrecoverable(*error),
            r.origin == FailedJobExecutionOrigin::ManualManagementService,
            r.retry_cycle is None,
    {
        Self::new_with_origin(work, error, FailedJobExecutionOrigin::ManualManagementService)
    }

    pub fn new_with_origin(work: TimerWork, error: &FlowableError, origin: FailedJobExecutionOrigin) -> (r: Self)
        ensures
            r.work == work,
            r.error == *error,
            r.error_message@ == error_message(*error),
            r.error_details@ == crate::error::error_debug(*error),
            r.unrecoverable == crate::error::error_is_unrecoverable(*error),
            r.origin == origin,
            r.retry_cycle is None,
    {
        RecordFailedTimerWorkCmd {
            work,
            error: error.duplicate(),
            error_message: error.message().clone(),
            error_details: error.debug_string(),
            unrecoverable: error.is_unrecoverable_job_failure(),
            origin,
            retry_cycle: None,
        }
    }

    /// The same command with the job's resolved retry cycle.
    pub fn with_retry_cycle(self, cycle: RetryCycle) -> (r: Self)
        ensures
            r == (RecordFailedTimerWorkCmd { retry_cycle: Some(cycle), ..self }),
    {
        RecordFailedTimerWorkCmd { retry_cycle: Some(cycle), ..self }
    }
}

/// The persisted row a failure is recorded on: the stored one, else the
/// work's own copy.
pub open spec fn persisted_job(store: crate::store::RuntimeStore, job: RuntimeTimerJobState) -> RuntimeTimerJobState {
    if store.timer_jobs@.contains_key(job.timer_job_id@) {
        store.timer_jobs@[job.timer_job_id@]
    } else {
        job
    }
}

/// Whether the failed job's retry cycle is read from its execution: an
/// async continuation carrying a cycle.
pub open spec fn reads_retry_cycle(job: RuntimeTimerJobState) -> bool {
    is_async_continuation_marked(job) && job.time_cycle is Some
}

/// `row` is `job` after a failure recorded with these inputs.
pub open spec fn failed_row(
    row: RuntimeTimerJobState,
    job: RuntimeTimerJobState,
    cycle: Option<RetryCycle>,
    configured: i32,
    wait_ms: u64,
    now: i64,
    unrecoverable: bool,
    message: String,
    details: String,
) -> bool {
    &&& row == (RuntimeTimerJobState {
        job_state: row.job_state,
        ..failed_job_spec(job, cycle, configured, wait_ms, now, unrecoverable, message, details)
    })
    &&& opt_view(row.job_state) == failed_state(
        job,
        retries_after_failure(retries_before_failure(job, cycle, configured), unrecoverable),
    )
}

impl RecordFailedTimerWorkCmd {
    pub open spec fn cycle_for(&self, job: RuntimeTimerJobState) -> Option<RetryCycle> {
        if reads_retry_cycle(job) {
            self.retry_cycle
        } else {
            None
        }
    }

    /// The process instance whose exclusive scope lock the executor releases
    /// after recording the failure: only automatic runs took it.
    pub fn released_scope(&self, failed: &RuntimeTimerJobState) -> (r: Option<String>)
        ensures
            opt_view(r) == (if self.origin == FailedJobExecutionOrigin::AutomaticExecutor
                && failed.exclusive && failed.process_instance_id@.len() > 0 {
                Some(failed.process_instance_id@)
            } else {
                None
            }),
    {
        if self.origin == FailedJobExecutionOrigin::AutomaticExecutor && failed.exclusive
            && failed.process_instance_id.unicode_len() > 0 {
            Some(failed.process_instance_id.clone())
        } else {
            None
        }
    }
}

/// The events a recorded failure queues, in order: the execution failure
/// first for the management service (last for the automatic executor), the
/// move to the dead-letter state when the job ran out of retries, and the
/// update and decrement of the row.
pub open spec fn failure_events(origin: FailedJobExecutionOrigin, persisted: RuntimeTimerJobState, updated: RuntimeTimerJobState,
    moved: bool) -> Seq<EngineEvent> {
    let failure = EngineEvent::Job { event_type: JobEventType::ExecutionFailure, job: persisted };
    let first = if origin == FailedJobExecutionOrigin::ManualManagementService { seq![failure] } else { Seq::empty() };
    let dead = if moved {
        seq![EngineEvent::Job { event_type: JobEventType::MovedToDeadLetter, job: updated }]
    } else {
        Seq::empty()
    };
    let last = if origin == FailedJobExecutionOrigin::AutomaticExecutor { seq![failure] } else { Seq::empty() };
    first + dead + seq![
        EngineEvent::Job { event_type: JobEventType::EntityUpdated, job: updated },
        EngineEvent::Job { event_type: JobEventType::RetriesDecremented, job: updated },
    ] + last
}

impl Command<()> for RecordFailedTimerWorkCmd {
    /// Only runtime jobs have failures recorded. The stored row (else the
    /// work's copy) gets its retries counted down, the error, no lock, and
    /// its next state and due time; fails with `NotFound` when an async
    /// continuation's retry cycle has no execution to be read against.
    fn execute(&self, ctx: &mut CommandContext) -> (r: Result<(), FlowableError>)
        ensures
            match self.work {
                TimerWork::RuntimeJob(t) => {
                    let p = persisted_job(old(ctx).session, t);
                    let missing = reads_retry_cycle(p) && !old(ctx).session.executions@.contains_key(p.execution_id@);
                    &&& (r is Err <==> missing)
                    &&& (r matches Err(e) ==> e is NotFound)
                    &&& (r is Err ==> final(ctx).events@ == old(ctx).events@ + (
                        if self.origin == FailedJobExecutionOrigin::ManualManagementService {
                            seq![EngineEvent::Job { event_type: JobEventType::ExecutionFailure, job: p }]
                        } else {
                            Seq::empty()
                        }))
                    &&& (r is Ok ==> {
                        &&& final(ctx).events@ == old(ctx).events@ + failure_events(self.origin, p,
                            final(ctx).session.timer_jobs@[p.timer_job_id@],
                            retries_after_failure(retries_before_failure(p, self.cycle_for(p), old(ctx).config.number_of_retries),
                                self.unrecoverable) <= 0 && opt_view(p.job_state) != Some("deadletter"@))
                        &&& final(ctx).session.timer_jobs@ == old(ctx).session.timer_jobs@.insert(
                            p.timer_job_id@,
                            final(ctx).session.timer_jobs@[p.timer_job_id@],
                        )
                        &&& failed_row(final(ctx).session.timer_jobs@[p.timer_job_id@], p, self.cycle_for(p),
                            old(ctx).config.number_of_retries, old(ctx).config.async_failed_job_wait_time_ms,
                            old(ctx).now_ms, self.unrecoverable, self.error_message, self.error_details)
                        &&& crate::store::frame(old(ctx).session, final(ctx).session, set![crate::store::StoreTable::TimerJobs])
                    })
                },
                _ => r is Ok && final(ctx).session == old(ctx).session && final(ctx).events == old(ctx).events,
            },
    {
        let timer_job = match &self.work {
            TimerWork::RuntimeJob(j) => j,
            _ => return Ok(()),
        };
        let persisted = match ctx.session.find_timer_job_state(&timer_job.timer_job_id) {
            Some(j) => j,
            None => timer_job.duplicate(),
        };
        if self.origin == FailedJobExecutionOrigin::ManualManagementService {
            ctx.add_post_agenda_event(EngineEvent::Job { event_type: JobEventType::ExecutionFailure, job: persisted.duplicate() });
        }
        let marked = opt_is(&persisted.time_duration, async_marker());
        let cycle = if marked && persisted.time_cycle.is_some() {
            if ctx.session.find_execution(&persisted.execution_id).is_none() {
                let mut m = crate::text::cat3("Execution '", persisted.execution_id.as_str(), "' for failed async job '");
                m.append(persisted.timer_job_id.as_str());
                m.append("' was not found");
                assert(ctx.events@ =~= old(ctx).events@ + (if self.origin == FailedJobExecutionOrigin::ManualManagementService {
                    seq![EngineEvent::Job { event_type: JobEventType::ExecutionFailure, job: persisted }]
                } else {
                    Seq::empty()
                }));
                return Err(FlowableError::NotFound(m));
            }
            self.retry_cycle
        } else {
            None
        };
        let (updated, moved) = failed_job_update(
            &persisted,
            cycle,
            ctx.config.number_of_retries,
            ctx.config.async_failed_job_wait_time_ms,
            ctx.now_ms,
            self.unrecoverable,
            &self.error_message,
            &self.error_details,
        );
        let ghost key = persisted.timer_job_id@;
        ctx.session.insert_timer_job_state(updated.duplicate());
        if moved {
            ctx.add_post_agenda_event(EngineEvent::Job { event_type: JobEventType::MovedToDeadLetter, job: updated.duplicate() });
        }
        ctx.add_post_agenda_event(EngineEvent::Job { event_type: JobEventType::EntityUpdated, job: updated.duplicate() });
        ctx.add_post_agenda_event(EngineEvent::Job { event_type: JobEventType::RetriesDecremented, job: updated });
        if self.origin == FailedJobExecutionOrigin::AutomaticExecutor {
            ctx.add_post_agenda_event(EngineEvent::Job { event_type: JobEventType::ExecutionFailure, job: persisted });
        }
        proof {
            assert(ctx.session.timer_jobs@[key] == updated);
            assert(ctx.session.timer_jobs@ =~= old(ctx).session.timer_jobs@.insert(key, ctx.session.timer_jobs@[key]));
            assert(ctx.events@ =~= old(ctx).events@ + failure_events(self.origin, persisted, updated, moved));
        }
        Ok(())
    }
}

/// On a job's first failure without a retry cycle, the job's own retry
/// count is counted down: retries `r` become `r - 1` (none when the failure
/// is unrecoverable), and the job moves to dead letter exactly when none are
/// left. The configured number of retries is used only for a job that
/// carries none of its own.
pub proof fn first_failure_counts_down_own_retries(
    job: RuntimeTimerJobState,
    configured: i32,
    wait_ms: u64,
    now: i64,
    unrecoverable: bool,
    message: String,
    details: String,
)
    requires
        job.error_message is None,
    ensures
        job.retries is Some && job.retries->0 > i32::MIN ==> {
            let f = failed_job_spec(job, None, configured, wait_ms, now, unrecoverable, message, details);
            let left: int = if unrecoverable { 0 } else { job.retries->0 - 1 };
            &&& f.retries == Some(left as i32)
            &&& (left <= 0 ==> failed_state(job, f.retries->0 as int) == Some("deadletter"@))
            &&& (left > 0 ==> failed_state(job, f.retries->0 as int) != Some("deadletter"@)
                || opt_view(job.job_state) == Some("deadletter"@))
        },
        job.retries is None ==> {
            let f = failed_job_spec(job, None, configured, wait_ms, now, unrecoverable, message, details);
            let own: int = if configured < 0 { 0 } else { configured as int };
            f.retries == Some((if unrecoverable { 0 } else if own == i32::MIN { own } else { own - 1 }) as i32)
        },
{
    reveal_strlit("timer");
    reveal_strlit("deadletter");
}

} // verus!
