//! The decisions of executing acquired timer work: whether the caller still
//! owns it, what the job is routed to, which scope lock is released, and the
//! report of a fired start or event-subprocess timer.
use vstd::prelude::*;
use crate::entities::{opt_view, RuntimeTimerJobState};
use crate::jobs::{async_continuation_spec, async_after_spec, state_is, is_async_continuation_job,
    is_async_after_job, is_history_job, is_set_async_variables_job,
    is_async_complete_call_activity_job};
use crate::command::{Command, CommandContext, EngineEvent};
use crate::error::FlowableError;
use crate::store::{frame, StoreTable};
use crate::suspension::{scheduled_definition_spec, ExecuteScheduledProcessDefinitionActionCmd};
use crate::text::{cat, cat3};
use crate::timer_work::{lease_held, work_is_async_job_spec, timer_work_is_async_job,
    TimerCoordinatorLease, TimerWork, lease_admits, TimerStartSubscription,
    EventSubprocessTimerSubscription};

verus! {

/// Executes one piece of acquired timer work.
#[derive(Debug)]
pub struct ExecuteTimerWorkCmd {
    pub work: TimerWork,
    pub owner_id: String,
    pub fencing_token: i64,
    /// Whether the caller must hold the acquisition lock on the work.
    pub require_acquired_lock: bool,
    /// A job pre-locked by the active async executor and handed over after
    /// commit: its row lock, not the coordinator lease, is checked.
    pub direct_hint: bool,
}

/// The owner stamped on manual executions.
pub open spec fn manual_owner() -> Seq<char> {
    "manual-job-execution"@
}

impl ExecuteTimerWorkCmd {
    pub fn new(work: TimerWork, owner_id: String, fencing_token: i64) -> (r: Self)
        ensures
            r.work == work,
            r.owner_id == owner_id,
            r.fencing_token == fencing_token,
            r.require_acquired_lock,
            !r.direct_hint,
    {
        ExecuteTimerWorkCmd { work, owner_id, fencing_token, require_acquired_lock: true, direct_hint: false }
    }

    /// Manual execution of an async job (same as [`Self::new_manual_job`]).
    pub fn new_manual_async_job(work: TimerWork) -> (r: Self)
        ensures
            r.work == work,
            r.owner_id@ == manual_owner(),
            r.fencing_token == 0,
            !r.require_acquired_lock,
            !r.direct_hint,
    {
        Self::new_manual_job(work)
    }

    /// Manual execution of any runtime job: no lease and no lock ownership
    /// is checked.
    pub fn new_manual_job(work: TimerWork) -> (r: Self)
        ensures
            r.work == work,
            r.owner_id@ == manual_owner(),
            r.fencing_token == 0,
            !r.require_acquired_lock,
            !r.direct_hint,
    {
        proof {
            reveal_strlit("manual-job-execution");
        }
        ExecuteTimerWorkCmd {
            work,
            owner_id: String::from_str("manual-job-execution"),
            fencing_token: 0,
            require_acquired_lock: false,
            direct_hint: false,
        }
    }

    /// Execution of a job pre-locked by `owner_id` and handed over after commit.
    pub fn new_direct_hint(work: TimerWork, owner_id: String) -> (r: Self)
        ensures
            r.work == work,
            r.owner_id == owner_id,
            r.fencing_token == 0,
            r.require_acquired_lock,
            r.direct_hint,
    {
        ExecuteTimerWorkCmd { work, owner_id, fencing_token: 0, require_acquired_lock: true, direct_hint: true }
    }

    pub open spec fn skips_lease_spec(&self) -> bool {
        self.direct_hint || !self.require_acquired_lock || (self.fencing_token == 0
            && work_is_async_job_spec(self.work))
    }

    /// Whether the coordinator lease is not consulted: direct hints, manual
    /// executions, and async jobs offered with fencing token 0.
    pub fn skip_coordinator_lease(&self) -> (r: bool)
        ensures
            r == self.skips_lease_spec(),
    {
        self.direct_hint || !self.require_acquired_lock || (self.fencing_token == 0
            && timer_work_is_async_job(&self.work))
    }

    /// Whether the work may go on given the current coordinator lease.
    pub fn lease_allows(&self, lease: &Option<TimerCoordinatorLease>) -> (r: bool)
        ensures
            r == (self.skips_lease_spec() || lease_held(*lease, self.owner_id@, self.fencing_token)),
    {
        self.skip_coordinator_lease() || lease_admits(lease, &self.owner_id, self.fencing_token)
    }
}

/// Whether a runtime job may run, and which exclusive scope lock to release
/// when it may not.
#[derive(Debug)]
pub enum RuntimeJobGate {
    Proceed,
    Conflict { release_scope_of: Option<String> },
}

/// The process instance whose scope lock is released for an exclusive job.
pub open spec fn scope_release(job: RuntimeTimerJobState, releases: bool) -> Option<Seq<char>> {
    if releases && job.exclusive && job.process_instance_id@.len() > 0 {
        Some(job.process_instance_id@)
    } else {
        None
    }
}

pub open spec fn gate_view(g: RuntimeJobGate) -> Option<Option<Seq<char>>> {
    match g {
        RuntimeJobGate::Proceed => None,
        RuntimeJobGate::Conflict { release_scope_of } => Some(opt_view(release_scope_of)),
    }
}

/// Outcome of the ownership check of a runtime job: `None` when it may run;
/// otherwise the scope lock released because of the conflict.
pub open spec fn runtime_job_gate_spec(
    cmd: ExecuteTimerWorkCmd,
    timer: RuntimeTimerJobState,
    current: Option<RuntimeTimerJobState>,
    now: i64,
) -> Option<Option<Seq<char>>> {
    match current {
        None => Some(scope_release(timer, cmd.require_acquired_lock)),
        Some(cur) => {
            let same_lease = opt_view(cur.lock_owner) == Some(cmd.owner_id@) && opt_view(
                cur.lock_owner,
            ) == opt_view(timer.lock_owner) && cur.lock_time == timer.lock_time
                && cur.lock_expiration_time == timer.lock_expiration_time;
            let lock_live = cur.lock_expiration_time matches Some(e) && e > now;
            if cmd.direct_hint && !(same_lease && lock_live) {
                Some(scope_release(cur, true))
            } else if !(cmd.fencing_token == 0 && state_is(cur, "history"@))
                && cmd.require_acquired_lock && opt_view(cur.lock_owner) != Some(cmd.owner_id@) {
                Some(scope_release(cur, true))
            } else {
                None
            }
        },
    }
}

fn release_of(job: &RuntimeTimerJobState, releases: bool) -> (r: Option<String>)
    ensures
        opt_view(r) == scope_release(*job, releases),
{
    if releases && job.exclusive && job.process_instance_id.unicode_len() > 0 {
        Some(job.process_instance_id.clone())
    } else {
        None
    }
}

fn owned_by(owner: &Option<String>, id: &String) -> (r: bool)
    ensures
        r == (opt_view(*owner) == Some(id@)),
{
    match owner {
        Some(o) => o.eq(id),
        None => false,
    }
}

fn same_opt_i64(a: Option<i64>, b: Option<i64>) -> (r: bool)
    ensures
        r == (a == b),
{
    match (a, b) {
        (Some(x), Some(y)) => x == y,
        (None, None) => true,
        _ => false,
    }
}

impl ExecuteTimerWorkCmd {
    /// Re-checks an acquired runtime job against its current row: a vanished
    /// row, a direct hint whose lock was taken over or has expired, and a row
    /// locked by someone else are conflicts.
    pub fn runtime_job_gate(
        &self,
        timer: &RuntimeTimerJobState,
        current: &Option<RuntimeTimerJobState>,
        now: i64,
    ) -> (r: RuntimeJobGate)
        ensures
            gate_view(r) == runtime_job_gate_spec(*self, *timer, *current, now),
    {
        match current {
            None => RuntimeJobGate::Conflict { release_scope_of: release_of(timer, self.require_acquired_lock) },
            Some(cur) => {
                if self.direct_hint {
                    let same_lease = owned_by(&cur.lock_owner, &self.owner_id)
                        && crate::entities::opt_eq(&cur.lock_owner, &timer.lock_owner)
                        && same_opt_i64(cur.lock_time, timer.lock_time)
                        && same_opt_i64(cur.lock_expiration_time, timer.lock_expiration_time);
                    let lock_live = match cur.lock_expiration_time {
                        Some(e) => e > now,
                        None => false,
                    };
                    if !same_lease || !lock_live {
                        return RuntimeJobGate::Conflict { release_scope_of: release_of(cur, true) };
                    }
                }
                let unlocked_shared_history = self.fencing_token == 0 && is_history_job(cur);
                if !unlocked_shared_history && self.require_acquired_lock && !owned_by(
                    &cur.lock_owner,
                    &self.owner_id,
                ) {
                    return RuntimeJobGate::Conflict { release_scope_of: release_of(cur, true) };
                }
                RuntimeJobGate::Proceed
            },
        }
    }

    /// The scope lock released after the job ran: only executor runs that
    /// took it.
    pub fn success_scope_release(&self, job: &RuntimeTimerJobState) -> (r: Option<String>)
        ensures
            opt_view(r) == scope_release(*job, self.require_acquired_lock),
    {
        release_of(job, self.require_acquired_lock)
    }

    /// Whether an acquired start or event-subprocess subscription is still
    /// owned by this executor.
    pub fn subscription_owned(&self, current_lock_owner: &Option<Option<String>>) -> (r: bool)
        ensures
            r == (*current_lock_owner matches Some(o) && opt_view(o) == Some(self.owner_id@)),
    {
        match current_lock_owner {
            Some(o) => owned_by(o, &self.owner_id),
            None => false,
        }
    }
}

/// What a runtime job that passed its gate does.
#[derive(Debug, PartialEq, Eq)]
pub enum RuntimeJobRoute {
    /// A scheduled suspend (`true`) or activate (`false`) of a definition.
    ScheduledDefinitionAction(bool),
    /// A timer due after its end date: deleted without firing.
    DropPastEndDate,
    SetAsyncVariables,
    HistoryCleanup,
    AsyncCompleteCallActivity,
    AsyncContinuation,
    AsyncAfter,
    History,
    BoundaryTimer,
    IntermediateTimer,
}

pub open spec fn handler_is(job: RuntimeTimerJobState, t: Seq<char>) -> bool {
    opt_view(job.handler_type) == Some(t)
}

/// The route of a job: `definition_action` is what the scheduled definition
/// timer check gave; `due_within_end_date` whether its due time is still
/// within its end date; `history_cleanup` whether it is the history cleanup job.
pub open spec fn route_spec(
    job: RuntimeTimerJobState,
    definition_action: Option<bool>,
    due_within_end_date: bool,
    history_cleanup: bool,
) -> RuntimeJobRoute {
    let set_vars = handler_is(job, "set-async-variables"@);
    let complete_call = handler_is(job, "async-complete-call-actiivty"@);
    if definition_action is Some {
        RuntimeJobRoute::ScheduledDefinitionAction(definition_action->0)
    } else if job.due_time is Some && !due_within_end_date && !async_continuation_spec(job)
        && !async_after_spec(job) && !state_is(job, "history"@) && !set_vars && !complete_call {
        RuntimeJobRoute::DropPastEndDate
    } else if set_vars {
        RuntimeJobRoute::SetAsyncVariables
    } else if history_cleanup {
        RuntimeJobRoute::HistoryCleanup
    } else if complete_call {
        RuntimeJobRoute::AsyncCompleteCallActivity
    } else if async_continuation_spec(job) {
        RuntimeJobRoute::AsyncContinuation
    } else if async_after_spec(job) {
        RuntimeJobRoute::AsyncAfter
    } else if state_is(job, "history"@) {
        RuntimeJobRoute::History
    } else if job.is_boundary {
        RuntimeJobRoute::BoundaryTimer
    } else {
        RuntimeJobRoute::IntermediateTimer
    }
}

/// Routes a runtime job that may run.
pub fn route_runtime_job(
    job: &RuntimeTimerJobState,
    due_within_end_date: bool,
    history_cleanup: bool,
) -> (r: RuntimeJobRoute)
    ensures
        r == route_spec(*job, crate::suspension::scheduled_definition_spec(*job), due_within_end_date, history_cleanup),
{
    let definition_action = crate::suspension::scheduled_process_definition_suspended(job);
    let set_vars = is_set_async_variables_job(job);
    let complete_call = is_async_complete_call_activity_job(job);
    proof {
        reveal_strlit("set-async-variables");
        reveal_strlit("async-complete-call-actiivty");
    }
    if let Some(suspended) = definition_action {
        return RuntimeJobRoute::ScheduledDefinitionAction(suspended);
    }
    let continuation = is_async_continuation_job(job);
    let after = is_async_after_job(job);
    let history = is_history_job(job);
    if job.due_time.is_some() && !due_within_end_date && !continuation && !after && !history
        && !set_vars && !complete_call {
        RuntimeJobRoute::DropPastEndDate
    } else if set_vars {
        RuntimeJobRoute::SetAsyncVariables
    } else if history_cleanup {
        RuntimeJobRoute::HistoryCleanup
    } else if complete_call {
        RuntimeJobRoute::AsyncCompleteCallActivity
    } else if continuation {
        RuntimeJobRoute::AsyncContinuation
    } else if after {
        RuntimeJobRoute::AsyncAfter
    } else if history {
        RuntimeJobRoute::History
    } else if job.is_boundary {
        RuntimeJobRoute::BoundaryTimer
    } else {
        RuntimeJobRoute::IntermediateTimer
    }
}

/// The report of a fired process start timer.
pub open spec fn process_start_report_spec(
    started_instance_id: Option<Seq<char>>,
    key: Seq<char>,
    start_event_id: Seq<char>,
) -> Seq<char> {
    match started_instance_id {
        Some(id) => "timer_start:"@ + id + ":"@ + key + ":"@ + start_event_id,
        None => "timer_start_skipped_suspended:"@ + key + ":"@ + start_event_id,
    }
}

/// `timer_start:<instance>:<key>:<start event>`, or
/// `timer_start_skipped_suspended:<key>:<start event>` when the definition
/// was suspended and nothing started.
pub fn process_start_report(started_instance_id: &Option<String>, sub: &TimerStartSubscription) -> (r: String)
    ensures
        r@ == process_start_report_spec(opt_view(*started_instance_id), sub.process_definition_key@,
            sub.start_event_id@),
{
    match started_instance_id {
        Some(id) => {
            let mut s = cat3("timer_start:", id.as_str(), ":");
            s.append(sub.process_definition_key.as_str());
            s.append(":");
            s.append(sub.start_event_id.as_str());
            s
        },
        None => {
            let mut s = cat3("timer_start_skipped_suspended:", sub.process_definition_key.as_str(), ":");
            s.append(sub.start_event_id.as_str());
            s
        },
    }
}

/// `event_subprocess_timer:<instance>:<start event>`.
pub fn event_subprocess_report(sub: &EventSubprocessTimerSubscription) -> (r: String)
    ensures
        r@ == "event_subprocess_timer:"@ + sub.process_instance_id@ + ":"@ + sub.start_event_id@,
{
    let mut s = cat3("event_subprocess_timer:", sub.process_instance_id.as_str(), ":");
    s.append(sub.start_event_id.as_str());
    s
}

/// Whether a fired event-subprocess timer stays (and is rescheduled): only
/// non-interrupting cycles.
pub fn event_subprocess_timer_repeats(sub: &EventSubprocessTimerSubscription) -> (r: bool)
    ensures
        r == (!sub.interrupting && sub.time_cycle is Some),
{
    !sub.interrupting && sub.time_cycle.is_some()
}

/// What one execution of timer work did, or hands on to the handler of the
/// work's kind.
#[derive(Debug)]
pub enum TimerExecutionOutcome {
    /// Nothing ran: the lease was not held, or the job failed its ownership
    /// check; names the instance whose exclusive scope lock is released.
    Skipped { release_scope_of: Option<String> },
    /// The job was due after its end date: its row was deleted unfired.
    DroppedPastEndDate,
    /// A scheduled definition suspend or activate ran; the job's id.
    Executed(String),
    /// The job passed its check; its current row goes to the handler `route`.
    Dispatch { job: RuntimeTimerJobState, route: RuntimeJobRoute },
    /// A start or event-subprocess subscription, for its own handler.
    Subscription,
}

impl ExecuteTimerWorkCmd {
    /// Executes the work as far as this command decides it: checks the
    /// coordinator lease (unless the work skips it), re-reads a runtime job's
    /// row and checks that this executor still owns it, deletes a timer due
    /// after its end date (`due_within_end_date` is false), runs a scheduled
    /// definition suspend or activate, and hands any other job to the handler
    /// of its route. `history_cleanup` tells whether the row is the history
    /// cleanup job.
    pub fn execute(
        &self,
        ctx: &mut CommandContext,
        lease: &Option<TimerCoordinatorLease>,
        due_within_end_date: bool,
        history_cleanup: bool,
    ) -> (r: Result<TimerExecutionOutcome, FlowableError>)
        requires
            old(ctx).session.wf(),
        ensures
            final(ctx).session.wf(),
            final(ctx).config == old(ctx).config,
            final(ctx).now_ms == old(ctx).now_ms,
            !(self.skips_lease_spec() || lease_held(*lease, self.owner_id@, self.fencing_token)) ==> {
                &&& r matches Ok(TimerExecutionOutcome::Skipped { release_scope_of: None })
                &&& *final(ctx) == *old(ctx)
            },
            (self.skips_lease_spec() || lease_held(*lease, self.owner_id@, self.fencing_token))
                && !(self.work is RuntimeJob) ==> {
                &&& r matches Ok(TimerExecutionOutcome::Subscription)
                &&& *final(ctx) == *old(ctx)
            },
            (self.skips_lease_spec() || lease_held(*lease, self.owner_id@, self.fencing_token))
                && self.work is RuntimeJob ==> {
                let timer = self.work->RuntimeJob_0;
                let rows = old(ctx).session.timer_jobs@;
                let current = if rows.contains_key(timer.timer_job_id@) {
                    Some(rows[timer.timer_job_id@])
                } else {
                    None::<RuntimeTimerJobState>
                };
                let gate = runtime_job_gate_spec(*self, timer, current, old(ctx).now_ms);
                let job = current->0;
                let route = route_spec(job, scheduled_definition_spec(job), due_within_end_date, history_cleanup);
                &&& gate is Some ==> {
                    &&& r matches Ok(TimerExecutionOutcome::Skipped { release_scope_of: rel })
                        && opt_view(rel) == gate->0
                    &&& *final(ctx) == *old(ctx)
                }
                &&& gate is None && route is DropPastEndDate ==> {
                    &&& r matches Ok(TimerExecutionOutcome::DroppedPastEndDate)
                    &&& frame(old(ctx).session, final(ctx).session, set![StoreTable::TimerJobs, StoreTable::JobTypes])
                    &&& final(ctx).session.timer_jobs@ == rows.remove(timer.timer_job_id@)
                    &&& final(ctx).session.job_types@ == old(ctx).session.job_types@.remove(timer.timer_job_id@)
                    &&& final(ctx).events == old(ctx).events
                }
                &&& gate is None && route is ScheduledDefinitionAction ==> {
                    let suspended = route->ScheduledDefinitionAction_0;
                    let defs = old(ctx).session.process_definitions@;
                    &&& r is Err <==> (!defs.contains_key(job.execution_id@)
                        || defs[job.execution_id@].is_suspended == suspended)
                    &&& r is Err ==> *final(ctx) == *old(ctx)
                    &&& r is Ok ==> {
                        &&& r matches Ok(TimerExecutionOutcome::Executed(id)) && id@ == timer.timer_job_id@
                        &&& !final(ctx).session.timer_jobs@.contains_key(job.timer_job_id@)
                        &&& final(ctx).events@.len() > 0
                        &&& final(ctx).events@.last() == (EngineEvent::JobExecutionSuccess { job_id: job.timer_job_id })
                    }
                }
                &&& gate is None && !(route is DropPastEndDate) && !(route is ScheduledDefinitionAction) ==> {
                    &&& r matches Ok(TimerExecutionOutcome::Dispatch { job: j, route: rt }) && j == job && rt == route
                    &&& *final(ctx) == *old(ctx)
                }
            },
    {
        if !self.lease_allows(lease) {
            return Ok(TimerExecutionOutcome::Skipped { release_scope_of: None });
        }
        let timer = match &self.work {
            TimerWork::RuntimeJob(t) => t,
            _ => return Ok(TimerExecutionOutcome::Subscription),
        };
        let current = ctx.session.find_timer_job_state(&timer.timer_job_id);
        let gate = self.runtime_job_gate(timer, &current, ctx.now_ms);
        if let RuntimeJobGate::Conflict { release_scope_of } = gate {
            return Ok(TimerExecutionOutcome::Skipped { release_scope_of });
        }
        let job = match current {
            Some(j) => j,
            None => return Ok(TimerExecutionOutcome::Skipped { release_scope_of: None }),
        };
        let route = route_runtime_job(&job, due_within_end_date, history_cleanup);
        match route {
            RuntimeJobRoute::DropPastEndDate => {
                ctx.session.delete_timer_job_state(&job.timer_job_id);
                Ok(TimerExecutionOutcome::DroppedPastEndDate)
            },
            RuntimeJobRoute::ScheduledDefinitionAction(suspended) => {
                let id = timer.timer_job_id.clone();
                let job_id = job.timer_job_id.clone();
                let cmd = ExecuteScheduledProcessDefinitionActionCmd::new(job, suspended);
                cmd.execute(ctx)?;
                ctx.add_post_agenda_event(EngineEvent::JobExecutionSuccess { job_id });
                Ok(TimerExecutionOutcome::Executed(id))
            },
            _ => Ok(TimerExecutionOutcome::Dispatch { job, route }),
        }
    }
}

/// A runtime job is not run twice, nor by an executor that does not own it:
/// once its row is gone (dropped past its end date, or deleted by the run
/// that fired it), executing the same work again is refused; and an
/// executor that must hold the job's lock is refused a row locked by
/// someone else (unless it is a shared history job offered with token 0).
pub proof fn no_double_execution(cmd: ExecuteTimerWorkCmd, current: RuntimeTimerJobState, now: i64)
    requires
        cmd.work is RuntimeJob,
    ensures
        runtime_job_gate_spec(cmd, cmd.work->RuntimeJob_0, None, now) is Some,
        cmd.require_acquired_lock && opt_view(current.lock_owner) != Some(cmd.owner_id@)
            && !(cmd.fencing_token == 0 && state_is(current, "history"@))
            ==> runtime_job_gate_spec(cmd, cmd.work->RuntimeJob_0, Some(current), now) is Some,
{
}

} // verus!
