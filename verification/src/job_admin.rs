//! Management of single jobs: renewing an acquired lease, rescheduling a
//! timer, persisting extra fields, releasing an owner's locks, and the
//! coordinator control commands.
use vstd::prelude::*;
use crate::command::{CommandContext, EngineEvent, JobEventType};
use crate::entities::{opt_view, Duplicate, RuntimeTimerJobState};
use crate::error::FlowableError;
use crate::jobs::sat_add;
use crate::timer_util::ResolvedTimerSchedule;
use crate::timer_work::{lease_admits, lease_held, TimerCoordinatorLease, TimerWork};

verus! {

/// Extends the lock on acquired work while it runs.
#[derive(Debug)]
pub struct RenewTimerLeaseCmd {
    pub work: TimerWork,
    pub owner_id: String,
    pub fencing_token: i64,
}

/// The row a renewal writes: the work's copy with a fresh lock time and an
/// expiration `now + lock_duration` (saturating).
pub open spec fn renewed_row(job: RuntimeTimerJobState, now: i64, lock_duration: i64) -> RuntimeTimerJobState {
    RuntimeTimerJobState {
        lock_time: Some(now),
        lock_expiration_time: Some(sat_add(now as int, lock_duration as int) as i64),
        ..job
    }
}

impl RenewTimerLeaseCmd {
    pub fn new(work: TimerWork, owner_id: String, fencing_token: i64) -> (r: Self)
        ensures
            r.work == work,
            r.owner_id == owner_id,
            r.fencing_token == fencing_token,
    {
        RenewTimerLeaseCmd { work, owner_id, fencing_token }
    }

    /// Renews a runtime job's lock when `lease` is held by this owner and
    /// the stored row is still locked by it; returns whether it was renewed.
    /// Start and event-subprocess subscriptions are renewed by their own
    /// stores and report `false` here.
    pub fn renew(&self, ctx: &mut CommandContext, lease: &Option<TimerCoordinatorLease>) -> (r: bool)
        requires
            old(ctx).session.wf(),
        ensures
            final(ctx).session.wf(),
            final(ctx).config == old(ctx).config,
            final(ctx).now_ms == old(ctx).now_ms,
            final(ctx).events == old(ctx).events,
            r == (lease_held(*lease, self.owner_id@, self.fencing_token) && match self.work {
                TimerWork::RuntimeJob(job) => old(ctx).session.timer_jobs@.contains_key(job.timer_job_id@)
                    && opt_view(old(ctx).session.timer_jobs@[job.timer_job_id@].lock_owner) == Some(self.owner_id@),
                _ => false,
            }),
            r ==> (self.work matches TimerWork::RuntimeJob(job) && final(ctx).session.timer_jobs@
                == old(ctx).session.timer_jobs@.insert(
                job.timer_job_id@,
                renewed_row(job, old(ctx).now_ms, old(ctx).config.timer_lock_time_ms as i64),
            )),
            !r ==> final(ctx).session == old(ctx).session,
            crate::store::frame(old(ctx).session, final(ctx).session, set![crate::store::StoreTable::TimerJobs]),
    {
        if !lease_admits(lease, &self.owner_id, self.fencing_token) {
            return false;
        }
        let job = match &self.work {
            TimerWork::RuntimeJob(job) => job,
            _ => return false,
        };
        let current = ctx.session.find_timer_job_state(&job.timer_job_id);
        let owned = match &current {
            Some(c) => match &c.lock_owner {
                Some(o) => o.eq(&self.owner_id),
                None => false,
            },
            None => false,
        };
        if !owned {
            return false;
        }
        let lock_duration = ctx.config.timer_lock_time_ms as i64;
        let mut updated = job.duplicate();
        updated.lock_time = Some(ctx.now_ms);
        updated.lock_expiration_time = Some(crate::jobs::saturating_add_i64(ctx.now_ms, lock_duration));
        ctx.session.insert_timer_job_state(updated);
        true
    }
}

/// How many of the three timer values are given.
pub open spec fn given_count(a: Option<String>, b: Option<String>, c: Option<String>) -> int {
    (if a is Some { 1int } else { 0int }) + (if b is Some { 1int } else { 0int }) + (if c is Some {
        1int
    } else {
        0int
    })
}

/// Management reschedule of a timer job.
#[derive(Debug)]
pub struct RescheduleTimerJobCmd {
    pub job_id: String,
    pub time_date: Option<String>,
    pub time_duration: Option<String>,
    pub time_cycle: Option<String>,
    pub end_date: Option<String>,
    pub calendar_name: Option<String>,
}

/// Why a reschedule request is refused, before any lookup.
#[derive(Debug)]
pub enum RescheduleRefusal {
    NoTimerValue,
    SeveralTimerValues,
    EndDateWithoutCycle,
}

pub open spec fn reschedule_refusal(cmd: RescheduleTimerJobCmd) -> Option<RescheduleRefusal> {
    let n = given_count(cmd.time_date, cmd.time_duration, cmd.time_cycle);
    if n == 0 {
        Some(RescheduleRefusal::NoTimerValue)
    } else if n > 1 {
        Some(RescheduleRefusal::SeveralTimerValues)
    } else if cmd.end_date is Some && cmd.time_cycle is None {
        Some(RescheduleRefusal::EndDateWithoutCycle)
    } else {
        None
    }
}

/// The job after a reschedule to `schedule`: the new timer values (the
/// command's end date and calendar where the schedule has none), the new due
/// time, no lock and no error.
pub open spec fn rescheduled_spec(
    job: RuntimeTimerJobState,
    cmd: RescheduleTimerJobCmd,
    schedule: ResolvedTimerSchedule,
) -> RuntimeTimerJobState {
    RuntimeTimerJobState {
        time_date: schedule.time_date,
        time_duration: schedule.time_duration,
        time_cycle: schedule.time_cycle,
        end_date: if schedule.end_date is Some { schedule.end_date } else { cmd.end_date },
        calendar_name: if schedule.calendar_name is Some { schedule.calendar_name } else { cmd.calendar_name },
        due_time: schedule.due_time,
        lock_owner: None,
        lock_time: None,
        lock_expiration_time: None,
        error_message: None,
        error_details: None,
        ..job
    }
}

impl RescheduleTimerJobCmd {
    pub fn new(
        job_id: String,
        time_date: Option<String>,
        time_duration: Option<String>,
        time_cycle: Option<String>,
        end_date: Option<String>,
        calendar_name: Option<String>,
    ) -> (r: Self)
        ensures
            r == (RescheduleTimerJobCmd { job_id, time_date, time_duration, time_cycle, end_date, calendar_name }),
    {
        RescheduleTimerJobCmd { job_id, time_date, time_duration, time_cycle, end_date, calendar_name }
    }

    /// Exactly one of the timer values is required, and an end date only
    /// goes with a cycle.
    pub fn validate(&self) -> (r: Result<(), FlowableError>)
        ensures
            r is Ok <==> reschedule_refusal(*self) is None,
            r matches Err(e) ==> e is ExecutionError,
    {
        let mut n: u8 = 0;
        if self.time_date.is_some() {
            n = n + 1;
        }
        if self.time_duration.is_some() {
            n = n + 1;
        }
        if self.time_cycle.is_some() {
            n = n + 1;
        }
        if n == 0 {
            return Err(FlowableError::ExecutionError(String::from_str(
                "A non-null value is required for one of timeDate, timeDuration, or timeCycle",
            )));
        }
        if n > 1 {
            return Err(FlowableError::ExecutionError(String::from_str(
                "At most one non-null value can be provided for timeDate, timeDuration, or timeCycle",
            )));
        }
        if self.end_date.is_some() && self.time_cycle.is_none() {
            return Err(FlowableError::ExecutionError(String::from_str(
                "An end date can only be provided when rescheduling a timer using timeDuration.",
            )));
        }
        Ok(())
    }

    /// Reschedules the job to the schedule resolved for it (an error from
    /// resolving it fails the command).
    pub fn execute_with_schedule(
        &self,
        ctx: &mut CommandContext,
        schedule: Result<ResolvedTimerSchedule, FlowableError>,
    ) -> (r: Result<RuntimeTimerJobState, FlowableError>)
        requires
            old(ctx).session.wf(),
        ensures
            final(ctx).session.wf(),
            reschedule_refusal(*self) is Some ==> (r matches Err(e) && e is ExecutionError),
            reschedule_refusal(*self) is None && !old(ctx).session.timer_jobs@.contains_key(self.job_id@)
                ==> (r matches Err(e) && e is NotFound),
            r is Ok <==> (reschedule_refusal(*self) is None && old(ctx).session.timer_jobs@.contains_key(
                self.job_id@) && schedule is Ok),
            r matches Ok(job) ==> schedule matches Ok(s) && job == rescheduled_spec(
                old(ctx).session.timer_jobs@[self.job_id@], *self, s)
                && final(ctx).session.timer_jobs@ == old(ctx).session.timer_jobs@.insert(job.timer_job_id@, job),
            r is Err ==> final(ctx).session == old(ctx).session,
    {
        self.validate()?;
        let mut job = match ctx.session.find_timer_job_state(&self.job_id) {
            Some(j) => j,
            None => {
                let m = crate::text::cat3("Timer job '", self.job_id.as_str(), "' not found");
                return Err(FlowableError::NotFound(m));
            },
        };
        let schedule = match schedule {
            Ok(s) => s,
            Err(e) => return Err(e),
        };
        job.time_date = schedule.time_date;
        job.time_duration = schedule.time_duration;
        job.time_cycle = schedule.time_cycle;
        job.end_date = match schedule.end_date {
            Some(e) => Some(e),
            None => crate::entities::clone_opt(&self.end_date),
        };
        job.calendar_name = match schedule.calendar_name {
            Some(c) => Some(c),
            None => crate::entities::clone_opt(&self.calendar_name),
        };
        job.due_time = schedule.due_time;
        job.lock_owner = None;
        job.lock_time = None;
        job.lock_expiration_time = None;
        job.error_message = None;
        job.error_details = None;
        ctx.session.insert_timer_job_state(job.duplicate());
        ctx.add_post_agenda_event(EngineEvent::Job { event_type: JobEventType::Rescheduled, job: job.duplicate() });
        ctx.add_post_agenda_event(EngineEvent::Job { event_type: JobEventType::TimerScheduled, job: job.duplicate() });
        Ok(job)
    }
}

/// Writes extra named fields onto a stored job row.
#[derive(Debug)]
pub struct PersistJobExtraFieldsCmd {
    pub job: RuntimeTimerJobState,
    pub fields: Vec<(String, Option<String>)>,
}

/// Whether any field carries a value.
pub open spec fn any_field_value(fields: Seq<(String, Option<String>)>) -> bool {
    exists|i: int| 0 <= i < fields.len() && (#[trigger] fields[i]).1 is Some
}

impl PersistJobExtraFieldsCmd {
    pub fn new(job: RuntimeTimerJobState, fields: Vec<(String, Option<String>)>) -> (r: Self)
        ensures
            r.job == job,
            r.fields@ == fields@,
    {
        PersistJobExtraFieldsCmd { job, fields }
    }

    /// Whether there is anything to write: a command whose fields are all
    /// empty leaves the row untouched.
    pub fn has_values(&self) -> (r: bool)
        ensures
            r == any_field_value(self.fields@),
    {
        let mut i: usize = 0;
        while i < self.fields.len()
            invariant
                0 <= i <= self.fields.len(),
                forall|j: int| 0 <= j < i ==> (#[trigger] self.fields@[j]).1 is None,
            decreases self.fields.len() - i,
        {
            if self.fields[i].1.is_some() {
                return true;
            }
            i = i + 1;
        }
        false
    }

    /// The fields written, in order: those that carry a value.
    pub fn written_fields(&self) -> (r: Vec<(String, String)>)
        ensures
            pair_views(r@) == written_spec(self.fields@),
    {
        let mut out: Vec<(String, String)> = Vec::new();
        let mut i: usize = 0;
        while i < self.fields.len()
            invariant
                0 <= i <= self.fields.len(),
                pair_views(out@) == written_spec(self.fields@.take(i as int)),
            decreases self.fields.len() - i,
        {
            assert(self.fields@.take(i + 1).drop_last() =~= self.fields@.take(i as int));
            assert(self.fields@.take(i + 1).last() == self.fields@[i as int]);
            match &self.fields[i].1 {
                Some(v) => {
                    out.push((self.fields[i].0.clone(), v.clone()));
                },
                None => {},
            }
            assert(pair_views(out@) =~= written_spec(self.fields@.take(i + 1)));
            i = i + 1;
        }
        assert(self.fields@.take(self.fields.len() as int) =~= self.fields@);
        out
    }
}

/// The (name, value) pairs of the fields that carry a value, in order.
pub open spec fn written_spec(fields: Seq<(String, Option<String>)>) -> Seq<(Seq<char>, Seq<char>)>
    decreases fields.len(),
{
    if fields.len() == 0 {
        Seq::empty()
    } else {
        let rest = written_spec(fields.drop_last());
        match fields.last().1 {
            Some(v) => rest.push((fields.last().0@, v@)),
            None => rest,
        }
    }
}

pub open spec fn pair_views(v: Seq<(String, String)>) -> Seq<(Seq<char>, Seq<char>)> {
    v.map_values(|p: (String, String)| (p.0@, p.1@))
}

/// Which tenants' jobs an unlock touches.
#[derive(Debug)]
pub enum OwnedJobsTenantScope {
    All,
    Included(Vec<String>),
}

/// Releases every executable job lock one owner holds.
#[derive(Debug)]
pub struct UnlockOwnedJobsCmd {
    pub owner_id: String,
    pub tenant_scope: OwnedJobsTenantScope,
}

impl UnlockOwnedJobsCmd {
    pub fn new(owner_id: String) -> (r: Self)
        ensures
            r.owner_id == owner_id,
            r.tenant_scope is All,
    {
        UnlockOwnedJobsCmd { owner_id, tenant_scope: OwnedJobsTenantScope::All }
    }

    /// Restricts the unlock to the given tenants; an empty list means all.
    pub fn with_tenant_ids(self, tenant_ids: Vec<String>) -> (r: Self)
        ensures
            r.owner_id == self.owner_id,
            tenant_ids@.len() == 0 ==> r.tenant_scope is All,
            tenant_ids@.len() > 0 ==> r.tenant_scope == OwnedJobsTenantScope::Included(tenant_ids),
    {
        let scope = if tenant_ids.len() == 0 {
            OwnedJobsTenantScope::All
        } else {
            OwnedJobsTenantScope::Included(tenant_ids)
        };
        UnlockOwnedJobsCmd { owner_id: self.owner_id, tenant_scope: scope }
    }

    /// The tenant filter of the unlock: `None` for all tenants.
    pub fn tenant_filter(&self) -> (r: Option<&Vec<String>>)
        ensures
            self.tenant_scope is All ==> r is None,
            self.tenant_scope matches OwnedJobsTenantScope::Included(t) ==> r == Some(&t),
    {
        match &self.tenant_scope {
            OwnedJobsTenantScope::All => None,
            OwnedJobsTenantScope::Included(t) => Some(t),
        }
    }
}

/// The input of an audited administrative timer action.
#[derive(Debug)]
pub struct TimerAdminAuditInput {
    pub request_id: String,
    pub tenant_id: Option<String>,
    pub issuer: String,
    pub subject: String,
    pub actor: String,
    pub action: String,
    pub target: String,
    pub outcome: String,
    pub profile_id: Option<String>,
}

/// A stored audit record of an administrative timer action.
#[derive(Debug)]
pub struct TimerAdminAuditRecord {
    pub id: String,
    pub request_id: String,
    pub timestamp: i64,
    pub tenant_id: Option<String>,
    pub issuer: String,
    pub subject: String,
    pub actor: String,
    pub action: String,
    pub target: String,
    pub outcome: String,
    pub profile_id: Option<String>,
}

/// The coordinator's state as reported to administrators.
#[derive(Debug)]
pub struct TimerCoordinatorStatus {
    pub owner_node_id: Option<String>,
    pub fencing_token: i64,
    pub lease_expires_at: Option<i64>,
}

/// A registered timer worker node.
#[derive(Debug)]
pub struct TimerNodeStatus {
    pub node_id: String,
    pub last_heartbeat: i64,
    pub worker_type: String,
}

/// The administrative commands of timer coordination.
#[derive(Debug)]
pub enum TimerCoordinationControlCmd {
    Status,
    Nodes,
    Release { node_id: String, fencing_token: i64 },
    StepDown,
    Deregister { node_id: String },
    Cleanup,
    Audit(TimerAdminAuditInput),
}

#[derive(Debug)]
pub struct CoordinatorStatusResult {
    pub status: TimerCoordinatorStatus,
}

#[derive(Debug)]
pub struct NodesListResult {
    pub nodes: Vec<TimerNodeStatus>,
}

#[derive(Debug)]
pub struct ReleaseResult {
    pub success: bool,
}

#[derive(Debug)]
pub struct StepDownResult {
    pub success: bool,
    pub new_fencing_token: i64,
}

#[derive(Debug)]
pub struct DeregisterResult {
    pub success: bool,
}

#[derive(Debug)]
pub struct CleanupResult {
    pub cleaned_count: usize,
}

#[derive(Debug)]
pub struct AuditAdminActionResult {}

/// The result a control command is asked for.
#[derive(Clone, Copy, Debug, PartialEq, Eq, Structural)]
pub enum ControlResultKind {
    CoordinatorStatus,
    NodesList,
    Release,
    StepDown,
    Deregister,
    Cleanup,
    AuditAdminAction,
}

pub open spec fn result_kind_name(k: ControlResultKind) -> Seq<char> {
    match k {
        ControlResultKind::CoordinatorStatus => "CoordinatorStatusResult"@,
        ControlResultKind::NodesList => "NodesListResult"@,
        ControlResultKind::Release => "ReleaseResult"@,
        ControlResultKind::StepDown => "StepDownResult"@,
        ControlResultKind::Deregister => "DeregisterResult"@,
        ControlResultKind::Cleanup => "CleanupResult"@,
        ControlResultKind::AuditAdminAction => "AuditAdminActionResult"@,
    }
}

/// The error of a control command asked for another variant's result.
pub fn wrong_command_variant(result_type: &str) -> (r: FlowableError)
    ensures
        r == FlowableError::Internal(r->Internal_0),
        r->Internal_0@ == "Wrong timer coordination command variant for "@ + result_type@,
{
    FlowableError::Internal(crate::text::cat("Wrong timer coordination command variant for ", result_type))
}

pub open spec fn answers(cmd: TimerCoordinationControlCmd, k: ControlResultKind) -> bool {
    match cmd {
        TimerCoordinationControlCmd::Status => k == ControlResultKind::CoordinatorStatus,
        TimerCoordinationControlCmd::Nodes => k == ControlResultKind::NodesList,
        TimerCoordinationControlCmd::Release { .. } => k == ControlResultKind::Release,
        TimerCoordinationControlCmd::StepDown => k == ControlResultKind::StepDown,
        TimerCoordinationControlCmd::Deregister { .. } => k == ControlResultKind::Deregister,
        TimerCoordinationControlCmd::Cleanup => k == ControlResultKind::Cleanup,
        TimerCoordinationControlCmd::Audit(_) => k == ControlResultKind::AuditAdminAction,
    }
}

impl TimerCoordinationControlCmd {
    pub fn status() -> (r: Self)
        ensures
            r is Status,
    {
        TimerCoordinationControlCmd::Status
    }

    pub fn nodes() -> (r: Self)
        ensures
            r is Nodes,
    {
        TimerCoordinationControlCmd::Nodes
    }

    pub fn release(node_id: String, fencing_token: i64) -> (r: Self)
        ensures
            r == (TimerCoordinationControlCmd::Release { node_id, fencing_token }),
    {
        TimerCoordinationControlCmd::Release { node_id, fencing_token }
    }

    pub fn step_down() -> (r: Self)
        ensures
            r is StepDown,
    {
        TimerCoordinationControlCmd::StepDown
    }

    pub fn deregister(node_id: String) -> (r: Self)
        ensures
            r == (TimerCoordinationControlCmd::Deregister { node_id }),
    {
        TimerCoordinationControlCmd::Deregister { node_id }
    }

    pub fn cleanup() -> (r: Self)
        ensures
            r is Cleanup,
    {
        TimerCoordinationControlCmd::Cleanup
    }

    pub fn audit(input: TimerAdminAuditInput) -> (r: Self)
        ensures
            r == TimerCoordinationControlCmd::Audit(input),
    {
        TimerCoordinationControlCmd::Audit(input)
    }

    /// Checks that this variant answers the requested result; any other is
    /// an internal error naming the result.
    pub fn expect_result(&self, kind: ControlResultKind) -> (r: Result<(), FlowableError>)
        ensures
            r is Ok <==> answers(*self, kind),
            r matches Err(e) ==> e is Internal && e->Internal_0@
                == "Wrong timer coordination command variant for "@ + result_kind_name(kind),
    {
        let ok = match self {
            TimerCoordinationControlCmd::Status => kind == ControlResultKind::CoordinatorStatus,
            TimerCoordinationControlCmd::Nodes => kind == ControlResultKind::NodesList,
            TimerCoordinationControlCmd::Release { .. } => kind == ControlResultKind::Release,
            TimerCoordinationControlCmd::StepDown => kind == ControlResultKind::StepDown,
            TimerCoordinationControlCmd::Deregister { .. } => kind == ControlResultKind::Deregister,
            TimerCoordinationControlCmd::Cleanup => kind == ControlResultKind::Cleanup,
            TimerCoordinationControlCmd::Audit(_) => kind == ControlResultKind::AuditAdminAction,
        };
        if ok {
            return Ok(());
        }
        proof {
            reveal_strlit("CoordinatorStatusResult");
            reveal_strlit("NodesListResult");
        }
        let name = match kind {
            ControlResultKind::CoordinatorStatus => "CoordinatorStatusResult",
            ControlResultKind::NodesList => "NodesListResult",
            ControlResultKind::Release => "ReleaseResult",
            ControlResultKind::StepDown => "StepDownResult",
            ControlResultKind::Deregister => "DeregisterResult",
            ControlResultKind::Cleanup => "CleanupResult",
            ControlResultKind::AuditAdminAction => "AuditAdminActionResult",
        };
        Err(wrong_command_variant(name))
    }

    /// The record an audit command stores: a fresh random id, the time of
    /// the action and the input's fields.
    pub fn audit_record(input: &TimerAdminAuditInput, now: i64) -> (r: TimerAdminAuditRecord)
        ensures
            r.request_id == input.request_id,
            r.timestamp == now,
            r.tenant_id == input.tenant_id,
            r.issuer == input.issuer,
            r.subject == input.subject,
            r.actor == input.actor,
            r.action == input.action,
            r.target == input.target,
            r.outcome == input.outcome,
            r.profile_id == input.profile_id,
    {
        TimerAdminAuditRecord {
            id: crate::outside::new_uuid(),
            request_id: input.request_id.clone(),
            timestamp: now,
            tenant_id: crate::entities::clone_opt(&input.tenant_id),
            issuer: input.issuer.clone(),
            subject: input.subject.clone(),
            actor: input.actor.clone(),
            action: input.action.clone(),
            target: input.target.clone(),
            outcome: input.outcome.clone(),
            profile_id: crate::entities::clone_opt(&input.profile_id),
        }
    }
}

} // verus!
