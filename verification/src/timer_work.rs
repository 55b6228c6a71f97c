//! Timer work the coordinator hands out, the commands that acquire, renew and
//! release it, and the guards that decide whether acquired work may run.
use vstd::prelude::*;
use crate::entities::{opt_view, opt_eq, RuntimeTimerJobState};
use crate::text::{cat, cat3};
use crate::jobs::{async_continuation_spec, async_after_spec, is_async_continuation_job,
    is_async_after_job, is_history_job, state_is};

verus! {

/// A process start timer subscription of a deployed definition.
#[derive(Debug)]
pub struct TimerStartSubscription {
    pub id: String,
    pub process_definition_id: String,
    pub process_definition_key: String,
    pub start_event_id: String,
    pub lock_owner: Option<String>,
    pub lock_time: Option<i64>,
    pub due_time: Option<i64>,
    pub end_date: Option<String>,
    pub time_cycle: Option<String>,
    pub calendar_name: Option<String>,
}

/// A timer subscription that starts an event subprocess of a running instance.
#[derive(Debug)]
pub struct EventSubprocessTimerSubscription {
    pub subscription_id: String,
    pub process_instance_id: String,
    pub start_event_id: String,
    pub interrupting: bool,
    pub lock_owner: Option<String>,
    pub lock_time: Option<i64>,
    pub due_time: Option<i64>,
    pub end_date: Option<String>,
    pub time_cycle: Option<String>,
    pub calendar_name: Option<String>,
}

/// One piece of timer work.
#[derive(Debug)]
pub enum TimerWork {
    RuntimeJob(RuntimeTimerJobState),
    ProcessStart(TimerStartSubscription),
    EventSubprocess(EventSubprocessTimerSubscription),
}

pub open spec fn work_due_time(w: TimerWork) -> Option<i64> {
    match w {
        TimerWork::RuntimeJob(j) => j.due_time,
        TimerWork::ProcessStart(s) => s.due_time,
        TimerWork::EventSubprocess(s) => s.due_time,
    }
}

impl TimerWork {
    /// When the work is due.
    pub fn due_time(&self) -> (r: Option<i64>)
        ensures
            r == work_due_time(*self),
    {
        match self {
            TimerWork::RuntimeJob(j) => j.due_time,
            TimerWork::ProcessStart(s) => s.due_time,
            TimerWork::EventSubprocess(s) => s.due_time,
        }
    }
}

/// Whether runtime work is an async job (continuation, async-after or
/// history) rather than a timer.
pub open spec fn work_is_async_job_spec(w: TimerWork) -> bool {
    match w {
        TimerWork::RuntimeJob(j) => async_continuation_spec(j) || async_after_spec(j) || state_is(
            j,
            "history"@,
        ),
        _ => false,
    }
}

pub fn timer_work_is_async_job(work: &TimerWork) -> (r: bool)
    ensures
        r == work_is_async_job_spec(*work),
{
    match work {
        TimerWork::RuntimeJob(job) => {
            is_async_continuation_job(job) || is_async_after_job(job) || is_history_job(job)
        },
        _ => false,
    }
}

/// The lease that makes one node the timer coordinator.
#[derive(Debug)]
pub struct TimerCoordinatorLease {
    pub owner_node_id: String,
    pub fencing_token: i64,
}

/// Whether `owner` holding `fencing_token` holds the current lease.
pub open spec fn lease_held(lease: Option<TimerCoordinatorLease>, owner: Seq<char>, token: i64) -> bool {
    match lease {
        Some(l) => l.fencing_token == token && l.owner_node_id@ == owner,
        None => false,
    }
}

pub fn lease_admits(lease: &Option<TimerCoordinatorLease>, owner: &String, fencing_token: i64) -> (r: bool)
    ensures
        r == lease_held(*lease, owner@, fencing_token),
{
    match lease {
        Some(l) => l.fencing_token == fencing_token && l.owner_node_id.eq(owner),
        None => false,
    }
}

/// How acquisition writes its locks.
#[derive(Clone, Copy, Debug, PartialEq, Eq, Structural)]
pub enum AcquisitionWritePolicy {
    Optimistic,
    SerializedByGlobalLock,
}

/// The class of jobs whose expired locks a reset batch clears.
#[derive(Clone, Copy, Debug, PartialEq, Eq, Structural)]
pub enum ExpiredJobClass {
    Async,
    Timer,
    History,
}

/// A filter from a configured list: an empty list filters nothing.
pub fn list_filter(list: &Vec<String>) -> (r: Option<&Vec<String>>)
    ensures
        list@.len() == 0 ==> r is None,
        list@.len() > 0 ==> r == Some(list),
{
    if list.len() == 0 {
        None
    } else {
        Some(list)
    }
}

/// Records that a timer worker node is alive.
#[derive(Debug)]
pub struct HeartbeatTimerNodeCmd {
    pub node_id: String,
    pub worker_type: String,
}

impl HeartbeatTimerNodeCmd {
    pub fn new(node_id: String, worker_type: String) -> (r: Self)
        ensures
            r.node_id == node_id,
            r.worker_type == worker_type,
    {
        HeartbeatTimerNodeCmd { node_id, worker_type }
    }
}

/// Asks for the coordinator lease.
#[derive(Debug)]
pub struct AcquireCoordinatorLeaseCmd {
    pub node_id: String,
    pub timeout_ms: i64,
}

impl AcquireCoordinatorLeaseCmd {
    /// The timeout is taken as a signed number of milliseconds (wrapping).
    pub fn new(node_id: String, timeout_ms: u64) -> (r: Self)
        ensures
            r.node_id == node_id,
            r.timeout_ms == timeout_ms as i64,
    {
        AcquireCoordinatorLeaseCmd { node_id, timeout_ms: timeout_ms as i64 }
    }
}

/// Gives the coordinator lease back.
#[derive(Debug)]
pub struct ReleaseCoordinatorLeaseCmd {
    pub node_id: String,
    pub fencing_token: i64,
}

impl ReleaseCoordinatorLeaseCmd {
    pub fn new(node_id: String, fencing_token: i64) -> (r: Self)
        ensures
            r.node_id == node_id,
            r.fencing_token == fencing_token,
    {
        ReleaseCoordinatorLeaseCmd { node_id, fencing_token }
    }
}

/// Takes a named global lock for a lease.
#[derive(Debug)]
pub struct AcquireGlobalLockCmd {
    pub lock_name: String,
    pub owner: String,
    pub lease_ms: i64,
    /// The clock reading to use; `None`: the engine's clock.
    pub now_ms: Option<i64>,
}

impl AcquireGlobalLockCmd {
    pub fn new(lock_name: String, owner: String, lease_ms: i64) -> (r: Self)
        ensures
            r.lock_name == lock_name,
            r.owner == owner,
            r.lease_ms == lease_ms,
            r.now_ms is None,
    {
        AcquireGlobalLockCmd { lock_name, owner, lease_ms, now_ms: None }
    }

    pub fn new_at(lock_name: String, owner: String, lease_ms: i64, now_ms: i64) -> (r: Self)
        ensures
            r.lock_name == lock_name,
            r.owner == owner,
            r.lease_ms == lease_ms,
            r.now_ms == Some(now_ms),
    {
        AcquireGlobalLockCmd { lock_name, owner, lease_ms, now_ms: Some(now_ms) }
    }

    /// The clock reading the lock is taken at.
    pub fn effective_now(&self, clock_now: i64) -> (r: i64)
        ensures
            r == match self.now_ms {
                Some(t) => t,
                None => clock_now,
            },
    {
        match self.now_ms {
            Some(t) => t,
            None => clock_now,
        }
    }
}

/// Releases a named global lock.
#[derive(Debug)]
pub struct ReleaseGlobalLockCmd {
    pub lock_name: String,
    pub owner: String,
}

impl ReleaseGlobalLockCmd {
    pub fn new(lock_name: String, owner: String) -> (r: Self)
        ensures
            r.lock_name == lock_name,
            r.owner == owner,
    {
        ReleaseGlobalLockCmd { lock_name, owner }
    }
}

/// Acquires due timer work for the coordinator holding the lease.
#[derive(Debug)]
pub struct AcquireTimerWorkCmd {
    pub owner_id: String,
    pub fencing_token: i64,
    /// Empty: all tenants.
    pub tenant_ids: Vec<String>,
    /// Empty: every category; otherwise only jobs of a listed category.
    pub enabled_job_categories: Vec<String>,
    pub write_policy: AcquisitionWritePolicy,
    pub scheduled_timers_only: bool,
    pub max_jobs: Option<usize>,
}

impl AcquireTimerWorkCmd {
    pub fn new(owner_id: String, fencing_token: i64) -> (r: Self)
        ensures
            r.owner_id == owner_id,
            r.fencing_token == fencing_token,
            r.tenant_ids@.len() == 0,
            r.enabled_job_categories@.len() == 0,
            r.write_policy == AcquisitionWritePolicy::Optimistic,
            !r.scheduled_timers_only,
            r.max_jobs is None,
    {
        AcquireTimerWorkCmd {
            owner_id,
            fencing_token,
            tenant_ids: Vec::new(),
            enabled_job_categories: Vec::new(),
            write_policy: AcquisitionWritePolicy::Optimistic,
            scheduled_timers_only: false,
            max_jobs: None,
        }
    }

    pub fn with_tenant_ids(self, tenant_ids: Vec<String>) -> (r: Self)
        ensures
            r == (AcquireTimerWorkCmd { tenant_ids, ..self }),
    {
        AcquireTimerWorkCmd { tenant_ids, ..self }
    }

    pub fn with_enabled_job_categories(self, categories: Vec<String>) -> (r: Self)
        ensures
            r == (AcquireTimerWorkCmd { enabled_job_categories: categories, ..self }),
    {
        AcquireTimerWorkCmd { enabled_job_categories: categories, ..self }
    }

    pub fn serialized_by_global_lock(self) -> (r: Self)
        ensures
            r == (AcquireTimerWorkCmd { write_policy: AcquisitionWritePolicy::SerializedByGlobalLock, ..self }),
    {
        AcquireTimerWorkCmd { write_policy: AcquisitionWritePolicy::SerializedByGlobalLock, ..self }
    }

    pub fn scheduled_timers_only(self) -> (r: Self)
        ensures
            r == (AcquireTimerWorkCmd { scheduled_timers_only: true, ..self }),
    {
        AcquireTimerWorkCmd { scheduled_timers_only: true, ..self }
    }

    pub fn with_max_jobs(self, max_jobs: usize) -> (r: Self)
        ensures
            r == (AcquireTimerWorkCmd { max_jobs: Some(max_jobs), ..self }),
    {
        AcquireTimerWorkCmd { max_jobs: Some(max_jobs), ..self }
    }

    /// Whether this round selects a bounded set of scheduled timers first
    /// (scheduled timers only, with a maximum), and that maximum.
    pub fn selection_limit(&self) -> (r: Option<usize>)
        ensures
            r == (if self.scheduled_timers_only { self.max_jobs } else { None }),
    {
        if self.scheduled_timers_only {
            self.max_jobs
        } else {
            None
        }
    }
}

/// Acquires due async jobs for an executor.
#[derive(Debug)]
pub struct AcquireAsyncJobsCmd {
    pub owner_id: String,
    pub lock_duration_ms: i64,
    pub max_jobs: usize,
    pub tenant_ids: Vec<String>,
    pub enabled_job_categories: Vec<String>,
    pub write_policy: AcquisitionWritePolicy,
}

impl AcquireAsyncJobsCmd {
    pub fn new(owner_id: String, lock_duration_ms: i64, max_jobs: usize) -> (r: Self)
        ensures
            r.owner_id == owner_id,
            r.lock_duration_ms == lock_duration_ms,
            r.max_jobs == max_jobs,
            r.tenant_ids@.len() == 0,
            r.enabled_job_categories@.len() == 0,
            r.write_policy == AcquisitionWritePolicy::Optimistic,
    {
        AcquireAsyncJobsCmd {
            owner_id,
            lock_duration_ms,
            max_jobs,
            tenant_ids: Vec::new(),
            enabled_job_categories: Vec::new(),
            write_policy: AcquisitionWritePolicy::Optimistic,
        }
    }

    pub fn with_tenant_ids(self, tenant_ids: Vec<String>) -> (r: Self)
        ensures
            r == (AcquireAsyncJobsCmd { tenant_ids, ..self }),
    {
        AcquireAsyncJobsCmd { tenant_ids, ..self }
    }

    pub fn with_enabled_job_categories(self, categories: Vec<String>) -> (r: Self)
        ensures
            r == (AcquireAsyncJobsCmd { enabled_job_categories: categories, ..self }),
    {
        AcquireAsyncJobsCmd { enabled_job_categories: categories, ..self }
    }

    pub fn serialized_by_global_lock(self) -> (r: Self)
        ensures
            r == (AcquireAsyncJobsCmd { write_policy: AcquisitionWritePolicy::SerializedByGlobalLock, ..self }),
    {
        AcquireAsyncJobsCmd { write_policy: AcquisitionWritePolicy::SerializedByGlobalLock, ..self }
    }
}

/// Acquires due async history jobs.
#[derive(Debug)]
pub struct AcquireHistoryJobsCmd {
    pub owner_id: String,
    pub lock_duration_ms: i64,
    pub max_jobs: usize,
}

impl AcquireHistoryJobsCmd {
    pub fn new(owner_id: String, lock_duration_ms: i64, max_jobs: usize) -> (r: Self)
        ensures
            r.owner_id == owner_id,
            r.lock_duration_ms == lock_duration_ms,
            r.max_jobs == max_jobs,
    {
        AcquireHistoryJobsCmd { owner_id, lock_duration_ms, max_jobs }
    }
}

/// Releases the lock one owner holds on a timer job.
#[derive(Debug)]
pub struct ReleaseTimerJobLockCmd {
    pub timer_job_id: String,
    pub owner_id: String,
}

impl ReleaseTimerJobLockCmd {
    pub fn new(timer_job_id: String, owner_id: String) -> (r: Self)
        ensures
            r.timer_job_id == timer_job_id,
            r.owner_id == owner_id,
    {
        ReleaseTimerJobLockCmd { timer_job_id, owner_id }
    }
}

/// Takes the exclusive process-instance scope lock before an exclusive job runs.
#[derive(Debug)]
pub struct LockExclusiveJobScopeCmd {
    pub job: RuntimeTimerJobState,
    pub fallback_owner: String,
}

/// The lock a scope lock request asks for: the job's own lock owner and
/// expiration when it carries them, else the fallback owner and
/// `now + lock time` (the lock time capped at `i64::MAX`).
pub open spec fn scope_lock_spec(
    job: RuntimeTimerJobState,
    fallback_owner: Seq<char>,
    now: i64,
    lock_time_ms: u64,
) -> (Seq<char>, int) {
    let owner = match job.lock_owner {
        Some(o) => o@,
        None => fallback_owner,
    };
    let expiration = match job.lock_expiration_time {
        Some(e) => e as int,
        None => now + (if lock_time_ms > i64::MAX as u64 { i64::MAX as int } else { lock_time_ms as int }),
    };
    (owner, expiration)
}

impl LockExclusiveJobScopeCmd {
    pub fn new(job: RuntimeTimerJobState, fallback_owner: String) -> (r: Self)
        ensures
            r.job == job,
            r.fallback_owner == fallback_owner,
    {
        LockExclusiveJobScopeCmd { job, fallback_owner }
    }

    /// The owner and expiration of the scope lock this command takes.
    pub fn scope_lock(&self, now: i64, async_job_lock_time_ms: u64) -> (r: (String, i64))
        requires
            self.job.lock_expiration_time is Some || now + (if async_job_lock_time_ms > i64::MAX as u64 {
                i64::MAX as int
            } else {
                async_job_lock_time_ms as int
            }) <= i64::MAX,
        ensures
            (r.0@, r.1 as int) == scope_lock_spec(self.job, self.fallback_owner@, now, async_job_lock_time_ms),
    {
        let owner = match &self.job.lock_owner {
            Some(o) => o.clone(),
            None => self.fallback_owner.clone(),
        };
        let expiration = match self.job.lock_expiration_time {
            Some(e) => e,
            None => {
                let lock: i64 = if async_job_lock_time_ms > 9223372036854775807u64 {
                    9223372036854775807i64
                } else {
                    async_job_lock_time_ms as i64
                };
                now + lock
            },
        };
        (owner, expiration)
    }
}

/// Releases the lock on acquired work that will not run.
#[derive(Debug)]
pub struct ReleaseAcquiredTimerWorkLockCmd {
    pub work: TimerWork,
    pub owner_id: String,
}

impl ReleaseAcquiredTimerWorkLockCmd {
    pub fn new(work: TimerWork, owner_id: String) -> (r: Self)
        ensures
            r.work == work,
            r.owner_id == owner_id,
    {
        ReleaseAcquiredTimerWorkLockCmd { work, owner_id }
    }
}

/// Clears expired locks of one job class, one page at a time.
#[derive(Debug)]
pub struct ResetExpiredJobsBatchCmd {
    pub job_class: ExpiredJobClass,
    pub page_size: usize,
    pub tenant_ids: Vec<String>,
    pub enabled_job_categories: Vec<String>,
}

impl ResetExpiredJobsBatchCmd {
    pub fn new(job_class: ExpiredJobClass, page_size: usize) -> (r: Self)
        ensures
            r.job_class == job_class,
            r.page_size == page_size,
            r.tenant_ids@.len() == 0,
            r.enabled_job_categories@.len() == 0,
    {
        ResetExpiredJobsBatchCmd { job_class, page_size, tenant_ids: Vec::new(), enabled_job_categories: Vec::new() }
    }

    pub fn with_tenant_ids(self, tenant_ids: Vec<String>) -> (r: Self)
        ensures
            r == (ResetExpiredJobsBatchCmd { tenant_ids, ..self }),
    {
        ResetExpiredJobsBatchCmd { tenant_ids, ..self }
    }

    pub fn with_enabled_job_categories(self, enabled_job_categories: Vec<String>) -> (r: Self)
        ensures
            r == (ResetExpiredJobsBatchCmd { enabled_job_categories, ..self }),
    {
        ResetExpiredJobsBatchCmd { enabled_job_categories, ..self }
    }
}

/// Clears expired timer job locks, one page at a time.
#[derive(Debug)]
pub struct ResetExpiredTimerJobLocksCmd {
    pub page_size: usize,
}

impl ResetExpiredTimerJobLocksCmd {
    pub fn new(page_size: usize) -> (r: Self)
        ensures
            r.page_size == page_size,
    {
        ResetExpiredTimerJobLocksCmd { page_size }
    }
}

/// Where a fired timer job is delivered.
#[derive(Debug)]
pub enum FiredTimerTarget {
    /// The boundary timer `activity_id` of process instance `process_instance_id`.
    Boundary { activity_id: String, process_instance_id: String },
    /// The intermediate timer catch event waiting in `execution_id`.
    IntermediateCatch { execution_id: String },
}

/// Manual execution of a timer job: dispatches the timer-fired event, then
/// triggers the boundary or intermediate timer.
#[derive(Debug)]
pub struct ExecuteTimerJobWithFiredEventCmd {
    pub job: RuntimeTimerJobState,
}

impl ExecuteTimerJobWithFiredEventCmd {
    pub fn new(job: RuntimeTimerJobState) -> (r: Self)
        ensures
            r.job == job,
    {
        ExecuteTimerJobWithFiredEventCmd { job }
    }

    /// The event the fired timer is delivered to.
    pub fn target(&self) -> (r: FiredTimerTarget)
        ensures
            self.job.is_boundary ==> r == (FiredTimerTarget::Boundary {
                activity_id: self.job.activity_id,
                process_instance_id: self.job.process_instance_id,
            }),
            !self.job.is_boundary ==> r == (FiredTimerTarget::IntermediateCatch {
                execution_id: self.job.execution_id,
            }),
    {
        if self.job.is_boundary {
            FiredTimerTarget::Boundary {
                activity_id: self.job.activity_id.clone(),
                process_instance_id: self.job.process_instance_id.clone(),
            }
        } else {
            FiredTimerTarget::IntermediateCatch { execution_id: self.job.execution_id.clone() }
        }
    }
}

/// The key acquired work is ordered by: its due time, `0` when it has none.
pub open spec fn due_key(w: TimerWork) -> i64 {
    match work_due_time(w) {
        Some(d) => d,
        None => 0,
    }
}

/// Whether entry `a`, taken from input position `pa`, comes before entry
/// `b` from position `pb`: by due key, then by input position.
pub open spec fn due_before(a: TimerWork, pa: int, b: TimerWork, pb: int) -> bool {
    due_key(a) < due_key(b) || (due_key(a) == due_key(b) && pa < pb)
}

/// Whether `r` is `w` sorted stably by due key: `r[i]` is `w[p[i]]` for a
/// permutation `p` of the positions, ordered by due key and then by position.
pub open spec fn stably_sorted_by_due(r: Seq<TimerWork>, w: Seq<TimerWork>, p: Seq<int>) -> bool {
    &&& r.len() == w.len()
    &&& p.len() == w.len()
    &&& forall|i: int| 0 <= i < p.len() ==> 0 <= #[trigger] p[i] < w.len()
    &&& forall|i: int, j: int| 0 <= i < j < p.len() ==> #[trigger] p[i] != #[trigger] p[j]
    &&& forall|i: int| 0 <= i < r.len() ==> #[trigger] r[i] == w[p[i]]
    &&& forall|i: int, j: int| 0 <= i < j < r.len() ==> due_before(#[trigger] r[i], p[i], #[trigger] r[j], p[j])
}

fn due_key_of(w: &TimerWork) -> (r: i64)
    ensures
        r == due_key(*w),
{
    match w.due_time() {
        Some(d) => d,
        None => 0,
    }
}

/// Sorts work by due time (no due time counting as `0`), keeping the input
/// order among equal due times.
pub fn sort_by_due(works: Vec<TimerWork>) -> (r: Vec<TimerWork>)
    ensures
        exists|p: Seq<int>| #[trigger] stably_sorted_by_due(r@, works@, p),
{
    let ghost w = works@;
    let mut rest = works;
    let n: usize = rest.len();
    let mut out: Vec<TimerWork> = Vec::new();
    let ghost mut p: Seq<int> = Seq::empty();
    let mut k: usize = 0;
    while rest.len() > 0
        invariant
            w.len() == n,
            k + rest@.len() == w.len(),
            rest@ == w.skip(k as int),
            stably_sorted_by_due(out@, w.take(k as int), p),
        decreases rest@.len(),
    {
        let item = rest.remove(0);
        proof {
            assert(item == w[k as int]);
            assert(rest@ =~= w.skip(k + 1));
        }
        let key = due_key_of(&item);
        let mut q: usize = 0;
        while q < out.len()
            invariant
                0 <= q <= out@.len(),
                key == due_key(item),
                forall|i: int| 0 <= i < q ==> due_key(#[trigger] out@[i]) <= key,
            ensures
                0 <= q <= out@.len(),
                forall|i: int| 0 <= i < q ==> due_key(#[trigger] out@[i]) <= key,
                q < out@.len() ==> due_key(out@[q as int]) > key,
            decreases out@.len() - q,
        {
            if due_key_of(&out[q]) > key {
                break;
            }
            q = q + 1;
        }
        let ghost before = out@;
        let ghost pb = p;
        out.insert(q, item);
        proof {
            p = pb.insert(q as int, k as int);
            let wk = w.take(k + 1);
            assert forall|i: int| 0 <= i < out@.len() implies #[trigger] out@[i] == wk[p[i]] by {
                if i < q {
                    assert(out@[i] == before[i]);
                    assert(p[i] == pb[i]);
                    assert(w.take(k as int)[pb[i]] == wk[pb[i]]);
                } else if i == q {
                    assert(wk[k as int] == w[k as int]);
                } else {
                    assert(out@[i] == before[i - 1]);
                    assert(p[i] == pb[i - 1]);
                    assert(w.take(k as int)[pb[i - 1]] == wk[pb[i - 1]]);
                }
            }
            assert forall|i: int| 0 <= i < p.len() implies 0 <= #[trigger] p[i] < wk.len() by {
                if i < q {
                    assert(p[i] == pb[i]);
                } else if i > q {
                    assert(p[i] == pb[i - 1]);
                }
            }
            assert forall|i: int, j: int| 0 <= i < j < p.len() implies #[trigger] p[i] != #[trigger] p[j] by {
                if i < q && j < q {
                    assert(p[i] == pb[i] && p[j] == pb[j]);
                } else if i < q && j == q {
                    assert(p[i] == pb[i]);
                } else if i < q {
                    assert(p[i] == pb[i] && p[j] == pb[j - 1]);
                } else if i == q {
                    assert(p[j] == pb[j - 1]);
                } else {
                    assert(p[i] == pb[i - 1] && p[j] == pb[j - 1]);
                }
            }
            assert forall|i: int, j: int| 0 <= i < j < out@.len() implies due_before(#[trigger] out@[i], p[i],
                #[trigger] out@[j], p[j]) by {
                if i < q && j < q {
                    assert(out@[i] == before[i] && out@[j] == before[j]);
                    assert(p[i] == pb[i] && p[j] == pb[j]);
                } else if i < q && j == q {
                    assert(out@[i] == before[i]);
                    assert(p[i] == pb[i]);
                    assert(due_key(before[i]) <= key);
                } else if i < q {
                    assert(out@[i] == before[i] && out@[j] == before[j - 1]);
                    assert(p[i] == pb[i] && p[j] == pb[j - 1]);
                } else if i == q {
                    assert(out@[j] == before[j - 1]);
                    assert(p[j] == pb[j - 1]);
                    assert(due_key(before[q as int]) > key);
                    if j - 1 > q {
                        assert(due_before(before[q as int], pb[q as int], before[j - 1], pb[j - 1]));
                    }
                } else {
                    assert(out@[i] == before[i - 1] && out@[j] == before[j - 1]);
                    assert(p[i] == pb[i - 1] && p[j] == pb[j - 1]);
                }
            }
        }
        k = k + 1;
    }
    proof {
        assert(w.take(k as int) =~= w);
    }
    out
}

pub open spec fn acquired_views(jobs: Seq<RuntimeTimerJobState>, starts: Seq<TimerStartSubscription>,
    subs: Seq<EventSubprocessTimerSubscription>) -> Seq<TimerWork> {
    jobs.map_values(|j: RuntimeTimerJobState| TimerWork::RuntimeJob(j))
        + starts.map_values(|s: TimerStartSubscription| TimerWork::ProcessStart(s))
        + subs.map_values(|s: EventSubprocessTimerSubscription| TimerWork::EventSubprocess(s))
}

/// The work handed out after an acquisition round: the acquired runtime
/// jobs, then the process start subscriptions, then the event subprocess
/// subscriptions, sorted stably by due time.
pub fn assemble_acquired_timer_work(
    jobs: Vec<RuntimeTimerJobState>,
    starts: Vec<TimerStartSubscription>,
    subs: Vec<EventSubprocessTimerSubscription>,
) -> (r: Vec<TimerWork>)
    ensures
        exists|p: Seq<int>| #[trigger] stably_sorted_by_due(r@, acquired_views(jobs@, starts@, subs@), p),
{
    let ghost target = acquired_views(jobs@, starts@, subs@);
    let mut works: Vec<TimerWork> = Vec::new();
    let ghost a = jobs@.map_values(|j: RuntimeTimerJobState| TimerWork::RuntimeJob(j));
    let ghost b = starts@.map_values(|s: TimerStartSubscription| TimerWork::ProcessStart(s));
    let ghost c = subs@.map_values(|s: EventSubprocessTimerSubscription| TimerWork::EventSubprocess(s));
    let mut rest = jobs;
    let ghost all = rest@;
    while rest.len() > 0
        invariant
            works@ + rest@.map_values(|j: RuntimeTimerJobState| TimerWork::RuntimeJob(j)) == a,
        decreases rest@.len(),
    {
        let ghost before = rest@;
        let j = rest.remove(0);
        works.push(TimerWork::RuntimeJob(j));
        proof {
            assert(before.map_values(|j: RuntimeTimerJobState| TimerWork::RuntimeJob(j)) =~= seq![TimerWork::RuntimeJob(j)]
                + rest@.map_values(|j: RuntimeTimerJobState| TimerWork::RuntimeJob(j)));
        }
    }
    proof {
        assert(works@ =~= a);
    }
    let mut rest = starts;
    while rest.len() > 0
        invariant
            works@ + rest@.map_values(|s: TimerStartSubscription| TimerWork::ProcessStart(s)) == a + b,
        decreases rest@.len(),
    {
        let ghost before = rest@;
        let x = rest.remove(0);
        let ghost prev = works@;
        works.push(TimerWork::ProcessStart(x));
        proof {
            assert(before.map_values(|s: TimerStartSubscription| TimerWork::ProcessStart(s)) =~= seq![TimerWork::ProcessStart(x)]
                + rest@.map_values(|s: TimerStartSubscription| TimerWork::ProcessStart(s)));
            assert(works@ + rest@.map_values(|s: TimerStartSubscription| TimerWork::ProcessStart(s)) =~= prev
                + before.map_values(|s: TimerStartSubscription| TimerWork::ProcessStart(s)));
        }
    }
    proof {
        assert(works@ =~= a + b);
    }
    let mut rest = subs;
    while rest.len() > 0
        invariant
            works@ + rest@.map_values(|s: EventSubprocessTimerSubscription| TimerWork::EventSubprocess(s)) == a + b + c,
        decreases rest@.len(),
    {
        let ghost before = rest@;
        let x = rest.remove(0);
        let ghost prev = works@;
        works.push(TimerWork::EventSubprocess(x));
        proof {
            assert(before.map_values(|s: EventSubprocessTimerSubscription| TimerWork::EventSubprocess(s)) =~= seq![
                TimerWork::EventSubprocess(x)] + rest@.map_values(|s: EventSubprocessTimerSubscription| TimerWork::EventSubprocess(s)));
            assert(works@ + rest@.map_values(|s: EventSubprocessTimerSubscription| TimerWork::EventSubprocess(s)) =~= prev
                + before.map_values(|s: EventSubprocessTimerSubscription| TimerWork::EventSubprocess(s)));
        }
    }
    proof {
        assert(works@ =~= a + b + c);
        assert(works@ == target);
    }
    sort_by_due(works)
}

} // verus!
