//! Job rows: their classification by state, type and handler, and how they
//! are suspended and re-activated.
use vstd::prelude::*;
use crate::command::{category_enabled_spec, ActivationCoordinator, CommandContext};
use crate::entities::{
    clone_opt, opt_view, Duplicate, JobTypeEntry, Keyed, RuntimeJobType, RuntimeTimerJobState,
};
use crate::store::{frame, has_key, index_of, lemma_index_of, RuntimeStore, StoreTable};

verus! {

/// Whether an optional string holds exactly `lit`.
pub fn opt_is(o: &Option<String>, lit: &str) -> (r: bool)
    ensures
        r == (opt_view(*o) == Some(lit@)),
{
    match o {
        Some(s) => s.eq(&String::from_str(lit)),
        None => false,
    }
}

/// `a + b`, clamped to the range of `i64`.
pub open spec fn sat_add(a: int, b: int) -> int {
    if a + b > i64::MAX {
        i64::MAX as int
    } else if a + b < i64::MIN {
        i64::MIN as int
    } else {
        a + b
    }
}

/// `i64::saturating_add`.
pub fn saturating_add_i64(a: i64, b: i64) -> (r: i64)
    ensures
        r == sat_add(a as int, b as int),
{
    if b > 0 && a > i64::MAX - b {
        i64::MAX
    } else if b < 0 && a < i64::MIN - b {
        i64::MIN
    } else {
        a + b
    }
}

/// The `time_duration` marker of an async-continuation job.
pub open spec fn async_continuation_marker() -> Seq<char> {
    "async-continuation"@
}

/// The `time_duration` marker of an async-after job.
pub open spec fn async_after_marker() -> Seq<char> {
    "async-after-continuation"@
}

pub fn async_continuation_job_type_marker() -> (r: &'static str)
    ensures
        r@ == async_continuation_marker(),
{
    "async-continuation"
}

pub fn async_after_job_type_marker() -> (r: &'static str)
    ensures
        r@ == async_after_marker(),
{
    "async-after-continuation"
}

/// The job is in state `s`.
pub open spec fn state_is(job: RuntimeTimerJobState, s: Seq<char>) -> bool {
    opt_view(job.job_state) == Some(s)
}

/// The persisted type of a job, as a value.
pub enum JobTypeSpec {
    Timer,
    ExternalWorker,
    Other(Seq<char>),
}

pub open spec fn type_view(t: RuntimeJobType) -> JobTypeSpec {
    match t {
        RuntimeJobType::Timer => JobTypeSpec::Timer,
        RuntimeJobType::ExternalWorker => JobTypeSpec::ExternalWorker,
        RuntimeJobType::Other(s) => JobTypeSpec::Other(s@),
    }
}

pub open spec fn opt_type_view(t: Option<RuntimeJobType>) -> Option<JobTypeSpec> {
    match t {
        Some(x) => Some(type_view(x)),
        None => None,
    }
}

/// A job that can be suspended: untyped state, timer, executable or async.
pub open spec fn suspendable_spec(job: RuntimeTimerJobState) -> bool {
    ||| job.job_state is None
    ||| state_is(job, "timer"@)
    ||| state_is(job, "executable"@)
    ||| state_is(job, "async"@)
    ||| state_is(job, "async-after"@)
}

pub fn is_suspendable_job(job: &RuntimeTimerJobState) -> (r: bool)
    ensures
        r == suspendable_spec(*job),
{
    job.job_state.is_none() || opt_is(&job.job_state, "timer") || opt_is(&job.job_state, "executable")
        || opt_is(&job.job_state, "async") || opt_is(&job.job_state, "async-after")
}

pub fn is_suspended_job(job: &RuntimeTimerJobState) -> (r: bool)
    ensures
        r == state_is(*job, "suspended"@),
{
    opt_is(&job.job_state, "suspended")
}

pub fn is_history_job(job: &RuntimeTimerJobState) -> (r: bool)
    ensures
        r == state_is(*job, "history"@),
{
    opt_is(&job.job_state, "history")
}

pub open spec fn async_continuation_spec(job: RuntimeTimerJobState) -> bool {
    state_is(job, "async"@) || opt_view(job.time_duration) == Some(async_continuation_marker())
}

pub open spec fn async_after_spec(job: RuntimeTimerJobState) -> bool {
    state_is(job, "async-after"@) || opt_view(job.time_duration) == Some(async_after_marker())
}

/// An async-continuation job: in state `async`, or carrying its marker.
pub fn is_async_continuation_job(job: &RuntimeTimerJobState) -> (r: bool)
    ensures
        r == async_continuation_spec(*job),
{
    opt_is(&job.job_state, "async") || opt_is(&job.time_duration, async_continuation_job_type_marker())
}

/// An async-after job: in state `async-after`, or carrying its marker.
pub fn is_async_after_job(job: &RuntimeTimerJobState) -> (r: bool)
    ensures
        r == async_after_spec(*job),
{
    opt_is(&job.job_state, "async-after") || opt_is(&job.time_duration, async_after_job_type_marker())
}

/// A job whose handler sets variables asynchronously.
pub fn is_set_async_variables_job(job: &RuntimeTimerJobState) -> (r: bool)
    ensures
        r == (opt_view(job.handler_type) == Some("set-async-variables"@)),
{
    opt_is(&job.handler_type, "set-async-variables")
}

/// A job whose handler completes a call activity asynchronously (the
/// handler name keeps its historical spelling).
pub fn is_async_complete_call_activity_job(job: &RuntimeTimerJobState) -> (r: bool)
    ensures
        r == (opt_view(job.handler_type) == Some("async-complete-call-actiivty"@)),
{
    opt_is(&job.handler_type, "async-complete-call-actiivty")
}

/// The job with its lock fields emptied.
pub open spec fn unlocked(job: RuntimeTimerJobState) -> RuntimeTimerJobState {
    RuntimeTimerJobState { lock_owner: None, lock_time: None, lock_expiration_time: None, ..job }
}

/// Empties the job's lock owner, lock time and lock expiration.
pub fn clear_job_lock(job: &mut RuntimeTimerJobState)
    ensures
        *final(job) == unlocked(*old(job)),
{
    job.lock_owner = None;
    job.lock_time = None;
    job.lock_expiration_time = None;
}

/// The type of a job: the recorded one, else inferred from the state
/// (untyped or `timer` is a timer; `executable`/`async`/`async-after` is a
/// message job; anything else stays untyped).
pub open spec fn resolved_job_type(
    types: Map<Seq<char>, JobTypeEntry>,
    job: RuntimeTimerJobState,
) -> Option<JobTypeSpec> {
    if types.contains_key(job.timer_job_id@) {
        Some(type_view(types[job.timer_job_id@].job_type))
    } else if job.job_state is None || state_is(job, "timer"@) {
        Some(JobTypeSpec::Timer)
    } else if state_is(job, "executable"@) || state_is(job, "async"@) || state_is(job, "async-after"@) {
        Some(JobTypeSpec::Other("message"@))
    } else {
        None
    }
}

pub fn resolve_job_type(store: &RuntimeStore, job: &RuntimeTimerJobState) -> (r: Option<RuntimeJobType>)
    requires
        store.wf(),
    ensures
        opt_type_view(r) == resolved_job_type(store.job_types@, *job),
{
    proof {
        reveal_strlit("message");
    }
    match store.find_timer_job_type(&job.timer_job_id) {
        Some(t) => Some(t),
        None => {
            if job.job_state.is_none() || opt_is(&job.job_state, "timer") {
                Some(RuntimeJobType::Timer)
            } else if opt_is(&job.job_state, "executable") || opt_is(&job.job_state, "async")
                || opt_is(&job.job_state, "async-after") {
                Some(RuntimeJobType::Other(String::from_str("message")))
            } else {
                None
            }
        },
    }
}

/// The state a suspended job returns to.
pub open spec fn activation_state_spec(job: RuntimeTimerJobState, t: Option<JobTypeSpec>) -> Seq<
    char,
> {
    match t {
        Some(JobTypeSpec::Timer) => "timer"@,
        Some(JobTypeSpec::ExternalWorker) => "timer"@,
        _ => if opt_view(job.time_duration) == Some(async_continuation_marker()) {
            "async"@
        } else if opt_view(job.time_duration) == Some(async_after_marker()) {
            "async-after"@
        } else {
            "executable"@
        },
    }
}

/// Timers and external-worker jobs return to `timer`; other jobs to `async`
/// or `async-after` by their marker, else to `executable`.
pub fn activation_state(job: &RuntimeTimerJobState, job_type: &Option<RuntimeJobType>) -> (r: String)
    ensures
        r@ == activation_state_spec(*job, opt_type_view(*job_type)),
{
    match job_type {
        Some(RuntimeJobType::Timer) => String::from_str("timer"),
        Some(RuntimeJobType::ExternalWorker) => String::from_str("timer"),
        _ => {
            if opt_is(&job.time_duration, async_continuation_job_type_marker()) {
                String::from_str("async")
            } else if opt_is(&job.time_duration, async_after_job_type_marker()) {
                String::from_str("async-after")
            } else {
                String::from_str("executable")
            }
        },
    }
}

/// `after` is `before` suspended: state `suspended`, lock emptied.
pub open spec fn suspended_form(after: RuntimeTimerJobState, before: RuntimeTimerJobState) -> bool {
    &&& state_is(after, "suspended"@)
    &&& after == RuntimeTimerJobState { job_state: after.job_state, ..unlocked(before) }
}

/// The job-type table holds `t` for key `k` (nothing when `t` is `None`).
pub open spec fn typed_as(types: Map<Seq<char>, JobTypeEntry>, k: Seq<char>, t: Option<
    JobTypeSpec,
>) -> bool {
    match t {
        Some(ts) => types.contains_key(k) && type_view(types[k].job_type) == ts
            && types[k].timer_job_id@ == k,
        None => !types.contains_key(k),
    }
}

/// Suspends one job: state `suspended`, lock cleared, type recorded.
pub fn suspend_job(store: &mut RuntimeStore, job: RuntimeTimerJobState)
    requires
        old(store).wf(),
    ensures
        final(store).wf(),
        frame(*old(store), *final(store), set![StoreTable::TimerJobs, StoreTable::JobTypes]),
        final(store).timer_jobs@.contains_key(job.timer_job_id@),
        suspended_form(final(store).timer_jobs@[job.timer_job_id@], job),
        has_key(old(store).timer_jobs.rows@, job.timer_job_id@) ==> final(store).timer_jobs.rows@
            == old(store).timer_jobs.rows@.update(
            index_of(old(store).timer_jobs.rows@, job.timer_job_id@),
            final(store).timer_jobs@[job.timer_job_id@],
        ),
        final(store).timer_jobs@.remove(job.timer_job_id@) == old(store).timer_jobs@.remove(
            job.timer_job_id@,
        ),
        typed_as(final(store).job_types@, job.timer_job_id@, resolved_job_type(old(store).job_types@, job)),
        final(store).job_types@.remove(job.timer_job_id@) == old(store).job_types@.remove(
            job.timer_job_id@,
        ),
{
    let job_type = resolve_job_type(store, &job);
    let mut job = job;
    let ghost before = job;
    job.job_state = Some(String::from_str("suspended"));
    clear_job_lock(&mut job);
    let ghost after = job;
    let ghost old_jobs = store.timer_jobs@;
    let ghost old_types = store.job_types@;
    store.insert_timer_job_state_with_type(job, job_type);
    proof {
        assert(store.timer_jobs@.remove(before.timer_job_id@) =~= old_jobs.remove(before.timer_job_id@));
        assert(store.job_types@.remove(before.timer_job_id@) =~= old_types.remove(before.timer_job_id@));
    }
}

/// How a suspended job is re-activated.
#[derive(Debug)]
pub enum SuspendedJobActivation {
    /// State restored from the job's type and marker; an executable job may
    /// be pre-locked for and handed to a running async executor.
    Java,
    /// Forced to `executable` with the given retries; never pre-locked.
    Extension { retries: i32 },
}

/// Whether a job in `state` is run by the async executor.
pub open spec fn async_eligible_state(state: Seq<char>) -> bool {
    state == "async"@ || state == "executable"@ || state == "async-after"@
}

/// Whether a re-activated job in `state` is pre-locked for the executor.
pub open spec fn prelocked(coord: ActivationCoordinator, state: Seq<char>) -> bool {
    async_eligible_state(state) && coord.active && coord.tenant_enabled
}

/// `after` is `before` re-activated under `activation` with type `t`.
pub open spec fn activated_form(
    after: RuntimeTimerJobState,
    before: RuntimeTimerJobState,
    t: Option<JobTypeSpec>,
    activation: SuspendedJobActivation,
    coord: ActivationCoordinator,
    now: i64,
) -> bool {
    match activation {
        SuspendedJobActivation::Extension { retries } => {
            &&& state_is(after, "executable"@)
            &&& after == RuntimeTimerJobState {
                job_state: after.job_state,
                retries: Some(retries),
                ..unlocked(before)
            }
        },
        SuspendedJobActivation::Java => {
            let state = activation_state_spec(before, t);
            &&& state_is(after, state)
            &&& if prelocked(coord, state) {
                &&& opt_view(after.lock_owner) == Some(coord.lock_owner@)
                &&& after == RuntimeTimerJobState {
                    job_state: after.job_state,
                    lock_owner: after.lock_owner,
                    lock_time: Some(now),
                    lock_expiration_time: Some(
                        sat_add(now as int, coord.async_job_lock_ms as int) as i64,
                    ),
                    ..before
                }
            } else {
                after == RuntimeTimerJobState { job_state: after.job_state, ..unlocked(before) }
            }
        },
    }
}

/// Whether the re-activated job is handed to the executor after commit.
pub open spec fn hinted(
    after: RuntimeTimerJobState,
    before: RuntimeTimerJobState,
    t: Option<JobTypeSpec>,
    activation: SuspendedJobActivation,
    coord: ActivationCoordinator,
) -> bool {
    activation is Java && prelocked(coord, activation_state_spec(before, t))
        && category_enabled_spec(coord.enabled_categories@, opt_view(after.category))
}

/// Re-activates one suspended job, records its type and, when the executor
/// pre-locks it and executes its category, queues it as a hint.
pub fn activate_suspended_job(
    ctx: &mut CommandContext,
    job: RuntimeTimerJobState,
    activation: SuspendedJobActivation,
) -> (r: RuntimeTimerJobState)
    requires
        old(ctx).session.wf(),
    ensures
        final(ctx).session.wf(),
        frame(old(ctx).session, final(ctx).session, set![StoreTable::TimerJobs, StoreTable::JobTypes]),
        activated_form(r, job, resolved_job_type(old(ctx).session.job_types@, job), activation, old(ctx).coordinator, old(ctx).now_ms),
        final(ctx).session.timer_jobs@ == old(ctx).session.timer_jobs@.insert(job.timer_job_id@, r),
        has_key(old(ctx).session.timer_jobs.rows@, job.timer_job_id@) ==> final(ctx).session.timer_jobs.rows@
            == old(ctx).session.timer_jobs.rows@.update(
            index_of(old(ctx).session.timer_jobs.rows@, job.timer_job_id@),
            r,
        ),
        typed_as(final(ctx).session.job_types@, job.timer_job_id@, resolved_job_type(old(ctx).session.job_types@, job)),
        final(ctx).session.job_types@.remove(job.timer_job_id@) == old(ctx).session.job_types@.remove(job.timer_job_id@),
        hinted(r, job, resolved_job_type(old(ctx).session.job_types@, job), activation, old(ctx).coordinator)
            ==> final(ctx).pending_async_hints@ == old(ctx).pending_async_hints@.push(r),
        !hinted(r, job, resolved_job_type(old(ctx).session.job_types@, job), activation, old(ctx).coordinator)
            ==> final(ctx).pending_async_hints@ == old(ctx).pending_async_hints@,
        final(ctx).events == old(ctx).events,
        final(ctx).coordinator == old(ctx).coordinator,
        final(ctx).config == old(ctx).config,
        final(ctx).now_ms == old(ctx).now_ms,
{
    let job_type = resolve_job_type(&ctx.session, &job);
    let ghost t = opt_type_view(job_type);
    let ghost before = job;
    let mut job = job;
    let mut async_eligible = false;
    let java = match activation {
        SuspendedJobActivation::Java => true,
        SuspendedJobActivation::Extension { .. } => false,
    };
    match activation {
        SuspendedJobActivation::Java => {
            let state = activation_state(&job, &job_type);
            async_eligible = state.eq(&String::from_str("async")) || state.eq(
                &String::from_str("async-after"),
            ) || state.eq(&String::from_str("executable"));
            job.job_state = Some(state);
        },
        SuspendedJobActivation::Extension { retries } => {
            job.job_state = Some(String::from_str("executable"));
            job.retries = Some(retries);
        },
    }
    clear_job_lock(&mut job);
    let mut hint = false;
    if java && async_eligible && ctx.coordinator.active && ctx.coordinator.tenant_enabled {
        let now = ctx.now_ms;
        job.lock_owner = Some(ctx.coordinator.lock_owner.clone());
        job.lock_time = Some(now);
        job.lock_expiration_time = Some(saturating_add_i64(now, ctx.coordinator.async_job_lock_ms));
        if ctx.coordinator.category_enabled_for_hint(&job.category) {
            hint = true;
        }
    }
    let result = job.duplicate();
    let ghost old_types = ctx.session.job_types@;
    ctx.session.insert_timer_job_state_with_type(job, job_type);
    proof {
        assert(ctx.session.job_types@.remove(before.timer_job_id@) =~= old_types.remove(before.timer_job_id@));
    }
    if hint {
        ctx.pending_async_hints.push(result.duplicate());
    }
    result
}

pub proof fn lemma_remove_eq<V>(m1: Map<Seq<char>, V>, m2: Map<Seq<char>, V>, k: Seq<char>, k2: Seq<char>)
    requires
        m1.remove(k) == m2.remove(k),
        k2 != k,
    ensures
        m1.contains_key(k2) == m2.contains_key(k2),
        m2.contains_key(k2) ==> m1[k2] == m2[k2],
{
    assert(m1.remove(k).contains_key(k2) == m1.contains_key(k2));
    assert(m2.remove(k).contains_key(k2) == m2.contains_key(k2));
    if m2.contains_key(k2) {
        assert(m1.remove(k)[k2] == m1[k2]);
        assert(m2.remove(k)[k2] == m2[k2]);
    }
}

/// The job-type table agrees at key `k` before and after.
pub open spec fn same_type_at(
    before: Map<Seq<char>, JobTypeEntry>,
    after: Map<Seq<char>, JobTypeEntry>,
    k: Seq<char>,
) -> bool {
    &&& after.contains_key(k) == before.contains_key(k)
    &&& before.contains_key(k) ==> after[k] == before[k]
}

/// A job of process instance `pid` that suspension moves.
pub open spec fn suspend_target(job: RuntimeTimerJobState, pid: Seq<char>) -> bool {
    job.process_instance_id@ == pid && suspendable_spec(job)
}

/// A job of process instance `pid` that activation moves.
pub open spec fn activate_target(job: RuntimeTimerJobState, pid: Seq<char>) -> bool {
    job.process_instance_id@ == pid && state_is(job, "suspended"@)
}

/// A bulk move of the jobs of one process instance.
pub enum BulkMove {
    Suspend { pid: Seq<char> },
    Activate { pid: Seq<char>, coord: ActivationCoordinator, now: i64 },
}

/// Whether the move applies to `job`.
pub open spec fn bulk_target(m: BulkMove, job: RuntimeTimerJobState) -> bool {
    match m {
        BulkMove::Suspend { pid } => suspend_target(job, pid),
        BulkMove::Activate { pid, .. } => activate_target(job, pid),
    }
}

/// Whether `after` is `before` moved (types resolved against `types0`).
pub open spec fn bulk_rel(
    m: BulkMove,
    after: RuntimeTimerJobState,
    before: RuntimeTimerJobState,
    types0: Map<Seq<char>, JobTypeEntry>,
) -> bool {
    match m {
        BulkMove::Suspend { .. } => suspended_form(after, before),
        BulkMove::Activate { coord, now, .. } => activated_form(
            after,
            before,
            resolved_job_type(types0, before),
            SuspendedJobActivation::Java,
            coord,
            now,
        ),
    }
}

/// How many rows the move applies to.
pub open spec fn count_targets(rows: Seq<RuntimeTimerJobState>, m: BulkMove) -> nat
    decreases rows.len(),
{
    if rows.len() == 0 {
        0
    } else {
        count_targets(rows.drop_last(), m) + if bulk_target(m, rows.last()) {
            1nat
        } else {
            0nat
        }
    }
}

/// The jobs (`jobs0` to `jobs1`) and their types (`types0` to `types1`) after
/// the move has been applied to the target jobs among the first `upto` rows
/// of `rows0`, each recording its resolved type, with everything else as it was.
pub open spec fn bulk_applied(
    jobs0: Map<Seq<char>, RuntimeTimerJobState>,
    jobs1: Map<Seq<char>, RuntimeTimerJobState>,
    types0: Map<Seq<char>, JobTypeEntry>,
    types1: Map<Seq<char>, JobTypeEntry>,
    rows0: Seq<RuntimeTimerJobState>,
    upto: int,
    m: BulkMove,
) -> bool {
    &&& jobs1.dom() == jobs0.dom()
    &&& forall|k: Seq<char>| #[trigger]
        jobs0.contains_key(k) ==> if index_of(rows0, k) < upto && bulk_target(m, jobs0[k]) {
            bulk_rel(m, jobs1[k], jobs0[k], types0) && typed_as(
                types1,
                k,
                resolved_job_type(types0, jobs0[k]),
            )
        } else {
            jobs1[k] == jobs0[k] && same_type_at(types0, types1, k)
        }
    &&& forall|k: Seq<char>| !jobs0.contains_key(k) ==> #[trigger] same_type_at(types0, types1, k)
}

/// Suspends every suspendable job of the process instance; returns how many.
pub fn suspend_jobs_for_process_instance(store: &mut RuntimeStore, process_instance_id: &String) -> (r:
    usize)
    requires
        old(store).wf(),
    ensures
        final(store).wf(),
        frame(*old(store), *final(store), set![StoreTable::TimerJobs, StoreTable::JobTypes]),
        bulk_applied(
            old(store).timer_jobs@,
            final(store).timer_jobs@,
            old(store).job_types@,
            final(store).job_types@,
            old(store).timer_jobs.rows@,
            old(store).timer_jobs.rows@.len() as int,
            (BulkMove::Suspend { pid: process_instance_id@ }),
        ),
        r == count_targets(old(store).timer_jobs.rows@, (BulkMove::Suspend { pid: process_instance_id@ })),
{
    let ghost rows0 = store.timer_jobs.rows@;
    let ghost jobs0 = store.timer_jobs@;
    let ghost types0 = store.job_types@;
    let ghost s0 = *store;
    let ghost mv = BulkMove::Suspend { pid: process_instance_id@ };
    let n = store.timer_jobs.rows.len();
    let mut count: usize = 0;
    let mut i: usize = 0;
    while i < n
        invariant
            store.wf(),
            n == rows0.len(),
            0 <= i <= n,
            store.timer_jobs.rows@.len() == n,
            forall|j: int| i <= j < n ==> store.timer_jobs.rows@[j] == rows0[j],
            jobs0 == crate::store::rows_map(rows0),
            crate::store::unique_keys(rows0),
            frame(s0, *store, set![StoreTable::TimerJobs, StoreTable::JobTypes]),
            mv == (BulkMove::Suspend { pid: process_instance_id@ }),
            bulk_applied(jobs0, store.timer_jobs@, types0, store.job_types@, rows0, i as int, mv),
            count == count_targets(rows0.take(i as int), mv),
            count <= i,
        decreases n - i,
    {
        let job = store.timer_jobs.rows[i].duplicate();
        let ghost k = job.timer_job_id@;
        proof {
            lemma_index_of(rows0, i as int);
            assert(rows0.take(i + 1).drop_last() =~= rows0.take(i as int));
            assert(jobs0[k] == job);
        }
        let ghost jobs_before = store.timer_jobs@;
        let ghost types_before = store.job_types@;
        if job.process_instance_id.eq(process_instance_id) && is_suspendable_job(&job) {
            proof {
                lemma_index_of(store.timer_jobs.rows@, i as int);
                assert(jobs0.contains_key(k));
                assert(types_before.contains_key(k) == types0.contains_key(k));
                assert(resolved_job_type(types_before, job) == resolved_job_type(types0, job));
            }
            suspend_job(store, job);
            count = count + 1;
            proof {
                assert forall|k2: Seq<char>| #[trigger] store.timer_jobs@.dom().contains(k2) == jobs_before.dom().contains(k2) by {
                    if k2 != k {
                        lemma_remove_eq(store.timer_jobs@, jobs_before, k, k2);
                    }
                }
                assert(store.timer_jobs@.dom() =~= jobs0.dom());
                assert forall|k2: Seq<char>| #[trigger] jobs0.contains_key(k2) implies if index_of(rows0, k2) < i + 1 && bulk_target(mv, jobs0[k2]) {
                    bulk_rel(mv, store.timer_jobs@[k2], jobs0[k2], types0) && typed_as(store.job_types@, k2, resolved_job_type(types0, jobs0[k2]))
                } else {
                    store.timer_jobs@[k2] == jobs0[k2] && same_type_at(types0, store.job_types@, k2)
                } by {
                    if k2 != k {
                        assert(jobs_before.dom().contains(k2));
                        lemma_remove_eq(store.timer_jobs@, jobs_before, k, k2);
                        lemma_remove_eq(store.job_types@, types_before, k, k2);
                        let idx = index_of(rows0, k2);
                        lemma_index_of(rows0, idx);
                        assert(idx != i);
                    } else {
                        assert(typed_as(store.job_types@, k, resolved_job_type(types0, jobs0[k])));
                        assert(suspended_form(store.timer_jobs@[k], jobs0[k]));
                    }
                }
                assert forall|k2: Seq<char>| !jobs0.contains_key(k2) implies #[trigger] same_type_at(types0, store.job_types@, k2) by {
                    assert(k2 != k);
                    assert(same_type_at(types0, types_before, k2));
                    lemma_remove_eq(store.job_types@, types_before, k, k2);
                }
            }
        } else {
            proof {
                assert forall|k2: Seq<char>| #[trigger] jobs0.contains_key(k2) implies if index_of(rows0, k2) < i + 1 && bulk_target(mv, jobs0[k2]) {
                    bulk_rel(mv, store.timer_jobs@[k2], jobs0[k2], types0) && typed_as(store.job_types@, k2, resolved_job_type(types0, jobs0[k2]))
                } else {
                    store.timer_jobs@[k2] == jobs0[k2] && same_type_at(types0, store.job_types@, k2)
                } by {
                    if k2 != k {
                        let idx = index_of(rows0, k2);
                        lemma_index_of(rows0, idx);
                        assert(idx != i);
                    }
                }
            }
        }
        i = i + 1;
    }
    proof {
        assert(rows0.take(n as int) =~= rows0);
        assert forall|k2: Seq<char>| #[trigger] jobs0.contains_key(k2) implies index_of(rows0, k2) < n by {
            let idx = choose|x: int| 0 <= x < rows0.len() && (#[trigger] rows0[x]).key() == k2;
            lemma_index_of(rows0, idx);
        }
    }
    count
}

/// The re-activated jobs, in row order, that were handed to the executor.
pub open spec fn hint_seq(
    rows: Seq<RuntimeTimerJobState>,
    jobs1: Map<Seq<char>, RuntimeTimerJobState>,
    types0: Map<Seq<char>, JobTypeEntry>,
    m: BulkMove,
) -> Seq<RuntimeTimerJobState>
    decreases rows.len(),
{
    if rows.len() == 0 {
        Seq::empty()
    } else {
        let prev = hint_seq(rows.drop_last(), jobs1, types0, m);
        let j = rows.last();
        match m {
            BulkMove::Activate { coord, .. } => if bulk_target(m, j) && hinted(
                jobs1[j.key()],
                j,
                resolved_job_type(types0, j),
                SuspendedJobActivation::Java,
                coord,
            ) {
                prev.push(jobs1[j.key()])
            } else {
                prev
            },
            _ => prev,
        }
    }
}

proof fn lemma_hint_seq_agree(
    rows: Seq<RuntimeTimerJobState>,
    j1: Map<Seq<char>, RuntimeTimerJobState>,
    j2: Map<Seq<char>, RuntimeTimerJobState>,
    types0: Map<Seq<char>, JobTypeEntry>,
    m: BulkMove,
)
    requires
        forall|x: int| 0 <= x < rows.len() ==> j1[(#[trigger] rows[x]).key()] == j2[rows[x].key()],
    ensures
        hint_seq(rows, j1, types0, m) == hint_seq(rows, j2, types0, m),
    decreases rows.len(),
{
    if rows.len() > 0 {
        assert forall|x: int| 0 <= x < rows.drop_last().len() implies j1[(#[trigger] rows.drop_last()[x]).key()] == j2[rows.drop_last()[x].key()] by {
            assert(rows.drop_last()[x] == rows[x]);
        }
        lemma_hint_seq_agree(rows.drop_last(), j1, j2, types0, m);
        assert(rows.last() == rows[rows.len() - 1]);
    }
}

/// Re-activates every suspended job of the process instance; returns how many.
pub fn activate_suspended_jobs_for_process_instance(ctx: &mut CommandContext, process_instance_id: &String) -> (r: usize)
    requires
        old(ctx).session.wf(),
    ensures
        final(ctx).session.wf(),
        frame(old(ctx).session, final(ctx).session, set![StoreTable::TimerJobs, StoreTable::JobTypes]),
        bulk_applied(
            old(ctx).session.timer_jobs@,
            final(ctx).session.timer_jobs@,
            old(ctx).session.job_types@,
            final(ctx).session.job_types@,
            old(ctx).session.timer_jobs.rows@,
            old(ctx).session.timer_jobs.rows@.len() as int,
            (BulkMove::Activate { pid: process_instance_id@, coord: old(ctx).coordinator, now: old(ctx).now_ms }),
        ),
        final(ctx).pending_async_hints@ == old(ctx).pending_async_hints@ + hint_seq(
            old(ctx).session.timer_jobs.rows@,
            final(ctx).session.timer_jobs@,
            old(ctx).session.job_types@,
            (BulkMove::Activate { pid: process_instance_id@, coord: old(ctx).coordinator, now: old(ctx).now_ms }),
        ),
        r == count_targets(old(ctx).session.timer_jobs.rows@, (BulkMove::Activate { pid: process_instance_id@, coord: old(ctx).coordinator, now: old(ctx).now_ms })),
        final(ctx).events == old(ctx).events,
        final(ctx).coordinator == old(ctx).coordinator,
        final(ctx).config == old(ctx).config,
        final(ctx).now_ms == old(ctx).now_ms,
{
    let ghost rows0 = ctx.session.timer_jobs.rows@;
    let ghost jobs0 = ctx.session.timer_jobs@;
    let ghost types0 = ctx.session.job_types@;
    let ghost s0 = ctx.session;
    let ghost hints0 = ctx.pending_async_hints@;
    let ghost c0 = *ctx;
    let ghost mv = BulkMove::Activate { pid: process_instance_id@, coord: ctx.coordinator, now: ctx.now_ms };
    let n = ctx.session.timer_jobs.rows.len();
    let mut count: usize = 0;
    let mut i: usize = 0;
    while i < n
        invariant
            ctx.session.wf(),
            n == rows0.len(),
            0 <= i <= n,
            ctx.session.timer_jobs.rows@.len() == n,
            forall|j: int| i <= j < n ==> ctx.session.timer_jobs.rows@[j] == rows0[j],
            jobs0 == crate::store::rows_map(rows0),
            crate::store::unique_keys(rows0),
            frame(s0, ctx.session, set![StoreTable::TimerJobs, StoreTable::JobTypes]),
            mv == (BulkMove::Activate { pid: process_instance_id@, coord: c0.coordinator, now: c0.now_ms }),
            bulk_applied(jobs0, ctx.session.timer_jobs@, types0, ctx.session.job_types@, rows0, i as int, mv),
            ctx.pending_async_hints@ == hints0 + hint_seq(rows0.take(i as int), ctx.session.timer_jobs@, types0, mv),
            count == count_targets(rows0.take(i as int), mv),
            count <= i,
            ctx.events == c0.events,
            ctx.coordinator == c0.coordinator,
            ctx.config == c0.config,
            ctx.now_ms == c0.now_ms,
        decreases n - i,
    {
        let job = ctx.session.timer_jobs.rows[i].duplicate();
        let ghost k = job.timer_job_id@;
        proof {
            lemma_index_of(rows0, i as int);
            assert(rows0.take(i + 1).drop_last() =~= rows0.take(i as int));
            assert(rows0.take(i + 1).last() == job);
            assert(jobs0[k] == job);
        }
        let ghost jobs_before = ctx.session.timer_jobs@;
        let ghost types_before = ctx.session.job_types@;
        let ghost hints_before = ctx.pending_async_hints@;
        if job.process_instance_id.eq(process_instance_id) && is_suspended_job(&job) {
            proof {
                lemma_index_of(ctx.session.timer_jobs.rows@, i as int);
                assert(jobs0.contains_key(k));
                assert(types_before.contains_key(k) == types0.contains_key(k));
                assert(resolved_job_type(types_before, job) == resolved_job_type(types0, job));
            }
            let res = activate_suspended_job(ctx, job, SuspendedJobActivation::Java);
            count = count + 1;
            proof {
                assert(ctx.session.timer_jobs@ == jobs_before.insert(k, res));
                assert forall|k2: Seq<char>| #[trigger] ctx.session.timer_jobs@.dom().contains(k2) == jobs_before.dom().contains(k2) by {}
                assert(ctx.session.timer_jobs@.dom() =~= jobs0.dom());
                assert forall|k2: Seq<char>| #[trigger] jobs0.contains_key(k2) implies if index_of(rows0, k2) < i + 1 && bulk_target(mv, jobs0[k2]) {
                    bulk_rel(mv, ctx.session.timer_jobs@[k2], jobs0[k2], types0) && typed_as(ctx.session.job_types@, k2, resolved_job_type(types0, jobs0[k2]))
                } else {
                    ctx.session.timer_jobs@[k2] == jobs0[k2] && same_type_at(types0, ctx.session.job_types@, k2)
                } by {
                    if k2 != k {
                        lemma_remove_eq(ctx.session.job_types@, types_before, k, k2);
                        let idx = index_of(rows0, k2);
                        lemma_index_of(rows0, idx);
                        assert(idx != i);
                    }
                }
                assert forall|k2: Seq<char>| !jobs0.contains_key(k2) implies #[trigger] same_type_at(types0, ctx.session.job_types@, k2) by {
                    assert(k2 != k);
                    assert(same_type_at(types0, types_before, k2));
                    lemma_remove_eq(ctx.session.job_types@, types_before, k, k2);
                }
                assert forall|x: int| 0 <= x < rows0.take(i as int).len() implies jobs_before[(#[trigger] rows0.take(i as int)[x]).key()] == ctx.session.timer_jobs@[rows0.take(i as int)[x].key()] by {
                    lemma_index_of(rows0, x);
                    assert(rows0.take(i as int)[x] == rows0[x]);
                }
                lemma_hint_seq_agree(rows0.take(i as int), jobs_before, ctx.session.timer_jobs@, types0, mv);
                assert(ctx.session.timer_jobs@[k] == res);
            }
        } else {
            proof {
                assert forall|k2: Seq<char>| #[trigger] jobs0.contains_key(k2) implies if index_of(rows0, k2) < i + 1 && bulk_target(mv, jobs0[k2]) {
                    bulk_rel(mv, ctx.session.timer_jobs@[k2], jobs0[k2], types0) && typed_as(ctx.session.job_types@, k2, resolved_job_type(types0, jobs0[k2]))
                } else {
                    ctx.session.timer_jobs@[k2] == jobs0[k2] && same_type_at(types0, ctx.session.job_types@, k2)
                } by {
                    if k2 != k {
                        let idx = index_of(rows0, k2);
                        lemma_index_of(rows0, idx);
                        assert(idx != i);
                    }
                }
            }
        }
        i = i + 1;
    }
    proof {
        assert(rows0.take(n as int) =~= rows0);
        assert forall|k2: Seq<char>| #[trigger] jobs0.contains_key(k2) implies index_of(rows0, k2) < n by {
            let idx = choose|x: int| 0 <= x < rows0.len() && (#[trigger] rows0[x]).key() == k2;
            lemma_index_of(rows0, idx);
        }
    }
    count
}

} // verus!
