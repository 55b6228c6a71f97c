//! One acquisition round of the timer coordinator over a bounded selection
//! of scheduled timers: which due rows it takes and how it locks them.
use vstd::prelude::*;
use crate::catch_events::id_set;
use crate::command::{category_enabled_spec, contains_string, CommandContext};
use crate::entities::{clone_opt, opt_view, Duplicate, RuntimeTimerJobState};
use crate::error::FlowableError;
use crate::execution_tree::string_views;
use crate::jobs::{opt_is, state_is};
use crate::store::{frame, lemma_index_of, rows_map, unique_keys, StoreTable};
use crate::timer_selection::{
    candidate_order, eligible_views, ids_of_rank, lemma_candidate_order_total, select_scheduled_timer_candidates, selected_views,
    CandidateView, DueTimerCandidate, JobLockEligibility,
};
use crate::timer_work::{
    acquired_views, assemble_acquired_timer_work, lease_admits, lease_held, stably_sorted_by_due, AcquireTimerWorkCmd,
    EventSubprocessTimerSubscription, TimerCoordinatorLease, TimerStartSubscription, TimerWork,
};
use vstd::seq_lib::lemma_seq_contains_after_push;

verus! {

/// Whether a runtime job row is a due scheduled timer for this round: a
/// timer (or untyped) row due by `now`, of a listed tenant and an enabled
/// category when those lists are given.
pub open spec fn due_scheduled_timer(j: RuntimeTimerJobState, now: i64, tenants: Seq<String>, categories: Seq<String>) -> bool {
    &&& (j.job_state is None || state_is(j, "timer"@))
    &&& j.due_time is Some
    &&& j.due_time->0 <= now
    &&& category_enabled_spec(tenants, opt_view(j.tenant_id))
    &&& category_enabled_spec(categories, opt_view(j.category))
}

pub open spec fn candidate_of_job(j: RuntimeTimerJobState) -> DueTimerCandidate {
    DueTimerCandidate { id: j.timer_job_id, lock_owner: j.lock_owner, due_time: j.due_time }
}

/// The candidates the first `n` runtime rows contribute, in order.
pub open spec fn runtime_candidates(rows: Seq<RuntimeTimerJobState>, now: i64, tenants: Seq<String>, categories: Seq<String>,
    n: int) -> Seq<DueTimerCandidate>
    decreases n,
{
    if n <= 0 {
        Seq::empty()
    } else if due_scheduled_timer(rows[n - 1], now, tenants, categories) {
        runtime_candidates(rows, now, tenants, categories, n - 1).push(candidate_of_job(rows[n - 1]))
    } else {
        runtime_candidates(rows, now, tenants, categories, n - 1)
    }
}

/// The candidates the first `n` process start subscriptions contribute:
/// those due by `now`.
pub open spec fn start_candidates(starts: Seq<TimerStartSubscription>, now: i64, n: int) -> Seq<DueTimerCandidate>
    decreases n,
{
    if n <= 0 {
        Seq::empty()
    } else if starts[n - 1].due_time is Some && starts[n - 1].due_time->0 <= now {
        start_candidates(starts, now, n - 1).push(
            DueTimerCandidate { id: starts[n - 1].id, lock_owner: starts[n - 1].lock_owner, due_time: starts[n - 1].due_time },
        )
    } else {
        start_candidates(starts, now, n - 1)
    }
}

/// The candidates the first `n` event subprocess timer subscriptions
/// contribute: those due by `now`.
pub open spec fn subprocess_candidates(subs: Seq<EventSubprocessTimerSubscription>, now: i64, n: int) -> Seq<DueTimerCandidate>
    decreases n,
{
    if n <= 0 {
        Seq::empty()
    } else if subs[n - 1].due_time is Some && subs[n - 1].due_time->0 <= now {
        subprocess_candidates(subs, now, n - 1).push(DueTimerCandidate {
            id: subs[n - 1].subscription_id,
            lock_owner: subs[n - 1].lock_owner,
            due_time: subs[n - 1].due_time,
        })
    } else {
        subprocess_candidates(subs, now, n - 1)
    }
}

/// A job locked for `owner` at `now` until `expiry`.
pub open spec fn locked_job(j: RuntimeTimerJobState, owner: String, now: i64, expiry: i64) -> RuntimeTimerJobState {
    RuntimeTimerJobState { lock_owner: Some(owner), lock_time: Some(now), lock_expiration_time: Some(expiry), ..j }
}

pub open spec fn locked_start(s: TimerStartSubscription, owner: String, now: i64) -> TimerStartSubscription {
    TimerStartSubscription { lock_owner: Some(owner), lock_time: Some(now), ..s }
}

pub open spec fn locked_subprocess(s: EventSubprocessTimerSubscription, owner: String, now: i64) -> EventSubprocessTimerSubscription {
    EventSubprocessTimerSubscription { lock_owner: Some(owner), lock_time: Some(now), ..s }
}

/// The locked jobs handed out for the first `n` selected ids, in order.
pub open spec fn locked_jobs(m: Map<Seq<char>, RuntimeTimerJobState>, ids: Seq<Seq<char>>, owner: String, now: i64, expiry: i64,
    n: int) -> Seq<RuntimeTimerJobState>
    decreases n,
{
    if n <= 0 {
        Seq::empty()
    } else if m.contains_key(ids[n - 1]) {
        locked_jobs(m, ids, owner, now, expiry, n - 1).push(locked_job(m[ids[n - 1]], owner, now, expiry))
    } else {
        locked_jobs(m, ids, owner, now, expiry, n - 1)
    }
}

/// The selected process start subscriptions among the first `n`, locked,
/// in order.
pub open spec fn locked_starts(starts: Seq<TimerStartSubscription>, ids: Seq<Seq<char>>, owner: String, now: i64, n: int) -> Seq<
    TimerStartSubscription,
>
    decreases n,
{
    if n <= 0 {
        Seq::empty()
    } else if ids.contains(starts[n - 1].id@) {
        locked_starts(starts, ids, owner, now, n - 1).push(locked_start(starts[n - 1], owner, now))
    } else {
        locked_starts(starts, ids, owner, now, n - 1)
    }
}

pub open spec fn locked_subprocesses(subs: Seq<EventSubprocessTimerSubscription>, ids: Seq<Seq<char>>, owner: String, now: i64,
    n: int) -> Seq<EventSubprocessTimerSubscription>
    decreases n,
{
    if n <= 0 {
        Seq::empty()
    } else if ids.contains(subs[n - 1].subscription_id@) {
        locked_subprocesses(subs, ids, owner, now, n - 1).push(locked_subprocess(subs[n - 1], owner, now))
    } else {
        locked_subprocesses(subs, ids, owner, now, n - 1)
    }
}

/// The lock duration of acquired timers, in milliseconds.
pub open spec fn timer_lock_ms(configured: u64) -> i64 {
    if configured > i64::MAX as u64 { i64::MAX } else { configured as i64 }
}

fn collect_runtime_candidates(rows: &Vec<RuntimeTimerJobState>, now: i64, tenants: &Vec<String>, categories: &Vec<String>) -> (r: Vec<
    DueTimerCandidate,
>)
    ensures
        r@ == runtime_candidates(rows@, now, tenants@, categories@, rows@.len() as int),
{
    let mut out: Vec<DueTimerCandidate> = Vec::new();
    let mut i: usize = 0;
    while i < rows.len()
        invariant
            0 <= i <= rows.len(),
            out@ == runtime_candidates(rows@, now, tenants@, categories@, i as int),
        decreases rows.len() - i,
    {
        let j = &rows[i];
        let typed = j.job_state.is_none() || opt_is(&j.job_state, "timer");
        let due = match j.due_time {
            Some(d) => d <= now,
            None => false,
        };
        let tenant_ok = tenants.len() == 0 || match &j.tenant_id {
            Some(t) => contains_string(tenants, t),
            None => false,
        };
        let category_ok = categories.len() == 0 || match &j.category {
            Some(c) => contains_string(categories, c),
            None => false,
        };
        if typed && due && tenant_ok && category_ok {
            out.push(DueTimerCandidate { id: j.timer_job_id.clone(), lock_owner: clone_opt(&j.lock_owner), due_time: j.due_time });
        }
        i = i + 1;
    }
    out
}

fn collect_start_candidates(starts: &Vec<TimerStartSubscription>, now: i64) -> (r: Vec<DueTimerCandidate>)
    ensures
        r@ == start_candidates(starts@, now, starts@.len() as int),
{
    let mut out: Vec<DueTimerCandidate> = Vec::new();
    let mut i: usize = 0;
    while i < starts.len()
        invariant
            0 <= i <= starts.len(),
            out@ == start_candidates(starts@, now, i as int),
        decreases starts.len() - i,
    {
        let s = &starts[i];
        let due = match s.due_time {
            Some(d) => d <= now,
            None => false,
        };
        if due {
            out.push(DueTimerCandidate { id: s.id.clone(), lock_owner: clone_opt(&s.lock_owner), due_time: s.due_time });
        }
        i = i + 1;
    }
    out
}

fn collect_subprocess_candidates(subs: &Vec<EventSubprocessTimerSubscription>, now: i64) -> (r: Vec<DueTimerCandidate>)
    ensures
        r@ == subprocess_candidates(subs@, now, subs@.len() as int),
{
    let mut out: Vec<DueTimerCandidate> = Vec::new();
    let mut i: usize = 0;
    while i < subs.len()
        invariant
            0 <= i <= subs.len(),
            out@ == subprocess_candidates(subs@, now, i as int),
        decreases subs.len() - i,
    {
        let s = &subs[i];
        let due = match s.due_time {
            Some(d) => d <= now,
            None => false,
        };
        if due {
            out.push(DueTimerCandidate { id: s.subscription_id.clone(), lock_owner: clone_opt(&s.lock_owner), due_time: s.due_time });
        }
        i = i + 1;
    }
    out
}

fn locked_start_of(s: &TimerStartSubscription, owner: &String, now: i64) -> (r: TimerStartSubscription)
    ensures
        r == locked_start(*s, *owner, now),
{
    TimerStartSubscription {
        id: s.id.clone(),
        process_definition_id: s.process_definition_id.clone(),
        process_definition_key: s.process_definition_key.clone(),
        start_event_id: s.start_event_id.clone(),
        lock_owner: Some(owner.clone()),
        lock_time: Some(now),
        due_time: s.due_time,
        end_date: clone_opt(&s.end_date),
        time_cycle: clone_opt(&s.time_cycle),
        calendar_name: clone_opt(&s.calendar_name),
    }
}

fn locked_subprocess_of(s: &EventSubprocessTimerSubscription, owner: &String, now: i64) -> (r: EventSubprocessTimerSubscription)
    ensures
        r == locked_subprocess(*s, *owner, now),
{
    EventSubprocessTimerSubscription {
        subscription_id: s.subscription_id.clone(),
        process_instance_id: s.process_instance_id.clone(),
        start_event_id: s.start_event_id.clone(),
        interrupting: s.interrupting,
        lock_owner: Some(owner.clone()),
        lock_time: Some(now),
        due_time: s.due_time,
        end_date: clone_opt(&s.end_date),
        time_cycle: clone_opt(&s.time_cycle),
        calendar_name: clone_opt(&s.calendar_name),
    }
}

/// Locks the selected runtime jobs (`ids`) in the store and returns the
/// locked rows, in the order of `ids`.
fn lock_runtime_jobs(ctx: &mut CommandContext, ids: &Vec<String>, owner: &String, now: i64, expiry: i64) -> (r: Vec<
    RuntimeTimerJobState,
>)
    requires
        old(ctx).session.wf(),
    ensures
        final(ctx).session.wf(),
        frame(old(ctx).session, final(ctx).session, set![StoreTable::TimerJobs]),
        final(ctx).session.timer_jobs@.dom() == old(ctx).session.timer_jobs@.dom(),
        forall|k: Seq<char>| #[trigger] old(ctx).session.timer_jobs@.contains_key(k) ==> final(ctx).session.timer_jobs@[k] == (
            if string_views(ids@).contains(k) {
                locked_job(old(ctx).session.timer_jobs@[k], *owner, now, expiry)
            } else {
                old(ctx).session.timer_jobs@[k]
            }),
        r@ == locked_jobs(old(ctx).session.timer_jobs@, string_views(ids@), *owner, now, expiry, ids@.len() as int),
        final(ctx).events == old(ctx).events,
        final(ctx).config == old(ctx).config,
        final(ctx).now_ms == old(ctx).now_ms,
{
    let ghost m0 = ctx.session.timer_jobs@;
    let ghost before = ctx.session;
    let mut out: Vec<RuntimeTimerJobState> = Vec::new();
    let mut i: usize = 0;
    while i < ids.len()
        invariant
            ctx.session.wf(),
            0 <= i <= ids.len(),
            m0 == before.timer_jobs@,
            before == old(ctx).session,
            ctx.events == old(ctx).events,
            ctx.config == old(ctx).config,
            ctx.now_ms == old(ctx).now_ms,
            frame(before, ctx.session, set![StoreTable::TimerJobs]),
            ctx.session.timer_jobs@.dom() == m0.dom(),
            forall|k: Seq<char>| #[trigger] m0.contains_key(k) ==> ctx.session.timer_jobs@[k] == (
                if string_views(ids@).subrange(0, i as int).contains(k) {
                    locked_job(m0[k], *owner, now, expiry)
                } else {
                    m0[k]
                }),
            out@ == locked_jobs(m0, string_views(ids@), *owner, now, expiry, i as int),
        decreases ids.len() - i,
    {
        let ghost sv = string_views(ids@);
        assert(sv.subrange(0, i + 1) =~= sv.subrange(0, i as int).push(sv[i as int]));
        assert(sv[i as int] == ids@[i as int]@);
        match ctx.session.find_timer_job_state(&ids[i]) {
            Some(row) => {
                let mut row = row;
                row.lock_owner = Some(owner.clone());
                row.lock_time = Some(now);
                row.lock_expiration_time = Some(expiry);
                let ghost lk = row;
                ctx.session.insert_timer_job_state(row.duplicate());
                out.push(row);
                proof {
                    assert(lk == locked_job(m0[sv[i as int]], *owner, now, expiry));
                    assert forall|k: Seq<char>| #[trigger] m0.contains_key(k) implies ctx.session.timer_jobs@[k] == (
                        if sv.subrange(0, i + 1).contains(k) {
                            locked_job(m0[k], *owner, now, expiry)
                        } else {
                            m0[k]
                        }) by {
                        lemma_seq_contains_after_push(sv.subrange(0, i as int), sv[i as int], k);
                    }
                    assert(ctx.session.timer_jobs@.dom() =~= m0.dom());
                }
            },
            None => {
                proof {
                    assert forall|k: Seq<char>| #[trigger] m0.contains_key(k) implies ctx.session.timer_jobs@[k] == (
                        if sv.subrange(0, i + 1).contains(k) {
                            locked_job(m0[k], *owner, now, expiry)
                        } else {
                            m0[k]
                        }) by {
                        lemma_seq_contains_after_push(sv.subrange(0, i as int), sv[i as int], k);
                    }
                }
            },
        }
        i = i + 1;
    }
    assert(string_views(ids@).subrange(0, ids@.len() as int) =~= string_views(ids@));
    out
}

/// Locks the selected process start subscriptions (`ids`) in place and
/// returns the locked ones, in the vector's order.
fn lock_starts(starts: &mut Vec<TimerStartSubscription>, ids: &Vec<String>, owner: &String, now: i64) -> (r: Vec<
    TimerStartSubscription,
>)
    ensures
        final(starts)@.len() == old(starts)@.len(),
        forall|i: int| 0 <= i < old(starts)@.len() ==> #[trigger] final(starts)@[i] == (if string_views(ids@).contains(
            old(starts)@[i].id@,
        ) {
            locked_start(old(starts)@[i], *owner, now)
        } else {
            old(starts)@[i]
        }),
        r@ == locked_starts(old(starts)@, string_views(ids@), *owner, now, old(starts)@.len() as int),
{
    let ghost orig = starts@;
    let mut out: Vec<TimerStartSubscription> = Vec::new();
    let mut i: usize = 0;
    while i < starts.len()
        invariant
            starts@.len() == orig.len(),
            0 <= i <= orig.len(),
            orig == old(starts)@,
            forall|q: int| i <= q < orig.len() ==> #[trigger] starts@[q] == orig[q],
            forall|q: int| 0 <= q < i ==> #[trigger] starts@[q] == (if string_views(ids@).contains(orig[q].id@) {
                locked_start(orig[q], *owner, now)
            } else {
                orig[q]
            }),
            out@ == locked_starts(orig, string_views(ids@), *owner, now, i as int),
        decreases orig.len() - i,
    {
        let hit = crate::catch_events::lists_id(ids, &starts[i].id);
        if hit {
            let l = locked_start_of(&starts[i], owner, now);
            let copy = locked_start_of(&starts[i], owner, now);
            starts.set(i, l);
            out.push(copy);
        }
        i = i + 1;
    }
    out
}

fn lock_subprocesses(subs: &mut Vec<EventSubprocessTimerSubscription>, ids: &Vec<String>, owner: &String, now: i64) -> (r: Vec<
    EventSubprocessTimerSubscription,
>)
    ensures
        final(subs)@.len() == old(subs)@.len(),
        forall|i: int| 0 <= i < old(subs)@.len() ==> #[trigger] final(subs)@[i] == (if string_views(ids@).contains(
            old(subs)@[i].subscription_id@,
        ) {
            locked_subprocess(old(subs)@[i], *owner, now)
        } else {
            old(subs)@[i]
        }),
        r@ == locked_subprocesses(old(subs)@, string_views(ids@), *owner, now, old(subs)@.len() as int),
{
    let ghost orig = subs@;
    let mut out: Vec<EventSubprocessTimerSubscription> = Vec::new();
    let mut i: usize = 0;
    while i < subs.len()
        invariant
            subs@.len() == orig.len(),
            0 <= i <= orig.len(),
            orig == old(subs)@,
            forall|q: int| i <= q < orig.len() ==> #[trigger] subs@[q] == orig[q],
            forall|q: int| 0 <= q < i ==> #[trigger] subs@[q] == (if string_views(ids@).contains(orig[q].subscription_id@) {
                locked_subprocess(orig[q], *owner, now)
            } else {
                orig[q]
            }),
            out@ == locked_subprocesses(orig, string_views(ids@), *owner, now, i as int),
        decreases orig.len() - i,
    {
        let hit = crate::catch_events::lists_id(ids, &subs[i].subscription_id);
        if hit {
            let l = locked_subprocess_of(&subs[i], owner, now);
            let copy = locked_subprocess_of(&subs[i], owner, now);
            subs.set(i, l);
            out.push(copy);
        }
        i = i + 1;
    }
    out
}

/// Whether `w` holds the works of `target`, reordered stably by due time.
pub open spec fn in_due_order(w: Seq<TimerWork>, target: Seq<TimerWork>) -> bool {
    exists|p: Seq<int>| #[trigger] stably_sorted_by_due(w, target, p)
}

/// Whether this round takes a bounded selection of scheduled timers.
pub open spec fn bounded_round(cmd: AcquireTimerWorkCmd) -> bool {
    cmd.scheduled_timers_only && cmd.max_jobs is Some
}

/// How many candidates a round takes at most: its bound, else all of them.
pub open spec fn round_limit(cmd: AcquireTimerWorkCmd) -> int {
    if bounded_round(cmd) {
        cmd.max_jobs->0 as int
    } else {
        usize::MAX as int
    }
}

/// The candidate views one round selects from the stored rows and
/// the two kinds of subscriptions.
pub open spec fn round_selection(cmd: AcquireTimerWorkCmd, rows: Seq<RuntimeTimerJobState>, starts: Seq<TimerStartSubscription>,
    subs: Seq<EventSubprocessTimerSubscription>, now: i64) -> Seq<(int, Seq<char>, int)> {
    selected_views(
        runtime_candidates(rows, now, cmd.tenant_ids@, cmd.enabled_job_categories@, rows.len() as int),
        start_candidates(starts, now, starts.len() as int),
        subprocess_candidates(subs, now, subs.len() as int),
        round_limit(cmd),
        true,
    )
}

impl AcquireTimerWorkCmd {
    /// One acquisition round: when the coordinator lease (`lease`, as
    /// stored) is held by this owner and token, the due, unlocked candidates
    /// among the stored runtime jobs and the process start (`starts`) and
    /// event subprocess (`subs`) timer subscriptions are ordered by due time,
    /// id and kind, and the first `max_jobs` taken (all of them in a round
    /// without a bound, see `round_limit`); each taken runtime job is locked
    /// for the owner from `now` for the timer lock time, each taken
    /// subscription is locked from `now`, and the locked work is handed out
    /// sorted stably by due time. Without the lease nothing is taken.
    pub fn execute(
        &self,
        ctx: &mut CommandContext,
        lease: &Option<TimerCoordinatorLease>,
        starts: &mut Vec<TimerStartSubscription>,
        subs: &mut Vec<EventSubprocessTimerSubscription>,
    ) -> (r: Result<Vec<TimerWork>, FlowableError>)
        requires
            old(ctx).session.wf(),
            old(ctx).now_ms + timer_lock_ms(old(ctx).config.timer_lock_time_ms) <= i64::MAX,
        ensures
            final(ctx).session.wf(),
            final(ctx).events == old(ctx).events,
            final(ctx).config == old(ctx).config,
            final(ctx).now_ms == old(ctx).now_ms,
            !lease_held(*lease, self.owner_id@, self.fencing_token) ==> {
                &&& r matches Ok(w) && w@.len() == 0
                &&& final(ctx).session == old(ctx).session
                &&& final(starts)@ == old(starts)@
                &&& final(subs)@ == old(subs)@
            },
            lease_held(*lease, self.owner_id@, self.fencing_token) ==> {
                let now = old(ctx).now_ms;
                let expiry = (now + timer_lock_ms(old(ctx).config.timer_lock_time_ms)) as i64;
                let m = old(ctx).session.timer_jobs@;
                let sel = round_selection(*self, old(ctx).session.timer_jobs.rows@, old(starts)@, old(subs)@, now);
                let ids0 = ids_of_rank(sel, 0);
                let ids1 = ids_of_rank(sel, 1);
                let ids2 = ids_of_rank(sel, 2);
                &&& frame(old(ctx).session, final(ctx).session, set![StoreTable::TimerJobs])
                &&& final(ctx).session.timer_jobs@.dom() == m.dom()
                &&& forall|k: Seq<char>| #[trigger] m.contains_key(k) ==> final(ctx).session.timer_jobs@[k] == (
                    if ids0.contains(k) { locked_job(m[k], self.owner_id, now, expiry) } else { m[k] })
                &&& final(starts)@.len() == old(starts)@.len()
                &&& forall|i: int| 0 <= i < old(starts)@.len() ==> #[trigger] final(starts)@[i] == (
                    if ids1.contains(old(starts)@[i].id@) { locked_start(old(starts)@[i], self.owner_id, now) } else { old(starts)@[i] })
                &&& final(subs)@.len() == old(subs)@.len()
                &&& forall|i: int| 0 <= i < old(subs)@.len() ==> #[trigger] final(subs)@[i] == (
                    if ids2.contains(old(subs)@[i].subscription_id@) {
                        locked_subprocess(old(subs)@[i], self.owner_id, now)
                    } else {
                        old(subs)@[i]
                    })
                &&& r is Ok
                &&& in_due_order(r->Ok_0@, acquired_views(
                    locked_jobs(m, ids0, self.owner_id, now, expiry, ids0.len() as int),
                    locked_starts(old(starts)@, ids1, self.owner_id, now, old(starts)@.len() as int),
                    locked_subprocesses(old(subs)@, ids2, self.owner_id, now, old(subs)@.len() as int),
                ))
            },
    {
        if !lease_admits(lease, &self.owner_id, self.fencing_token) {
            return Ok(Vec::new());
        }
        let max_jobs = match self.selection_limit() {
            Some(m) => m,
            None => usize::MAX,
        };
        let now = ctx.now_ms;
        let lock_ms: i64 = if ctx.config.timer_lock_time_ms > 9223372036854775807u64 {
            9223372036854775807i64
        } else {
            ctx.config.timer_lock_time_ms as i64
        };
        let expiry = now + lock_ms;
        let runtime = collect_runtime_candidates(&ctx.session.timer_jobs.rows, now, &self.tenant_ids, &self.enabled_job_categories);
        let start_cands = collect_start_candidates(starts, now);
        let sub_cands = collect_subprocess_candidates(subs, now);
        let (ids0, ids1, ids2) = select_scheduled_timer_candidates(&runtime, &start_cands, &sub_cands, max_jobs,
            JobLockEligibility::UnlockedOnly);
        proof {
            assert(crate::timer_selection::string_views(ids0@) =~= string_views(ids0@));
            assert(crate::timer_selection::string_views(ids1@) =~= string_views(ids1@));
            assert(crate::timer_selection::string_views(ids2@) =~= string_views(ids2@));
        }
        let jobs = lock_runtime_jobs(ctx, &ids0, &self.owner_id, now, expiry);
        let locked_s = lock_starts(starts, &ids1, &self.owner_id, now);
        let locked_e = lock_subprocesses(subs, &ids2, &self.owner_id, now);
        proof {
            let sel = round_selection(*self, old(ctx).session.timer_jobs.rows@, old(starts)@, old(subs)@, now);
            assert(string_views(ids0@) == ids_of_rank(sel, 0));
            assert(string_views(ids0@).len() == ids0@.len());
            assert(expiry == (now + timer_lock_ms(old(ctx).config.timer_lock_time_ms)) as i64);
            assert(jobs@ == locked_jobs(old(ctx).session.timer_jobs@, ids_of_rank(sel, 0), self.owner_id, now, expiry,
                ids_of_rank(sel, 0).len() as int));
            assert(string_views(ids1@) == ids_of_rank(sel, 1));
            assert(string_views(ids2@) == ids_of_rank(sel, 2));
            assert(locked_s@ == locked_starts(old(starts)@, ids_of_rank(sel, 1), self.owner_id, now, old(starts)@.len() as int));
            assert(locked_e@ == locked_subprocesses(old(subs)@, ids_of_rank(sel, 2), self.owner_id, now, old(subs)@.len() as int));
        }
        let ghost target = acquired_views(jobs@, locked_s@, locked_e@);
        let works = assemble_acquired_timer_work(jobs, locked_s, locked_e);
        proof {
            let sel = round_selection(*self, old(ctx).session.timer_jobs.rows@, old(starts)@, old(subs)@, now);
            let stated = acquired_views(
                locked_jobs(old(ctx).session.timer_jobs@, ids_of_rank(sel, 0), self.owner_id, now, expiry,
                    ids_of_rank(sel, 0).len() as int),
                locked_starts(old(starts)@, ids_of_rank(sel, 1), self.owner_id, now, old(starts)@.len() as int),
                locked_subprocesses(old(subs)@, ids_of_rank(sel, 2), self.owner_id, now, old(subs)@.len() as int),
            );
            assert(target == stated);
            let p = choose|p: Seq<int>| #[trigger] stably_sorted_by_due(works@, target, p);
            assert(stably_sorted_by_due(works@, stated, p));
            assert(in_due_order(works@, stated));
        }
        Ok(works)
    }
}

/// Every runtime candidate of a round comes from a stored row that is a
/// scheduled timer (no job state, or the state `timer`) carrying a due time
/// not after `now`; rows in any other state (suspended, dead letter,
/// history, async) are never candidates.
pub proof fn runtime_candidates_are_due_timer_rows(
    rows: Seq<RuntimeTimerJobState>,
    now: i64,
    tenants: Seq<String>,
    categories: Seq<String>,
    n: int,
)
    requires
        0 <= n <= rows.len(),
    ensures
        forall|c: DueTimerCandidate| #[trigger] runtime_candidates(rows, now, tenants, categories, n).contains(c)
            ==> exists|j: int| {
                &&& 0 <= j < n
                &&& c.id == rows[j].timer_job_id
                &&& c.lock_owner == rows[j].lock_owner
                &&& c.due_time == rows[j].due_time
                &&& (rows[j].job_state is None || rows[j].job_state->0@ == "timer"@)
                &&& rows[j].due_time matches Some(d) && d <= now
            },
    decreases n,
{
    if n > 0 {
        runtime_candidates_are_due_timer_rows(rows, now, tenants, categories, n - 1);
        let prev = runtime_candidates(rows, now, tenants, categories, n - 1);
        let cur = runtime_candidates(rows, now, tenants, categories, n);
        assert forall|c: DueTimerCandidate| #[trigger] cur.contains(c) implies exists|j: int| {
            &&& 0 <= j < n
            &&& c.id == rows[j].timer_job_id
            &&& c.lock_owner == rows[j].lock_owner
            &&& c.due_time == rows[j].due_time
            &&& (rows[j].job_state is None || rows[j].job_state->0@ == "timer"@)
            &&& rows[j].due_time matches Some(d) && d <= now
        } by {
            if due_scheduled_timer(rows[n - 1], now, tenants, categories) && c == candidate_of_job(rows[n - 1]) {
                assert(0 <= n - 1 < n);
            } else {
                if due_scheduled_timer(rows[n - 1], now, tenants, categories) {
                    let k = choose|k: int| 0 <= k < cur.len() && cur[k] == c;
                    assert(k < prev.len());
                    assert(prev[k] == c);
                }
                assert(prev.contains(c));
            }
        }
    }
}

proof fn lemma_ids_of_rank_source(s: Seq<CandidateView>, rank: int, x: Seq<char>)
    requires
        ids_of_rank(s, rank).contains(x),
    ensures
        exists|k: int| 0 <= k < s.len() && (#[trigger] s[k]).1 == x && s[k].2 == rank,
    decreases s.len(),
{
    let rest = ids_of_rank(s.drop_last(), rank);
    if s.last().2 == rank && x == s.last().1 {
        assert(s[s.len() - 1] == s.last());
    } else {
        let all = ids_of_rank(s, rank);
        let i = choose|i: int| 0 <= i < all.len() && all[i] == x;
        if s.last().2 == rank {
            assert(i < rest.len());
            assert(rest[i] == x);
        }
        assert(rest.contains(x));
        lemma_ids_of_rank_source(s.drop_last(), rank, x);
        let k = choose|k: int| 0 <= k < s.drop_last().len() && (#[trigger] s.drop_last()[k]).1 == x
            && s.drop_last()[k].2 == rank;
        assert(s[k] == s.drop_last()[k]);
    }
}

proof fn lemma_eligible_source(src: Seq<DueTimerCandidate>, rank: int, unlocked_only: bool, v: CandidateView)
    requires
        eligible_views(src, rank, unlocked_only).contains(v),
    ensures
        v.2 == rank,
        exists|k: int| {
            &&& 0 <= k < src.len()
            &&& (#[trigger] src[k]).id@ == v.1
            &&& (unlocked_only ==> src[k].lock_owner is None)
        },
    decreases src.len(),
{
    let row = src.last();
    let rest = eligible_views(src.drop_last(), rank, unlocked_only);
    let all = eligible_views(src, rank, unlocked_only);
    let taken = row.due_time is Some && (!unlocked_only || row.lock_owner is None);
    if taken && v == (row.due_time->0 as int, row.id@, rank) {
        assert(src[src.len() - 1] == row);
    } else {
        let i = choose|i: int| 0 <= i < all.len() && all[i] == v;
        if taken {
            assert(i < rest.len());
            assert(rest[i] == v);
        }
        assert(rest.contains(v));
        lemma_eligible_source(src.drop_last(), rank, unlocked_only, v);
        let k = choose|k: int| {
            &&& 0 <= k < src.drop_last().len()
            &&& (#[trigger] src.drop_last()[k]).id@ == v.1
            &&& (unlocked_only ==> src.drop_last()[k].lock_owner is None)
        };
        assert(src[k] == src.drop_last()[k]);
    }
}

/// Every runtime row a round locks is a stored scheduled timer row (no job
/// state, or the state `timer`), due by `now` and not locked before: a row
/// that is suspended, dead-lettered, history, async, not yet due or held by
/// another owner is never acquired.
pub proof fn round_locks_only_due_unlocked_timer_rows(
    cmd: AcquireTimerWorkCmd,
    rows: Seq<RuntimeTimerJobState>,
    starts: Seq<TimerStartSubscription>,
    subs: Seq<EventSubprocessTimerSubscription>,
    now: i64,
    id: Seq<char>,
)
    requires
        unique_keys(rows),
        ids_of_rank(round_selection(cmd, rows, starts, subs, now), 0).contains(id),
    ensures
        rows_map(rows).contains_key(id),
        rows_map(rows)[id].job_state is None || rows_map(rows)[id].job_state->0@ == "timer"@,
        rows_map(rows)[id].due_time matches Some(d) && d <= now,
        rows_map(rows)[id].lock_owner is None,
{
    let rc = runtime_candidates(rows, now, cmd.tenant_ids@, cmd.enabled_job_categories@, rows.len() as int);
    let sc = start_candidates(starts, now, starts.len() as int);
    let ec = subprocess_candidates(subs, now, subs.len() as int);
    let e0 = eligible_views(rc, 0, true);
    let e1 = eligible_views(sc, 1, true);
    let e2 = eligible_views(ec, 2, true);
    let all = e0 + e1 + e2;
    let sorted = all.sort_by(candidate_order());
    let sel = round_selection(cmd, rows, starts, subs, now);
    lemma_ids_of_rank_source(sel, 0, id);
    let k = choose|k: int| 0 <= k < sel.len() && (#[trigger] sel[k]).1 == id && sel[k].2 == 0;
    let v = sel[k];
    assert(sorted.contains(v)) by {
        if round_limit(cmd) < sorted.len() {
            assert(sorted[k] == v);
        } else {
            assert(sorted[k] == v);
        }
    }
    lemma_candidate_order_total();
    all.lemma_sort_by_ensures(candidate_order());
    assert(all.contains(v));
    let a = choose|a: int| 0 <= a < all.len() && all[a] == v;
    if a >= e0.len() + e1.len() {
        assert(e2[a - e0.len() - e1.len()] == v);
        assert(e2.contains(v));
        lemma_eligible_source(ec, 2, true, v);
        assert(false);
    } else if a >= e0.len() {
        assert(e1[a - e0.len()] == v);
        assert(e1.contains(v));
        lemma_eligible_source(sc, 1, true, v);
        assert(false);
    }
    assert(e0[a] == v);
    assert(e0.contains(v));
    lemma_eligible_source(rc, 0, true, v);
    let q = choose|q: int| 0 <= q < rc.len() && (#[trigger] rc[q]).id@ == v.1 && rc[q].lock_owner is None;
    assert(rc.contains(rc[q]));
    runtime_candidates_are_due_timer_rows(rows, now, cmd.tenant_ids@, cmd.enabled_job_categories@, rows.len() as int);
    let j = choose|j: int| {
        &&& 0 <= j < rows.len()
        &&& rc[q].id == rows[j].timer_job_id
        &&& rc[q].lock_owner == rows[j].lock_owner
        &&& rc[q].due_time == rows[j].due_time
        &&& (rows[j].job_state is None || rows[j].job_state->0@ == "timer"@)
        &&& rows[j].due_time matches Some(d) && d <= now
    };
    lemma_index_of(rows, j);
    assert(rows_map(rows)[id] == rows[j]);
}

} // verus!
