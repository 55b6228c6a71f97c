//! The history cleanup job: exactly one timer job of the cleanup handler,
//! repeating on the configured cycle.
use vstd::prelude::*;
use crate::command::CommandContext;
use crate::entities::{opt_view, Keyed, RuntimeTimerJobState};
use crate::error::FlowableError;
use crate::ordering::{seq_le, str_le, lemma_seq_le_reflexive, lemma_seq_le_total, lemma_seq_le_transitive,
    lemma_seq_le_antisymmetric};
use crate::store::{frame, has_key, index_of, lemma_index_of, unique_keys, StoreTable};

verus! {

/// Whether a job is in the timer family: no state, the timer state or an empty one.
pub open spec fn timer_family(job: RuntimeTimerJobState) -> bool {
    match job.job_state {
        None => true,
        Some(s) => s@ == "timer"@ || s@.len() == 0,
    }
}

/// Whether a job is in the timer family.
pub fn is_timer_family(job: &RuntimeTimerJobState) -> (r: bool)
    ensures
        r == timer_family(*job),
{
    match &job.job_state {
        None => true,
        Some(s) => crate::ordering::str_eq(s.as_str(), "timer") || s.unicode_len() == 0,
    }
}

/// Whether a job is a history cleanup timer.
pub open spec fn is_cleanup_job(job: RuntimeTimerJobState) -> bool {
    opt_view(job.handler_type) == Some("bpmn-history-cleanup"@) && timer_family(job)
}

fn cleanup_job(job: &RuntimeTimerJobState) -> (r: bool)
    ensures
        r == is_cleanup_job(*job),
{
    let handler = match &job.handler_type {
        Some(h) => crate::ordering::str_eq(h.as_str(), "bpmn-history-cleanup"),
        None => false,
    };
    handler && is_timer_family(job)
}

/// Whether row `i` is the cleanup job with the smallest id.
pub open spec fn is_first_cleanup(rows: Seq<RuntimeTimerJobState>, i: int) -> bool {
    &&& 0 <= i < rows.len()
    &&& is_cleanup_job(rows[i])
    &&& forall|j: int| 0 <= j < rows.len() && is_cleanup_job(#[trigger] rows[j]) ==> seq_le(rows[i].timer_job_id@,
        rows[j].timer_job_id@)
}

/// Whether the first cleanup job already repeats on `cycle` (and is kept).
pub open spec fn cleanup_kept(rows: Seq<RuntimeTimerJobState>, cycle: Seq<char>) -> bool {
    exists|i: int| #[trigger] is_first_cleanup(rows, i) && opt_view(rows[i].time_cycle) == Some(cycle)
}

/// Whether the job with id `k` stays: it is no cleanup job, or it is the
/// first one and already repeats on `cycle`.
pub open spec fn cleanup_survivor(jobs: Map<Seq<char>, RuntimeTimerJobState>, rows: Seq<RuntimeTimerJobState>,
    cycle: Seq<char>, k: Seq<char>) -> bool {
    &&& jobs.contains_key(k)
    &&& !is_cleanup_job(jobs[k]) || exists|i: int| #[trigger] is_first_cleanup(rows, i) && rows[i].timer_job_id@ == k
        && opt_view(rows[i].time_cycle) == Some(cycle)
}

/// The jobs left once the surplus cleanup jobs are deleted.
pub open spec fn cleanup_survivors(jobs: Map<Seq<char>, RuntimeTimerJobState>, rows: Seq<RuntimeTimerJobState>,
    cycle: Seq<char>) -> Map<Seq<char>, RuntimeTimerJobState> {
    jobs.restrict(Set::new(|k: Seq<char>| cleanup_survivor(jobs, rows, cycle, k)))
}

/// A new cleanup timer: repeating on `cycle` with the cycle calendar, due at
/// `due`, exclusive, with the configured retries (never negative), its id
/// the handler name, a colon and a random suffix.
pub open spec fn new_cleanup_job(j: RuntimeTimerJobState, cycle: Seq<char>, due: i64, configured_retries: i32) -> bool {
    &&& exists|suffix: Seq<char>| j.timer_job_id@ == "bpmn-history-cleanup:"@ + suffix
    &&& j.process_instance_id@.len() == 0
    &&& j.execution_id@.len() == 0
    &&& j.activity_id@ == "bpmn-history-cleanup"@
    &&& opt_view(j.job_state) == Some("timer"@)
    &&& !j.is_boundary
    &&& j.attached_activity_id is None
    &&& !j.cancel_activity
    &&& j.time_duration is None
    &&& j.time_date is None
    &&& opt_view(j.time_cycle) == Some(cycle)
    &&& j.end_date is None
    &&& opt_view(j.calendar_name) == Some("cycle"@)
    &&& j.due_time == Some(due)
    &&& j.lock_owner is None
    &&& j.lock_time is None
    &&& j.lock_expiration_time is None
    &&& j.retries == Some(if configured_retries < 0 { 0 } else { configured_retries })
    &&& j.error_message is None
    &&& j.error_details is None
    &&& j.category is None
    &&& j.tenant_id is None
    &&& j.exclusive
    &&& opt_view(j.handler_type) == Some("bpmn-history-cleanup"@)
}

/// The index of the cleanup job with the smallest id.
fn first_cleanup_index(rows: &Vec<RuntimeTimerJobState>) -> (r: Option<usize>)
    ensures
        match r {
            Some(i) => is_first_cleanup(rows@, i as int),
            None => forall|j: int| 0 <= j < rows@.len() ==> !is_cleanup_job(#[trigger] rows@[j]),
        },
{
    let mut best: Option<usize> = None;
    let mut i: usize = 0;
    while i < rows.len()
        invariant
            0 <= i <= rows.len(),
            best is None ==> forall|j: int| 0 <= j < i ==> !is_cleanup_job(#[trigger] rows@[j]),
            best matches Some(b) ==> b < i && is_cleanup_job(rows@[b as int]) && forall|j: int| 0 <= j < i
                && is_cleanup_job(#[trigger] rows@[j]) ==> seq_le(rows@[b as int].timer_job_id@, rows@[j].timer_job_id@),
        decreases rows.len() - i,
    {
        if cleanup_job(&rows[i]) {
            let take = match best {
                None => true,
                Some(b) => !str_le(rows[b].timer_job_id.as_str(), rows[i].timer_job_id.as_str()),
            };
            proof {
                lemma_seq_le_reflexive(rows@[i as int].timer_job_id@);
                if let Some(b) = best {
                    lemma_seq_le_total(rows@[b as int].timer_job_id@, rows@[i as int].timer_job_id@);
                    if take {
                        assert forall|j: int| 0 <= j < i + 1 && is_cleanup_job(#[trigger] rows@[j]) implies seq_le(
                            rows@[i as int].timer_job_id@, rows@[j].timer_job_id@) by {
                            if j < i {
                                lemma_seq_le_transitive(rows@[i as int].timer_job_id@, rows@[b as int].timer_job_id@,
                                    rows@[j].timer_job_id@);
                            }
                        }
                    }
                }
            }
            if take {
                best = Some(i);
            }
        }
        i = i + 1;
    }
    best
}

/// Keeps exactly one history cleanup timer job.
#[derive(Debug)]
pub struct HandleHistoryCleanupTimerJobCmd {}

impl HandleHistoryCleanupTimerJobCmd {
    /// With `cycle` the configured cleaning cycle and `due` the first due
    /// time the cycle calendar gives for it (`None`: it gives none): when the
    /// cleanup job with the smallest id already repeats on `cycle` it stays
    /// and every other cleanup job is deleted; otherwise every cleanup job is
    /// deleted and a new one is scheduled, which fails when there is no due
    /// time.
    pub fn run(&self, ctx: &mut CommandContext, cycle: &String, due: Option<i64>) -> (r: Result<(), FlowableError>)
        requires
            old(ctx).session.wf(),
        ensures
            final(ctx).session.wf(),
            ({
                let rows = old(ctx).session.timer_jobs.rows@;
                let jobs = old(ctx).session.timer_jobs@;
                &&& r is Err <==> !cleanup_kept(rows, cycle@) && due is None
                &&& r matches Err(e) ==> e is ExecutionError && e->ExecutionError_0@ == "History cleaning time cycle '"@
                    + cycle@ + "' could not resolve a due date"@ && final(ctx).session == old(ctx).session
                &&& r is Ok ==> frame(old(ctx).session, final(ctx).session, set![StoreTable::TimerJobs, StoreTable::JobTypes])
                &&& r is Ok && cleanup_kept(rows, cycle@) ==> final(ctx).session.timer_jobs@ == cleanup_survivors(jobs, rows, cycle@)
                &&& r is Ok && !cleanup_kept(rows, cycle@) ==> exists|j: RuntimeTimerJobState| #[trigger] new_cleanup_job(j, cycle@,
                    due->0, old(ctx).config.number_of_retries) && final(ctx).session.timer_jobs@ == cleanup_survivors(jobs, rows, cycle@).insert(
                    j.timer_job_id@, j)
            }),
    {
        let ghost rows = ctx.session.timer_jobs.rows@;
        let ghost jobs = ctx.session.timer_jobs@;
        let first = first_cleanup_index(&ctx.session.timer_jobs.rows);
        let kept: Option<usize> = match first {
            Some(i) => {
                let same = match &ctx.session.timer_jobs.rows[i].time_cycle {
                    Some(c) => c.eq(cycle),
                    None => false,
                };
                if same { Some(i) } else { None }
            },
            None => None,
        };
        proof {
            if cleanup_kept(rows, cycle@) {
                let i = choose|i: int| #[trigger] is_first_cleanup(rows, i) && opt_view(rows[i].time_cycle) == Some(cycle@);
                lemma_first_unique(rows, i, first->0 as int);
            }
        }
        assert(kept is Some <==> cleanup_kept(rows, cycle@));
        if kept.is_none() && due.is_none() {
            let mut m = crate::text::cat3("History cleaning time cycle '", cycle.as_str(), "' could not resolve a due date");
            return Err(FlowableError::ExecutionError(m));
        }
        // the ids to delete: every cleanup job but the kept one
        let mut doomed: Vec<String> = Vec::new();
        let mut i: usize = 0;
        while i < ctx.session.timer_jobs.rows.len()
            invariant
                0 <= i <= rows.len(),
                ctx.session.timer_jobs.rows@ == rows,
                forall|x: Seq<char>| #[trigger] crate::command::contains_view(doomed@, x) <==> exists|j: int| 0 <= j < i
                    && doomed_row(rows, kept, j) && rows[j].timer_job_id@ == x,
            decreases rows.len() - i,
        {
            let row = &ctx.session.timer_jobs.rows[i];
            let is_kept = match kept {
                Some(k) => k == i,
                None => false,
            };
            let ghost before = doomed@;
            let pushed = cleanup_job(row) && !is_kept;
            assert(pushed == doomed_row(rows, kept, i as int));
            if pushed {
                doomed.push(row.timer_job_id.clone());
                assert(doomed@ == before.push(doomed@.last()));
                assert(doomed@.last()@ == rows[i as int].timer_job_id@);
            } else {
                assert(doomed@ == before);
            }
            proof {
                assert forall|x: Seq<char>| #[trigger] crate::command::contains_view(doomed@, x) <==> exists|j: int| 0 <= j < i + 1
                    && doomed_row(rows, kept, j) && rows[j].timer_job_id@ == x by {
                    if crate::command::contains_view(doomed@, x) {
                        let p = choose|p: int| 0 <= p < doomed@.len() && (#[trigger] doomed@[p])@ == x;
                        if p < before.len() {
                            assert(before[p] == doomed@[p]);
                            assert(crate::command::contains_view(before, x));
                        }
                    }
                    if exists|j: int| 0 <= j < i + 1 && doomed_row(rows, kept, j) && rows[j].timer_job_id@ == x {
                        let j = choose|j: int| 0 <= j < i + 1 && doomed_row(rows, kept, j) && rows[j].timer_job_id@ == x;
                        if j < i {
                            assert(crate::command::contains_view(before, x));
                            let p = choose|p: int| 0 <= p < before.len() && (#[trigger] before[p])@ == x;
                            assert(doomed@[p] == before[p]);
                        } else {
                            assert(doomed@[doomed@.len() - 1]@ == x);
                        }
                    }
                }
            }
            i = i + 1;
        }
        let mut k: usize = 0;
        while k < doomed.len()
            invariant
                0 <= k <= doomed.len(),
                ctx.session.wf(),
                frame(old(ctx).session, ctx.session, set![StoreTable::TimerJobs, StoreTable::JobTypes]),
                ctx.config == old(ctx).config,
                forall|x: Seq<char>| #[trigger] ctx.session.timer_jobs@.contains_key(x) <==> jobs.contains_key(x)
                    && !crate::command::contains_view(doomed@.take(k as int), x),
                forall|x: Seq<char>| #[trigger] ctx.session.timer_jobs@.contains_key(x) ==> ctx.session.timer_jobs@[x] == jobs[x],
            decreases doomed.len() - k,
        {
            let ghost prev = ctx.session.timer_jobs@;
            ctx.session.delete_timer_job_state(&doomed[k]);
            proof {
                assert forall|x: Seq<char>| #[trigger] crate::command::contains_view(doomed@.take(k + 1), x)
                    <==> crate::command::contains_view(doomed@.take(k as int), x) || doomed@[k as int]@ == x by {
                    if crate::command::contains_view(doomed@.take(k + 1), x) {
                        let p = choose|p: int| 0 <= p < k + 1 && (#[trigger] doomed@.take(k + 1)[p])@ == x;
                        if p < k {
                            assert(doomed@.take(k as int)[p] == doomed@.take(k + 1)[p]);
                        }
                    }
                    if crate::command::contains_view(doomed@.take(k as int), x) {
                        let p = choose|p: int| 0 <= p < k && (#[trigger] doomed@.take(k as int)[p])@ == x;
                        assert(doomed@.take(k + 1)[p] == doomed@.take(k as int)[p]);
                    }
                    if doomed@[k as int]@ == x {
                        assert(doomed@.take(k + 1)[k as int] == doomed@[k as int]);
                    }
                }
            }
            k = k + 1;
        }
        proof {
            assert(doomed@.take(doomed@.len() as int) =~= doomed@);
            lemma_survivors(old(ctx).session.timer_jobs.rows@, jobs, cycle@, kept, doomed@, ctx.session.timer_jobs@);
        }
        if kept.is_none() {
            let due_time = match due {
                Some(d) => d,
                None => 0,
            };
            let suffix = crate::outside::new_uuid();
            let mut job = RuntimeTimerJobState::new(
                crate::text::cat("bpmn-history-cleanup:", suffix.as_str()),
                String::new(),
                String::new(),
                String::from_str("bpmn-history-cleanup"),
            );
            proof {
                reveal_strlit("timer");
                reveal_strlit("cycle");
                reveal_strlit("bpmn-history-cleanup");
            }
            job.job_state = Some(String::from_str("timer"));
            job.time_cycle = Some(cycle.clone());
            job.calendar_name = Some(String::from_str("cycle"));
            job.due_time = Some(due_time);
            job.retries = crate::timer_util::default_timer_retries(ctx);
            job.exclusive = true;
            job.handler_type = Some(String::from_str("bpmn-history-cleanup"));
            let ghost j = job;
            proof {
                assert(j.timer_job_id@ == "bpmn-history-cleanup:"@ + suffix@);
            }
            let ghost mid = ctx.session;
            ctx.session.insert_timer_job_state(job);
            proof {
                assert(new_cleanup_job(j, cycle@, due->0, old(ctx).config.number_of_retries));
                assert(ctx.session.timer_jobs@ == cleanup_survivors(jobs, rows, cycle@).insert(j.timer_job_id@, j));
                assert(frame(mid, ctx.session, set![StoreTable::TimerJobs]));
                assert(frame(old(ctx).session, ctx.session, set![StoreTable::TimerJobs, StoreTable::JobTypes]));
            }
        } else {
            assert(ctx.session.timer_jobs@ == cleanup_survivors(jobs, rows, cycle@));
        }
        Ok(())
    }
}

/// Whether row `j` is deleted: a cleanup job that is not the kept one.
pub open spec fn doomed_row(rows: Seq<RuntimeTimerJobState>, kept: Option<usize>, j: int) -> bool {
    is_cleanup_job(rows[j]) && !(kept is Some && kept->0 as int == j)
}

proof fn lemma_first_unique(rows: Seq<RuntimeTimerJobState>, i: int, k: int)
    requires
        unique_keys(rows),
        is_first_cleanup(rows, i),
        is_first_cleanup(rows, k),
    ensures
        i == k,
{
    lemma_seq_le_antisymmetric(rows[i].timer_job_id@, rows[k].timer_job_id@);
    if i != k {
        assert(rows[i].timer_job_id@ != rows[k].timer_job_id@);
    }
}

proof fn lemma_survivors(rows: Seq<RuntimeTimerJobState>, jobs: Map<Seq<char>, RuntimeTimerJobState>, cycle: Seq<char>,
    kept: Option<usize>, doomed: Seq<String>, after: Map<Seq<char>, RuntimeTimerJobState>)
    requires
        unique_keys(rows),
        jobs == crate::store::rows_map(rows),
        kept is Some <==> cleanup_kept(rows, cycle),
        kept matches Some(i) ==> is_first_cleanup(rows, i as int) && opt_view(rows[i as int].time_cycle) == Some(cycle),
        forall|x: Seq<char>| #[trigger] crate::command::contains_view(doomed, x) <==> exists|j: int| 0 <= j < rows.len()
            && doomed_row(rows, kept, j) && rows[j].timer_job_id@ == x,
        forall|x: Seq<char>| #[trigger] after.contains_key(x) <==> jobs.contains_key(x) && !crate::command::contains_view(doomed, x),
        forall|x: Seq<char>| #[trigger] after.contains_key(x) ==> after[x] == jobs[x],
    ensures
        after == cleanup_survivors(jobs, rows, cycle),
{
    let s = cleanup_survivors(jobs, rows, cycle);
    assert forall|x: Seq<char>| after.contains_key(x) <==> #[trigger] s.contains_key(x) by {
        if jobs.contains_key(x) {
            let ix = index_of(rows, x);
            assert(has_key(rows, x));
            lemma_index_of(rows, ix);
            assert(jobs[x] == rows[ix]);
            if crate::command::contains_view(doomed, x) {
                let j = choose|j: int| 0 <= j < rows.len() && doomed_row(rows, kept, j) && rows[j].timer_job_id@ == x;
                assert(rows[j].key() == rows[ix].key());
                assert(j == ix);
                if cleanup_survivor(jobs, rows, cycle, x) {
                    let i = choose|i: int| #[trigger] is_first_cleanup(rows, i) && rows[i].timer_job_id@ == x
                        && opt_view(rows[i].time_cycle) == Some(cycle);
                    assert(rows[i].key() == rows[ix].key());
                    lemma_first_unique(rows, i, kept->0 as int);
                }
            } else {
                if is_cleanup_job(jobs[x]) {
                    if !(kept is Some && kept->0 as int == ix) {
                        assert(doomed_row(rows, kept, ix));
                        assert(false);
                    }
                    assert(is_first_cleanup(rows, ix));
                    assert(cleanup_survivor(jobs, rows, cycle, x));
                }
            }
        }
    }
    assert(after =~= s);
}

/// Exactly one cleanup job remains: whatever the store held, the jobs left
/// by a successful run hold one history cleanup timer, and only one.
pub proof fn law_one_cleanup_job_remains(jobs: Map<Seq<char>, RuntimeTimerJobState>, rows: Seq<RuntimeTimerJobState>,
    cycle: Seq<char>, after: Map<Seq<char>, RuntimeTimerJobState>, new_job: Option<RuntimeTimerJobState>, due: i64,
    configured_retries: i32)
    requires
        unique_keys(rows),
        jobs == crate::store::rows_map(rows),
        cleanup_kept(rows, cycle) ==> after == cleanup_survivors(jobs, rows, cycle),
        !cleanup_kept(rows, cycle) ==> (new_job matches Some(j) && new_cleanup_job(j, cycle, due, configured_retries)
            && after == cleanup_survivors(jobs, rows, cycle).insert(j.timer_job_id@, j)),
    ensures
        exists|k: Seq<char>| #[trigger] after.contains_key(k) && is_cleanup_job(after[k]),
        forall|a: Seq<char>, b: Seq<char>| #[trigger] after.contains_key(a) && #[trigger] after.contains_key(b)
            && is_cleanup_job(after[a]) && is_cleanup_job(after[b]) ==> a == b,
{
    let s = cleanup_survivors(jobs, rows, cycle);
    // every surviving cleanup job is the kept first one
    assert forall|a: Seq<char>| #[trigger] s.contains_key(a) && is_cleanup_job(s[a]) implies cleanup_kept(rows, cycle)
        && exists|i: int| #[trigger] is_first_cleanup(rows, i) && rows[i].timer_job_id@ == a by {
        assert(cleanup_survivor(jobs, rows, cycle, a));
        let i = choose|i: int| #[trigger] is_first_cleanup(rows, i) && rows[i].timer_job_id@ == a
            && opt_view(rows[i].time_cycle) == Some(cycle);
        assert(is_first_cleanup(rows, i));
    }
    if cleanup_kept(rows, cycle) {
        let i = choose|i: int| #[trigger] is_first_cleanup(rows, i) && opt_view(rows[i].time_cycle) == Some(cycle);
        let k = rows[i].timer_job_id@;
        lemma_index_of(rows, i);
        assert(jobs.contains_key(k) && jobs[k] == rows[i]);
        assert(cleanup_survivor(jobs, rows, cycle, k));
        assert(after.contains_key(k) && is_cleanup_job(after[k]));
        assert forall|a: Seq<char>, b: Seq<char>| #[trigger] after.contains_key(a) && #[trigger] after.contains_key(b)
            && is_cleanup_job(after[a]) && is_cleanup_job(after[b]) implies a == b by {
            let ia = choose|ia: int| #[trigger] is_first_cleanup(rows, ia) && rows[ia].timer_job_id@ == a;
            let ib = choose|ib: int| #[trigger] is_first_cleanup(rows, ib) && rows[ib].timer_job_id@ == b;
            lemma_first_unique(rows, ia, ib);
        }
    } else {
        let j = new_job->0;
        assert(timer_family(j));
        assert(after.contains_key(j.timer_job_id@) && is_cleanup_job(after[j.timer_job_id@]));
        assert forall|a: Seq<char>, b: Seq<char>| #[trigger] after.contains_key(a) && #[trigger] after.contains_key(b)
            && is_cleanup_job(after[a]) && is_cleanup_job(after[b]) implies a == b by {
            if a != j.timer_job_id@ {
                assert(s.contains_key(a) && s[a] == after[a]);
            }
            if b != j.timer_job_id@ {
                assert(s.contains_key(b) && s[b] == after[b]);
            }
        }
    }
}

} // verus!
