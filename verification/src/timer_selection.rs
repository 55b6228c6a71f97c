//! Choosing which due scheduled timers one acquisition round takes: every
//! due candidate of the three timer families, ordered by due time, then id,
//! then family, and cut at the round's maximum.
use vstd::prelude::*;
use vstd::relations::{sorted_by, total_ordering};
use vstd::multiset::Multiset;
use crate::ordering::{seq_le, str_le, lemma_seq_le_reflexive, lemma_seq_le_antisymmetric,
    lemma_seq_le_transitive, lemma_seq_le_total};

verus! {

broadcast use vstd::seq_lib::group_to_multiset_ensures;

/// The family a scheduled timer candidate belongs to.
#[derive(Clone, Copy, Debug, PartialEq, Eq, Structural)]
pub enum ScheduledTimerCandidateKind {
    RuntimeTimer,
    ProcessStart,
    EventSubprocess,
}

/// Tie-break rank of a family: runtime timers first, then process start
/// timers, then event subprocess timers.
pub open spec fn kind_rank(k: ScheduledTimerCandidateKind) -> int {
    match k {
        ScheduledTimerCandidateKind::RuntimeTimer => 0,
        ScheduledTimerCandidateKind::ProcessStart => 1,
        ScheduledTimerCandidateKind::EventSubprocess => 2,
    }
}

impl ScheduledTimerCandidateKind {
    pub fn rank(&self) -> (r: u8)
        ensures
            r == kind_rank(*self),
    {
        match self {
            ScheduledTimerCandidateKind::RuntimeTimer => 0,
            ScheduledTimerCandidateKind::ProcessStart => 1,
            ScheduledTimerCandidateKind::EventSubprocess => 2,
        }
    }
}

/// A due timer row as the store's finder reports it.
#[derive(Debug)]
pub struct DueTimerCandidate {
    pub id: String,
    pub lock_owner: Option<String>,
    pub due_time: Option<i64>,
}

/// Which lock states a candidate may be in.
#[derive(Clone, Copy, Debug, PartialEq, Eq, Structural)]
pub enum JobLockEligibility {
    Any,
    UnlockedOnly,
}

/// A candidate ready for ordering.
#[derive(Debug)]
pub struct ScheduledTimerCandidate {
    pub due_time: i64,
    pub stable_id: String,
    pub kind: ScheduledTimerCandidateKind,
}

/// A candidate as the order sees it: due time, id and family rank.
pub type CandidateView = (int, Seq<char>, int);

pub open spec fn candidate_view(c: ScheduledTimerCandidate) -> CandidateView {
    (c.due_time as int, c.stable_id@, kind_rank(c.kind))
}

pub open spec fn candidate_views(s: Seq<ScheduledTimerCandidate>) -> Seq<CandidateView> {
    s.map_values(|c: ScheduledTimerCandidate| candidate_view(c))
}

/// The order candidates are taken in: earlier due time, then smaller id,
/// then lower family rank.
pub open spec fn candidate_le(x: CandidateView, y: CandidateView) -> bool {
    ||| x.0 < y.0
    ||| (x.0 == y.0 && seq_le(x.1, y.1) && x.1 != y.1)
    ||| (x.0 == y.0 && x.1 == y.1 && x.2 <= y.2)
}

pub open spec fn candidate_order() -> spec_fn(CandidateView, CandidateView) -> bool {
    |x: CandidateView, y: CandidateView| candidate_le(x, y)
}

pub proof fn lemma_candidate_order_total()
    ensures
        total_ordering(candidate_order()),
{
    let r = candidate_order();
    assert forall|x: CandidateView| #[trigger] r(x, x) by {
        lemma_seq_le_reflexive(x.1);
    }
    assert forall|x: CandidateView, y: CandidateView| #[trigger] r(x, y) && #[trigger] r(y, x)
        implies x == y by {
        if x.0 == y.0 && seq_le(x.1, y.1) && seq_le(y.1, x.1) {
            lemma_seq_le_antisymmetric(x.1, y.1);
        }
        if x.0 == y.0 && x.1 != y.1 && seq_le(x.1, y.1) {
            if seq_le(y.1, x.1) {
                lemma_seq_le_antisymmetric(x.1, y.1);
            }
        }
    }
    assert forall|x: CandidateView, y: CandidateView, z: CandidateView|
        #[trigger] r(x, y) && #[trigger] r(y, z) implies r(x, z) by {
        if x.0 == y.0 && y.0 == z.0 {
            if seq_le(x.1, y.1) && seq_le(y.1, z.1) {
                lemma_seq_le_transitive(x.1, y.1, z.1);
                if x.1 == z.1 {
                    lemma_seq_le_antisymmetric(x.1, y.1);
                }
            }
        }
    }
    assert forall|x: CandidateView, y: CandidateView| #[trigger] r(x, y) || #[trigger] r(y, x) by {
        lemma_seq_le_total(x.1, y.1);
    }
}

/// The candidates a source contributes: its rows that carry a due time and,
/// for `UnlockedOnly`, no lock owner; in the source's order.
pub open spec fn eligible_views(
    src: Seq<DueTimerCandidate>,
    rank: int,
    unlocked_only: bool,
) -> Seq<CandidateView>
    decreases src.len(),
{
    if src.len() == 0 {
        Seq::empty()
    } else {
        let row = src.last();
        let rest = eligible_views(src.drop_last(), rank, unlocked_only);
        if row.due_time is Some && (!unlocked_only || row.lock_owner is None) {
            rest.push((row.due_time->0 as int, row.id@, rank))
        } else {
            rest
        }
    }
}

/// The ids of the family of rank `rank` among `s`, in order.
pub open spec fn ids_of_rank(s: Seq<CandidateView>, rank: int) -> Seq<Seq<char>>
    decreases s.len(),
{
    if s.len() == 0 {
        Seq::empty()
    } else {
        let rest = ids_of_rank(s.drop_last(), rank);
        if s.last().2 == rank {
            rest.push(s.last().1)
        } else {
            rest
        }
    }
}

pub open spec fn string_views(v: Seq<String>) -> Seq<Seq<char>> {
    v.map_values(|s: String| s@)
}

/// All candidates of one round, in order, cut at `max_jobs`.
pub open spec fn selected_views(
    runtime_timers: Seq<DueTimerCandidate>,
    process_starts: Seq<DueTimerCandidate>,
    event_subprocesses: Seq<DueTimerCandidate>,
    max_jobs: int,
    unlocked_only: bool,
) -> Seq<CandidateView> {
    let all = eligible_views(runtime_timers, 0, unlocked_only) + eligible_views(
        process_starts,
        1,
        unlocked_only,
    ) + eligible_views(event_subprocesses, 2, unlocked_only);
    let sorted = all.sort_by(candidate_order());
    if max_jobs < sorted.len() {
        sorted.take(max_jobs)
    } else {
        sorted
    }
}

fn collect_eligible(
    out: &mut Vec<ScheduledTimerCandidate>,
    src: &Vec<DueTimerCandidate>,
    kind: ScheduledTimerCandidateKind,
    unlocked_only: bool,
)
    ensures
        candidate_views(final(out)@) == candidate_views(old(out)@) + eligible_views(
            src@,
            kind_rank(kind),
            unlocked_only,
        ),
{
    let ghost base = candidate_views(out@);
    let mut i: usize = 0;
    while i < src.len()
        invariant
            0 <= i <= src.len(),
            candidate_views(out@) == base + eligible_views(src@.take(i as int), kind_rank(kind), unlocked_only),
        decreases src.len() - i,
    {
        let row = &src[i];
        let ghost out_before = out@;
        assert(src@.take(i + 1).drop_last() =~= src@.take(i as int));
        assert(src@.take(i + 1).last() == src@[i as int]);
        if let Some(due) = row.due_time {
            if !unlocked_only || row.lock_owner.is_none() {
                let c = ScheduledTimerCandidate { due_time: due, stable_id: row.id.clone(), kind };
                out.push(c);
            }
        }
        proof {
            if out@.len() > out_before.len() {
                assert(out@ == out_before.push(out@.last()));
                assert(candidate_views(out@) =~= candidate_views(out_before).push(candidate_view(out@.last())));
            }
            assert(candidate_views(out@) =~= base + eligible_views(
                src@.take(i + 1),
                kind_rank(kind),
                unlocked_only,
            ));
        }
        i = i + 1;
    }
    assert(src@.take(src.len() as int) =~= src@);
}

fn candidate_le_exec(x: &ScheduledTimerCandidate, y: &ScheduledTimerCandidate) -> (r: bool)
    ensures
        r == candidate_le(candidate_view(*x), candidate_view(*y)),
{
    if x.due_time < y.due_time {
        return true;
    }
    if x.due_time > y.due_time {
        return false;
    }
    let le = str_le(x.stable_id.as_str(), y.stable_id.as_str());
    let ge = str_le(y.stable_id.as_str(), x.stable_id.as_str());
    proof {
        if le && ge {
            lemma_seq_le_antisymmetric(x.stable_id@, y.stable_id@);
        }
        if x.stable_id@ == y.stable_id@ {
            lemma_seq_le_reflexive(x.stable_id@);
        }
    }
    if le && !ge {
        return true;
    }
    if !le {
        return false;
    }
    x.kind.rank() <= y.kind.rank()
}

fn sort_candidates(v: Vec<ScheduledTimerCandidate>) -> (r: Vec<ScheduledTimerCandidate>)
    ensures
        candidate_views(r@) == candidate_views(v@).sort_by(candidate_order()),
{
    proof {
        lemma_candidate_order_total();
    }
    let ghost leq = candidate_order();
    let mut r: Vec<ScheduledTimerCandidate> = Vec::new();
    let mut v = v;
    let ghost orig = candidate_views(v@);
    assert(candidate_views(r@) =~= Seq::<CandidateView>::empty());
    while v.len() > 0
        invariant
            total_ordering(leq),
            leq == candidate_order(),
            sorted_by(candidate_views(r@), leq),
            candidate_views(r@).to_multiset().add(candidate_views(v@).to_multiset())
                == orig.to_multiset(),
        decreases v.len(),
    {
        let ghost vold = candidate_views(v@);
        let x = v.pop().unwrap();
        let ghost vx = candidate_view(x);
        proof {
            assert(vold =~= candidate_views(v@).push(vx));
        }
        let mut p: usize = 0;
        while p < r.len() && candidate_le_exec(&r[p], &x)
            invariant
                0 <= p <= r.len(),
                forall|j: int| 0 <= j < p ==> candidate_le(candidate_view(#[trigger] r@[j]), vx),
                vx == candidate_view(x),
            decreases r.len() - p,
        {
            p = p + 1;
        }
        let ghost before = candidate_views(r@);
        proof {
            if p < r.len() {
                assert(!candidate_le(before[p as int], vx));
                assert(leq(before[p as int], vx) || leq(vx, before[p as int]));
            }
        }
        r.insert(p, x);
        proof {
            let after = candidate_views(r@);
            assert(after =~= before.insert(p as int, vx));
            assert forall|i: int, j: int| 0 <= i < j < after.len() implies #[trigger] leq(
                after[i],
                after[j],
            ) by {
                if i < p && j == p {
                    assert(after[i] == before[i]);
                    assert(candidate_le(candidate_view(r@[i]), vx));
                } else if i == p && j > p {
                    assert(after[j] == before[j - 1]);
                    assert(leq(vx, before[p as int]));
                    if j - 1 > p {
                        assert(leq(before[p as int], before[j - 1]));
                    }
                } else if j < p {
                    assert(after[i] == before[i] && after[j] == before[j]);
                } else if i < p && j > p {
                    assert(after[i] == before[i] && after[j] == before[j - 1]);
                } else {
                    assert(after[i] == before[i - 1] && after[j] == before[j - 1]);
                }
            }
            vstd::seq_lib::to_multiset_insert(before, p as int, vx);
            assert(after.to_multiset() =~= before.to_multiset().insert(vx));
            assert(vold.to_multiset() =~= candidate_views(v@).to_multiset().insert(vx));
            assert(after.to_multiset().add(candidate_views(v@).to_multiset()) =~= orig.to_multiset());
        }
    }
    proof {
        assert(candidate_views(v@).to_multiset() =~= Multiset::empty());
        assert(candidate_views(r@).to_multiset() =~= orig.to_multiset());
        orig.lemma_sort_by_ensures(leq);
        vstd::seq_lib::lemma_sorted_unique(candidate_views(r@), orig.sort_by(leq), leq);
    }
    r
}

/// The ids of the due scheduled timers one round takes, per family
/// (runtime timers, process start timers, event subprocess timers): the
/// eligible candidates of all three sources ordered by due time, id and
/// family, of which the first `max_jobs` are taken.
pub fn select_scheduled_timer_candidates(
    runtime_timers: &Vec<DueTimerCandidate>,
    process_starts: &Vec<DueTimerCandidate>,
    event_subprocesses: &Vec<DueTimerCandidate>,
    max_jobs: usize,
    eligibility: JobLockEligibility,
) -> (r: (Vec<String>, Vec<String>, Vec<String>))
    ensures
        string_views(r.0@) == ids_of_rank(selected_views(runtime_timers@, process_starts@,
            event_subprocesses@, max_jobs as int, eligibility == JobLockEligibility::UnlockedOnly), 0),
        string_views(r.1@) == ids_of_rank(selected_views(runtime_timers@, process_starts@,
            event_subprocesses@, max_jobs as int, eligibility == JobLockEligibility::UnlockedOnly), 1),
        string_views(r.2@) == ids_of_rank(selected_views(runtime_timers@, process_starts@,
            event_subprocesses@, max_jobs as int, eligibility == JobLockEligibility::UnlockedOnly), 2),
{
    let unlocked_only = match eligibility {
        JobLockEligibility::UnlockedOnly => true,
        JobLockEligibility::Any => false,
    };
    let mut candidates: Vec<ScheduledTimerCandidate> = Vec::new();
    assert(candidate_views(candidates@) =~= Seq::<CandidateView>::empty());
    collect_eligible(&mut candidates, runtime_timers, ScheduledTimerCandidateKind::RuntimeTimer, unlocked_only);
    collect_eligible(&mut candidates, process_starts, ScheduledTimerCandidateKind::ProcessStart, unlocked_only);
    collect_eligible(&mut candidates, event_subprocesses, ScheduledTimerCandidateKind::EventSubprocess, unlocked_only);
    let sorted = sort_candidates(candidates);
    let ghost sel = selected_views(runtime_timers@, process_starts@, event_subprocesses@, max_jobs as int, unlocked_only);
    let limit = if max_jobs < sorted.len() { max_jobs } else { sorted.len() };
    proof {
        assert(sel =~= candidate_views(sorted@).take(limit as int));
    }
    let mut runtime_timer_ids: Vec<String> = Vec::new();
    let mut process_start_ids: Vec<String> = Vec::new();
    let mut event_subprocess_ids: Vec<String> = Vec::new();
    let mut k: usize = 0;
    while k < limit
        invariant
            0 <= k <= limit <= sorted.len(),
            sel == candidate_views(sorted@).take(limit as int),
            string_views(runtime_timer_ids@) == ids_of_rank(sel.take(k as int), 0),
            string_views(process_start_ids@) == ids_of_rank(sel.take(k as int), 1),
            string_views(event_subprocess_ids@) == ids_of_rank(sel.take(k as int), 2),
        decreases limit - k,
    {
        let c = &sorted[k];
        let ghost pre = sel.take(k as int);
        proof {
            assert(sel.take(k + 1).drop_last() =~= pre);
            assert(sel.take(k + 1).last() == candidate_view(*c));
        }
        match c.kind {
            ScheduledTimerCandidateKind::RuntimeTimer => {
                runtime_timer_ids.push(c.stable_id.clone());
            },
            ScheduledTimerCandidateKind::ProcessStart => {
                process_start_ids.push(c.stable_id.clone());
            },
            ScheduledTimerCandidateKind::EventSubprocess => {
                event_subprocess_ids.push(c.stable_id.clone());
            },
        }
        proof {
            assert(string_views(runtime_timer_ids@) =~= ids_of_rank(sel.take(k + 1), 0));
            assert(string_views(process_start_ids@) =~= ids_of_rank(sel.take(k + 1), 1));
            assert(string_views(event_subprocess_ids@) =~= ids_of_rank(sel.take(k + 1), 2));
        }
        k = k + 1;
    }
    proof {
        assert(sel.take(limit as int) =~= sel);
    }
    (runtime_timer_ids, process_start_ids, event_subprocess_ids)
}

} // verus!
