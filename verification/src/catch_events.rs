//! Leaving an intermediate catch event: which waiting execution a trigger
//! reaches, and which sibling branches an event-based gateway cancels when
//! one of its events fires.
use vstd::prelude::*;
use crate::entities::{Duplicate, Execution, RuntimeTimerJobState};
use vstd::seq_lib::lemma_seq_contains_after_push;
use crate::error::FlowableError;
use crate::execution_tree::string_views;
use crate::ordering::{lemma_seq_le_antisymmetric, lemma_seq_le_reflexive, lemma_seq_le_total, lemma_seq_le_transitive, seq_le, str_eq, str_le};
use crate::store::{frame, index_of, lemma_index_of, RuntimeStore, StoreTable};
use crate::boundary::{opt_model, EventRefModel};
use crate::events::{EventSubscriptionKind, RuntimeEventWaitState};
use crate::triggers::{
    find_waiting_event_intermediate_catch_execution, opt_wait, require_active_execution, waiting_catch_spec,
    TriggerEventIntermediateCatchCmd, TriggerIntermediateCatchEventCmd, TriggerTimerIntermediateCatchEventCmd,
};

verus! {

/// What the engine reads of a flow element of a deployed process.
#[derive(Debug, Clone, Copy, PartialEq, Eq, Structural)]
pub enum FlowElementKind {
    IntermediateCatchEvent { event_definition_count: usize },
    EventBasedGateway,
    Other,
}

/// A flow element of the main process of a deployed definition.
#[derive(Debug)]
pub struct DeployedFlowElement {
    pub process_definition_id: String,
    pub element_id: String,
    pub kind: FlowElementKind,
}

/// The kind of the first of the first `n` elements deployed as element `a`
/// of definition `d`.
pub open spec fn element_kind_upto(elements: Seq<DeployedFlowElement>, d: Seq<char>, a: Seq<char>, n: int) -> Option<
    FlowElementKind,
>
    decreases n,
{
    if n <= 0 {
        None
    } else {
        match element_kind_upto(elements, d, a, n - 1) {
            Some(k) => Some(k),
            None => if elements[n - 1].process_definition_id@ == d && elements[n - 1].element_id@ == a {
                Some(elements[n - 1].kind)
            } else {
                None
            },
        }
    }
}

/// The kind of element `a` of definition `d`, if it is deployed.
pub open spec fn element_kind(elements: Seq<DeployedFlowElement>, d: Seq<char>, a: Seq<char>) -> Option<FlowElementKind> {
    element_kind_upto(elements, d, a, elements.len() as int)
}

proof fn lemma_element_kind_grows(elements: Seq<DeployedFlowElement>, d: Seq<char>, a: Seq<char>, n: int, m: int)
    requires
        0 <= n <= m,
        element_kind_upto(elements, d, a, n) is Some,
    ensures
        element_kind_upto(elements, d, a, m) == element_kind_upto(elements, d, a, n),
    decreases m - n,
{
    if m > n {
        lemma_element_kind_grows(elements, d, a, n, m - 1);
    }
}

/// The kind of element `element_id` of definition `definition_id`.
pub fn lookup_element_kind(elements: &Vec<DeployedFlowElement>, definition_id: &str, element_id: &str) -> (r: Option<
    FlowElementKind,
>)
    ensures
        r == element_kind(elements@, definition_id@, element_id@),
{
    let mut i: usize = 0;
    while i < elements.len()
        invariant
            0 <= i <= elements.len(),
            element_kind_upto(elements@, definition_id@, element_id@, i as int) is None,
        decreases elements.len() - i,
    {
        if str_eq(elements[i].process_definition_id.as_str(), definition_id) && str_eq(
            elements[i].element_id.as_str(),
            element_id,
        ) {
            proof {
                lemma_element_kind_grows(elements@, definition_id@, element_id@, i + 1, elements.len() as int);
            }
            return Some(elements[i].kind);
        }
        i = i + 1;
    }
    None
}

/// Whether the execution waits in an intermediate catch event that has no
/// event definition.
pub open spec fn is_none_catch(elements: Seq<DeployedFlowElement>, e: Execution) -> bool {
    &&& e.process_definition_id is Some
    &&& e.activity_id is Some
    &&& element_kind(elements, e.process_definition_id->0@, e.activity_id->0@) == Some(
        FlowElementKind::IntermediateCatchEvent { event_definition_count: 0 },
    )
}

pub fn is_none_intermediate_catch_event(elements: &Vec<DeployedFlowElement>, execution: &Execution) -> (r: bool)
    ensures
        r == is_none_catch(elements@, *execution),
{
    let d = match &execution.process_definition_id {
        Some(d) => d,
        None => return false,
    };
    let a = match &execution.activity_id {
        Some(a) => a,
        None => return false,
    };
    match lookup_element_kind(elements, d.as_str(), a.as_str()) {
        Some(FlowElementKind::IntermediateCatchEvent { event_definition_count }) => event_definition_count == 0,
        _ => false,
    }
}

/// A row that waits, inactive, in a none intermediate catch event of
/// instance `pid`.
pub open spec fn waits_in_none_catch(elements: Seq<DeployedFlowElement>, pid: Seq<char>, e: Execution) -> bool {
    &&& e.process_instance_id is Some
    &&& e.process_instance_id->0@ == pid
    &&& !e.is_active
    &&& is_none_catch(elements, e)
}

/// A stored execution that waits in a none intermediate catch event of
/// instance `pid`.
pub open spec fn none_catch_waiter(store: RuntimeStore, elements: Seq<DeployedFlowElement>, pid: Seq<char>, e: Execution) -> bool {
    &&& store.executions@.contains_key(e.id@)
    &&& store.executions@[e.id@] == e
    &&& waits_in_none_catch(elements, pid, e)
}

/// The waiter with the least id, when there is one.
pub open spec fn least_none_catch_waiter(store: RuntimeStore, elements: Seq<DeployedFlowElement>, pid: Seq<char>) -> Option<
    Execution,
> {
    if exists|e: Execution| #[trigger]
        none_catch_waiter(store, elements, pid, e) && (forall|c: Execution| #[trigger]
            none_catch_waiter(store, elements, pid, c) ==> seq_le(e.id@, c.id@)) {
        Some(
            choose|e: Execution| #[trigger]
                none_catch_waiter(store, elements, pid, e) && (forall|c: Execution| #[trigger]
                    none_catch_waiter(store, elements, pid, c) ==> seq_le(e.id@, c.id@)),
        )
    } else {
        None
    }
}

/// Two least waiters are the same execution.
proof fn lemma_least_waiter_unique(store: RuntimeStore, elements: Seq<DeployedFlowElement>, pid: Seq<char>, a: Execution, b: Execution)
    requires
        none_catch_waiter(store, elements, pid, a),
        none_catch_waiter(store, elements, pid, b),
        seq_le(a.id@, b.id@),
        seq_le(b.id@, a.id@),
    ensures
        a == b,
{
    lemma_seq_le_antisymmetric(a.id@, b.id@);
}

/// The execution of instance `process_instance_id` that waits in a none
/// intermediate catch event: among several, the one with the least id.
pub fn find_waiting_none_intermediate_catch_execution(
    store: &RuntimeStore,
    elements: &Vec<DeployedFlowElement>,
    process_instance_id: &String,
) -> (r: Option<Execution>)
    requires
        store.wf(),
    ensures
        r == least_none_catch_waiter(*store, elements@, process_instance_id@),
{
    let ghost pid = process_instance_id@;
    let ghost rows = store.executions.rows@;
    let n = store.executions.rows.len();
    let mut best: Option<usize> = None;
    let mut i: usize = 0;
    while i < n
        invariant
            store.wf(),
            rows == store.executions.rows@,
            pid == process_instance_id@,
            n == rows.len(),
            0 <= i <= n,
            best matches Some(b) ==> b < i && waits_in_none_catch(elements@, pid, rows[b as int]) && (forall|j: int|
                0 <= j < i && #[trigger] waits_in_none_catch(elements@, pid, rows[j]) ==> seq_le(
                    rows[b as int].id@,
                    rows[j].id@,
                )),
            best is None ==> forall|j: int| 0 <= j < i ==> !#[trigger] waits_in_none_catch(elements@, pid, rows[j]),
        decreases n - i,
    {
        let row = &store.executions.rows[i];
        let in_instance = match &row.process_instance_id {
            Some(p) => str_eq(p.as_str(), process_instance_id.as_str()),
            None => false,
        };
        let waiting = in_instance && !row.is_active && is_none_intermediate_catch_event(elements, row);
        assert(waiting == waits_in_none_catch(elements@, pid, rows[i as int]));
        if waiting {
            match best {
                None => {
                    proof {
                        lemma_seq_le_reflexive(row.id@);
                    }
                    best = Some(i);
                },
                Some(b) => {
                    let keep = str_le(store.executions.rows[b].id.as_str(), row.id.as_str());
                    if !keep {
                        proof {
                            lemma_seq_le_total(rows[b as int].id@, row.id@);
                            lemma_seq_le_reflexive(row.id@);
                            assert forall|j: int|
                                0 <= j < i + 1 && #[trigger] waits_in_none_catch(elements@, pid, rows[j]) implies seq_le(
                                row.id@,
                                rows[j].id@,
                            ) by {
                                if j < i {
                                    lemma_seq_le_transitive(row.id@, rows[b as int].id@, rows[j].id@);
                                }
                            }
                        }
                        best = Some(i);
                    }
                },
            }
        }
        i = i + 1;
    }
    match best {
        None => {
            proof {
                assert forall|e: Execution| !#[trigger] none_catch_waiter(*store, elements@, pid, e) by {
                    if none_catch_waiter(*store, elements@, pid, e) {
                        let j = index_of(rows, e.id@);
                        assert(0 <= j < rows.len() && rows[j] == e);
                    }
                }
            }
            None
        },
        Some(b) => {
            let found = store.executions.rows[b].duplicate();
            proof {
                lemma_index_of(rows, b as int);
                assert(none_catch_waiter(*store, elements@, pid, found));
                assert forall|c: Execution| #[trigger] none_catch_waiter(*store, elements@, pid, c) implies seq_le(
                    found.id@,
                    c.id@,
                ) by {
                    let j = index_of(rows, c.id@);
                    assert(0 <= j < rows.len() && rows[j] == c);
                }
                let e = choose|e: Execution| #[trigger]
                    none_catch_waiter(*store, elements@, pid, e) && (forall|c: Execution| #[trigger]
                        none_catch_waiter(*store, elements@, pid, c) ==> seq_le(e.id@, c.id@));
                lemma_least_waiter_unique(*store, elements@, pid, e, found);
            }
            Some(found)
        },
    }
}

/// The execution with its `is_active` flag raised.
pub open spec fn activated(e: Execution) -> Execution {
    Execution { is_active: true, ..e }
}

/// The error that refuses to trigger the suspended execution `e`.
pub open spec fn refuses_suspended(err: FlowableError, e: Execution) -> bool {
    &&& err is ExecutionError
    &&& err->ExecutionError_0@ == "Cannot trigger a suspended execution '"@ + e.id@ + "'"@
}

impl TriggerIntermediateCatchEventCmd {
    /// Leaves the none intermediate catch event the instance waits in: the
    /// waiting execution (the one with the least id, when several wait) is
    /// made active and handed back, for its outgoing flows to be taken.
    /// `Ok(None)` when nothing waits; a suspended execution is refused.
    pub fn run(&self, store: &mut RuntimeStore, elements: &Vec<DeployedFlowElement>) -> (r: Result<
        Option<Execution>,
        FlowableError,
    >)
        requires
            old(store).wf(),
        ensures
            final(store).wf(),
            match least_none_catch_waiter(*old(store), elements@, self.process_instance_id@) {
                None => r == Ok::<Option<Execution>, FlowableError>(None) && *final(store) == *old(store),
                Some(e) => if e.is_suspended {
                    &&& r matches Err(err) && refuses_suspended(err, e)
                    &&& *final(store) == *old(store)
                } else {
                    &&& r == Ok::<Option<Execution>, FlowableError>(Some(activated(e)))
                    &&& frame(*old(store), *final(store), set![StoreTable::Executions])
                    &&& final(store).executions@ == old(store).executions@.insert(e.id@, activated(e))
                },
            },
    {
        let mut execution = match find_waiting_none_intermediate_catch_execution(store, elements, &self.process_instance_id) {
            Some(e) => e,
            None => return Ok(None),
        };
        match require_active_execution(&execution) {
            Err(err) => return Err(err),
            Ok(()) => {},
        }
        execution.is_active = true;
        store.insert_execution(execution.duplicate());
        Ok(Some(execution))
    }
}

/// Whether the parent of `e` waits in an event-based gateway.
pub open spec fn parent_is_event_gateway(store: RuntimeStore, elements: Seq<DeployedFlowElement>, e: Execution) -> bool {
    &&& e.parent_id is Some
    &&& store.executions@.contains_key(e.parent_id->0@)
    &&& store.executions@[e.parent_id->0@].process_definition_id is Some
    &&& store.executions@[e.parent_id->0@].activity_id is Some
    &&& element_kind(
        elements,
        store.executions@[e.parent_id->0@].process_definition_id->0@,
        store.executions@[e.parent_id->0@].activity_id->0@,
    ) == Some(FlowElementKind::EventBasedGateway)
}

/// Another branch under the parent of `e` that has not ended.
pub open spec fn is_open_sibling(e: Execution, s: Execution) -> bool {
    &&& e.parent_id is Some
    &&& s.parent_id is Some
    &&& s.parent_id->0@ == e.parent_id->0@
    &&& s.id@ != e.id@
    &&& !s.is_ended
}

/// The ids of the open siblings of `e` among the first `n` rows, in order.
pub open spec fn sibling_ids(rows: Seq<Execution>, e: Execution, n: int) -> Seq<Seq<char>>
    decreases n,
{
    if n <= 0 {
        Seq::empty()
    } else if is_open_sibling(e, rows[n - 1]) {
        sibling_ids(rows, e, n - 1).push(rows[n - 1].id@)
    } else {
        sibling_ids(rows, e, n - 1)
    }
}

/// The branches an event-based gateway cancels when the branch `e` fires:
/// the open siblings of `e`, in table order, when its parent waits in such
/// a gateway, and none otherwise.
pub open spec fn cancelled_siblings(store: RuntimeStore, elements: Seq<DeployedFlowElement>, e: Execution) -> Seq<Seq<char>> {
    if parent_is_event_gateway(store, elements, e) {
        sibling_ids(store.executions.rows@, e, store.executions.rows@.len() as int)
    } else {
        Seq::empty()
    }
}

/// The members of a sequence of ids.
pub open spec fn id_set(ids: Seq<Seq<char>>) -> Set<Seq<char>> {
    Set::new(|k: Seq<char>| ids.contains(k))
}

/// The timer jobs that belong to one of the executions `ids`.
pub open spec fn jobs_of(store: RuntimeStore, ids: Set<Seq<char>>) -> Set<Seq<char>> {
    Set::new(|j: Seq<char>| store.timer_jobs@.contains_key(j) && ids.contains(store.timer_jobs@[j].execution_id@))
}

/// `after` is `before` without the executions `ids` and without their
/// timer jobs.
pub open spec fn without_branches(before: RuntimeStore, after: RuntimeStore, ids: Set<Seq<char>>) -> bool {
    &&& frame(before, after, set![StoreTable::Executions, StoreTable::TimerJobs, StoreTable::JobTypes])
    &&& after.executions@ == before.executions@.remove_keys(ids)
    &&& after.timer_jobs@ == before.timer_jobs@.remove_keys(jobs_of(before, ids))
    &&& after.job_types@ == before.job_types@.remove_keys(jobs_of(before, ids))
}

proof fn lemma_sibling_ids(rows: Seq<Execution>, e: Execution, n: int, k: Seq<char>)
    requires
        0 <= n <= rows.len(),
    ensures
        sibling_ids(rows, e, n).contains(k) <==> exists|j: int|
            0 <= j < n && is_open_sibling(e, #[trigger] rows[j]) && rows[j].id@ == k,
    decreases n,
{
    if n > 0 {
        lemma_sibling_ids(rows, e, n - 1, k);
        lemma_seq_contains_after_push(sibling_ids(rows, e, n - 1), rows[n - 1].id@, k);
    }
}

/// The open siblings listed from the rows are those the map holds.
proof fn lemma_siblings_in_map(store: RuntimeStore, e: Execution, k: Seq<char>)
    requires
        store.wf(),
    ensures
        id_set(sibling_ids(store.executions.rows@, e, store.executions.rows@.len() as int)).contains(k) <==> (
        store.executions@.contains_key(k) && is_open_sibling(e, store.executions@[k])),
{
    let rows = store.executions.rows@;
    lemma_sibling_ids(rows, e, rows.len() as int, k);
    if store.executions@.contains_key(k) && is_open_sibling(e, store.executions@[k]) {
        let j = index_of(rows, k);
        assert(is_open_sibling(e, rows[j]) && rows[j].id@ == k);
    }
    if exists|j: int| 0 <= j < rows.len() && is_open_sibling(e, #[trigger] rows[j]) && rows[j].id@ == k {
        let j = choose|j: int| 0 <= j < rows.len() && is_open_sibling(e, #[trigger] rows[j]) && rows[j].id@ == k;
        lemma_index_of(rows, j);
    }
}

/// The ids of the timer jobs among the first `n` rows that belong to one of
/// the executions `ids`, in order.
pub open spec fn job_ids(rows: Seq<RuntimeTimerJobState>, ids: Set<Seq<char>>, n: int) -> Seq<Seq<char>>
    decreases n,
{
    if n <= 0 {
        Seq::empty()
    } else if ids.contains(rows[n - 1].execution_id@) {
        job_ids(rows, ids, n - 1).push(rows[n - 1].timer_job_id@)
    } else {
        job_ids(rows, ids, n - 1)
    }
}

pub proof fn lemma_job_ids(rows: Seq<RuntimeTimerJobState>, ids: Set<Seq<char>>, n: int, k: Seq<char>)
    requires
        0 <= n <= rows.len(),
    ensures
        job_ids(rows, ids, n).contains(k) <==> exists|j: int|
            0 <= j < n && ids.contains(#[trigger] rows[j].execution_id@) && rows[j].timer_job_id@ == k,
    decreases n,
{
    if n > 0 {
        lemma_job_ids(rows, ids, n - 1, k);
        lemma_seq_contains_after_push(job_ids(rows, ids, n - 1), rows[n - 1].timer_job_id@, k);
    }
}

/// The jobs listed from the timer rows are those the map holds.
pub proof fn lemma_jobs_in_map(store: RuntimeStore, ids: Set<Seq<char>>)
    requires
        store.wf(),
    ensures
        id_set(job_ids(store.timer_jobs.rows@, ids, store.timer_jobs.rows@.len() as int)) == jobs_of(store, ids),
{
    let rows = store.timer_jobs.rows@;
    assert forall|k: Seq<char>| #[trigger] id_set(job_ids(rows, ids, rows.len() as int)).contains(k) <==> jobs_of(
        store,
        ids,
    ).contains(k) by {
        lemma_job_ids(rows, ids, rows.len() as int, k);
        if jobs_of(store, ids).contains(k) {
            let j = index_of(rows, k);
            assert(ids.contains(rows[j].execution_id@) && rows[j].timer_job_id@ == k);
        }
        if exists|j: int| 0 <= j < rows.len() && ids.contains(#[trigger] rows[j].execution_id@) && rows[j].timer_job_id@ == k {
            let j = choose|j: int| 0 <= j < rows.len() && ids.contains(#[trigger] rows[j].execution_id@) && rows[j].timer_job_id@ == k;
            lemma_index_of(rows, j);
        }
    }
    assert(id_set(job_ids(rows, ids, rows.len() as int)) =~= jobs_of(store, ids));
}

pub proof fn lemma_id_set_step(ids: Seq<Seq<char>>, k: int)
    requires
        0 <= k < ids.len(),
    ensures
        id_set(ids.subrange(0, k + 1)) == id_set(ids.subrange(0, k)).insert(ids[k]),
{
    assert(ids.subrange(0, k + 1) =~= ids.subrange(0, k).push(ids[k]));
    assert forall|x: Seq<char>| #[trigger] id_set(ids.subrange(0, k + 1)).contains(x) <==> id_set(ids.subrange(0, k)).insert(
        ids[k],
    ).contains(x) by {
        lemma_seq_contains_after_push(ids.subrange(0, k), ids[k], x);
    }
    assert(id_set(ids.subrange(0, k + 1)) =~= id_set(ids.subrange(0, k)).insert(ids[k]));
}

/// Whether `s` is one of `ids`.
pub fn lists_id(ids: &Vec<String>, s: &String) -> (r: bool)
    ensures
        r == string_views(ids@).contains(s@),
{
    let mut i: usize = 0;
    while i < ids.len()
        invariant
            0 <= i <= ids.len(),
            forall|j: int| 0 <= j < i ==> (#[trigger] ids@[j])@ != s@,
        decreases ids.len() - i,
    {
        if str_eq(ids[i].as_str(), s.as_str()) {
            assert(string_views(ids@)[i as int] == s@);
            return true;
        }
        i = i + 1;
    }
    proof {
        if string_views(ids@).contains(s@) {
            let j = choose|j: int| 0 <= j < string_views(ids@).len() && #[trigger] string_views(ids@)[j] == s@;
            assert(ids@[j]@ == s@);
        }
    }
    false
}

/// Whether the parent of `execution` waits in an event-based gateway.
pub fn parent_waits_in_event_gateway(store: &RuntimeStore, elements: &Vec<DeployedFlowElement>, execution: &Execution) -> (r: bool)
    requires
        store.wf(),
    ensures
        r == parent_is_event_gateway(*store, elements@, *execution),
{
    let parent_id = match &execution.parent_id {
        Some(p) => p,
        None => return false,
    };
    let parent = match store.find_execution(parent_id) {
        Some(p) => p,
        None => return false,
    };
    let d = match &parent.process_definition_id {
        Some(d) => d,
        None => return false,
    };
    let a = match &parent.activity_id {
        Some(a) => a,
        None => return false,
    };
    match lookup_element_kind(elements, d.as_str(), a.as_str()) {
        Some(FlowElementKind::EventBasedGateway) => true,
        _ => false,
    }
}

fn is_open_sibling_of(execution: &Execution, s: &Execution) -> (r: bool)
    ensures
        r == is_open_sibling(*execution, *s),
{
    match (&execution.parent_id, &s.parent_id) {
        (Some(p), Some(q)) => str_eq(p.as_str(), q.as_str()) && !str_eq(s.id.as_str(), execution.id.as_str()) && !s.is_ended,
        _ => false,
    }
}

/// Cancels the branches an event-based gateway leaves behind when the
/// branch `execution` fires: deletes them and their timer jobs, and returns
/// their ids, for the caller to clear what else waits on them.
pub fn cancel_event_gateway_siblings(store: &mut RuntimeStore, elements: &Vec<DeployedFlowElement>, execution: &Execution) -> (r: Vec<
    String,
>)
    requires
        old(store).wf(),
    ensures
        final(store).wf(),
        string_views(r@) == cancelled_siblings(*old(store), elements@, *execution),
        without_branches(*old(store), *final(store), id_set(cancelled_siblings(*old(store), elements@, *execution))),
{
    let ghost old_store = *store;
    let mut ids: Vec<String> = Vec::new();
    if !parent_waits_in_event_gateway(store, elements, execution) {
        proof {
            let none = id_set(Seq::<Seq<char>>::empty());
            assert(none =~= Set::empty());
            assert(jobs_of(old_store, none) =~= Set::empty());
            assert(old_store.executions@.remove_keys(none) =~= old_store.executions@);
            assert(old_store.timer_jobs@.remove_keys(jobs_of(old_store, none)) =~= old_store.timer_jobs@);
            assert(old_store.job_types@.remove_keys(jobs_of(old_store, none)) =~= old_store.job_types@);
            assert(string_views(ids@) =~= Seq::<Seq<char>>::empty());
        }
        return ids;
    }
    let ghost rows = store.executions.rows@;
    let n = store.executions.rows.len();
    let mut i: usize = 0;
    while i < n
        invariant
            *store == old_store,
            rows == store.executions.rows@,
            n == rows.len(),
            0 <= i <= n,
            string_views(ids@) == sibling_ids(rows, *execution, i as int),
        decreases n - i,
    {
        if is_open_sibling_of(execution, &store.executions.rows[i]) {
            let id = store.executions.rows[i].id.clone();
            ids.push(id);
            assert(string_views(ids@) =~= sibling_ids(rows, *execution, i as int).push(rows[i as int].id@));
        }
        i = i + 1;
    }
    let ghost cancelled = id_set(string_views(ids@));
    let ghost trows = store.timer_jobs.rows@;
    let mut jobs: Vec<String> = Vec::new();
    let m = store.timer_jobs.rows.len();
    let mut t: usize = 0;
    while t < m
        invariant
            *store == old_store,
            trows == store.timer_jobs.rows@,
            m == trows.len(),
            0 <= t <= m,
            cancelled == id_set(string_views(ids@)),
            string_views(jobs@) == job_ids(trows, cancelled, t as int),
        decreases m - t,
    {
        if lists_id(&ids, &store.timer_jobs.rows[t].execution_id) {
            let j = store.timer_jobs.rows[t].timer_job_id.clone();
            jobs.push(j);
            assert(string_views(jobs@) =~= job_ids(trows, cancelled, t as int).push(trows[t as int].timer_job_id@));
        }
        t = t + 1;
    }
    proof {
        lemma_jobs_in_map(old_store, cancelled);
        assert(old_store.executions@.remove_keys(id_set(string_views(ids@).subrange(0, 0))) =~= old_store.executions@);
    }
    let mut k: usize = 0;
    while k < ids.len()
        invariant
            store.wf(),
            0 <= k <= ids.len(),
            frame(old_store, *store, set![StoreTable::Executions]),
            store.executions@ == old_store.executions@.remove_keys(id_set(string_views(ids@).subrange(0, k as int))),
        decreases ids.len() - k,
    {
        store.delete_execution(&ids[k]);
        proof {
            lemma_id_set_step(string_views(ids@), k as int);
            assert(store.executions@ =~= old_store.executions@.remove_keys(id_set(string_views(ids@).subrange(0, k + 1))));
        }
        k = k + 1;
    }
    assert(string_views(ids@).subrange(0, ids.len() as int) =~= string_views(ids@));
    let ghost mid = *store;
    proof {
        assert(old_store.timer_jobs@.remove_keys(id_set(string_views(jobs@).subrange(0, 0))) =~= old_store.timer_jobs@);
        assert(old_store.job_types@.remove_keys(id_set(string_views(jobs@).subrange(0, 0))) =~= old_store.job_types@);
    }
    let mut q: usize = 0;
    while q < jobs.len()
        invariant
            store.wf(),
            0 <= q <= jobs.len(),
            frame(old_store, *store, set![StoreTable::Executions, StoreTable::TimerJobs, StoreTable::JobTypes]),
            store.executions@ == mid.executions@,
            store.timer_jobs@ == old_store.timer_jobs@.remove_keys(id_set(string_views(jobs@).subrange(0, q as int))),
            store.job_types@ == old_store.job_types@.remove_keys(id_set(string_views(jobs@).subrange(0, q as int))),
        decreases jobs.len() - q,
    {
        store.delete_timer_job_state(&jobs[q]);
        proof {
            lemma_id_set_step(string_views(jobs@), q as int);
            assert(store.timer_jobs@ =~= old_store.timer_jobs@.remove_keys(id_set(string_views(jobs@).subrange(0, q + 1))));
            assert(store.job_types@ =~= old_store.job_types@.remove_keys(id_set(string_views(jobs@).subrange(0, q + 1))));
        }
        q = q + 1;
    }
    assert(string_views(jobs@).subrange(0, jobs.len() as int) =~= string_views(jobs@));
    ids
}

/// How an intermediate catch event was left: the execution, now active,
/// whose outgoing flows are to be taken, and the ids of the gateway branches
/// cancelled with it (the caller clears the event subscriptions and
/// boundary events that waited on them, and on the execution itself).
#[derive(Debug)]
pub struct CatchEventExit {
    pub execution: Execution,
    pub cancelled_siblings: Vec<String>,
}

/// `after` is `before` once the branch `e` left its catch event: the
/// gateway branches `cancelled` are gone, the timer jobs `jobs` are deleted
/// with their types, and `e` is active.
pub open spec fn left_catch(before: RuntimeStore, after: RuntimeStore, e: Execution, cancelled: Set<Seq<char>>, jobs: Set<
    Seq<char>,
>) -> bool {
    &&& frame(before, after, set![StoreTable::Executions, StoreTable::TimerJobs, StoreTable::JobTypes])
    &&& after.executions@ == before.executions@.remove_keys(cancelled).insert(e.id@, activated(e))
    &&& after.timer_jobs@ == before.timer_jobs@.remove_keys(jobs)
    &&& after.job_types@ == before.job_types@.remove_keys(jobs)
}

/// The exit of a catch event left by `e`.
pub open spec fn exit_of(x: CatchEventExit, store: RuntimeStore, elements: Seq<DeployedFlowElement>, e: Execution) -> bool {
    &&& x.execution == activated(e)
    &&& string_views(x.cancelled_siblings@) == cancelled_siblings(store, elements, e)
}

/// The first of the first `n` timer rows of execution `eid` that is not a
/// boundary timer.
pub open spec fn first_catch_timer(rows: Seq<RuntimeTimerJobState>, eid: Seq<char>, n: int) -> Option<RuntimeTimerJobState>
    decreases n,
{
    if n <= 0 {
        None
    } else {
        match first_catch_timer(rows, eid, n - 1) {
            Some(t) => Some(t),
            None => if rows[n - 1].execution_id@ == eid && !rows[n - 1].is_boundary {
                Some(rows[n - 1])
            } else {
                None
            },
        }
    }
}

proof fn lemma_first_catch_timer_grows(rows: Seq<RuntimeTimerJobState>, eid: Seq<char>, n: int, m: int)
    requires
        0 <= n <= m,
        first_catch_timer(rows, eid, n) is Some,
    ensures
        first_catch_timer(rows, eid, m) == first_catch_timer(rows, eid, n),
    decreases m - n,
{
    if m > n {
        lemma_first_catch_timer_grows(rows, eid, n, m - 1);
    }
}

proof fn lemma_first_catch_timer_row(rows: Seq<RuntimeTimerJobState>, eid: Seq<char>, n: int)
    requires
        0 <= n <= rows.len(),
        first_catch_timer(rows, eid, n) is Some,
    ensures
        exists|j: int| 0 <= j < n && rows[j] == first_catch_timer(rows, eid, n)->0,
        first_catch_timer(rows, eid, n)->0.execution_id@ == eid,
    decreases n,
{
    if first_catch_timer(rows, eid, n - 1) is Some {
        lemma_first_catch_timer_row(rows, eid, n - 1);
    } else {
        assert(rows[n - 1] == first_catch_timer(rows, eid, n)->0);
    }
}

/// The timer an intermediate catch event of execution `execution_id` waits
/// for: its first timer job that is not a boundary timer.
pub fn first_catch_timer_job(store: &RuntimeStore, execution_id: &String) -> (r: Option<RuntimeTimerJobState>)
    ensures
        r == first_catch_timer(store.timer_jobs.rows@, execution_id@, store.timer_jobs.rows@.len() as int),
{
    let ghost rows = store.timer_jobs.rows@;
    let mut i: usize = 0;
    while i < store.timer_jobs.rows.len()
        invariant
            rows == store.timer_jobs.rows@,
            0 <= i <= rows.len(),
            first_catch_timer(rows, execution_id@, i as int) is None,
        decreases rows.len() - i,
    {
        let row = &store.timer_jobs.rows[i];
        if str_eq(row.execution_id.as_str(), execution_id.as_str()) && !row.is_boundary {
            proof {
                lemma_first_catch_timer_grows(rows, execution_id@, i + 1, rows.len() as int);
            }
            return Some(row.duplicate());
        }
        i = i + 1;
    }
    None
}

/// A stored execution's id is the key it is stored under.
pub proof fn lemma_stored_id(store: RuntimeStore, k: Seq<char>)
    requires
        store.wf(),
        store.executions@.contains_key(k),
    ensures
        store.executions@[k].id@ == k,
{
    let j = index_of(store.executions.rows@, k);
    lemma_index_of(store.executions.rows@, j);
}

impl TriggerTimerIntermediateCatchEventCmd {
    /// Fires the timer an intermediate catch event of the execution waits
    /// for: its timer job is deleted, the branches of an event-based gateway
    /// above it are cancelled, and the execution is made active and handed
    /// back. `Ok(None)`, with nothing changed, when no such timer exists,
    /// the execution is unknown or already active; a suspended execution is
    /// refused.
    pub fn run(&self, store: &mut RuntimeStore, elements: &Vec<DeployedFlowElement>) -> (r: Result<
        Option<CatchEventExit>,
        FlowableError,
    >)
        requires
            old(store).wf(),
        ensures
            final(store).wf(),
            ({
                let eid = self.execution_id@;
                let timer = first_catch_timer(old(store).timer_jobs.rows@, eid, old(store).timer_jobs.rows@.len() as int);
                if timer is None || !old(store).executions@.contains_key(eid) {
                    r matches Ok(None) && *final(store) == *old(store)
                } else {
                    let e = old(store).executions@[eid];
                    let cancelled = id_set(cancelled_siblings(*old(store), elements@, e));
                    if e.is_suspended {
                        &&& r matches Err(err) && refuses_suspended(err, e)
                        &&& *final(store) == *old(store)
                    } else if e.is_active {
                        r matches Ok(None) && *final(store) == *old(store)
                    } else {
                        &&& r matches Ok(Some(x)) && exit_of(x, *old(store), elements@, e)
                        &&& left_catch(*old(store), *final(store), e, cancelled,
                            jobs_of(*old(store), cancelled).insert(timer->0.timer_job_id@))
                    }
                }
            }),
    {
        let ghost before = *store;
        let timer = match first_catch_timer_job(store, &self.execution_id) {
            Some(t) => t,
            None => return Ok(None),
        };
        let mut execution = match store.find_execution(&self.execution_id) {
            Some(e) => e,
            None => return Ok(None),
        };
        match require_active_execution(&execution) {
            Err(err) => return Err(err),
            Ok(()) => {},
        }
        if execution.is_active {
            return Ok(None);
        }
        proof {
            lemma_stored_id(before, self.execution_id@);
            lemma_first_catch_timer_row(before.timer_jobs.rows@, self.execution_id@, before.timer_jobs.rows@.len() as int);
        }
        store.delete_timer_job_state(&timer.timer_job_id);
        let ghost mid = *store;
        let cancelled = cancel_event_gateway_siblings(store, elements, &execution);
        let ghost k = id_set(cancelled_siblings(before, elements@, execution));
        proof {
            let j = timer.timer_job_id@;
            assert(!jobs_of(before, k).contains(j)) by {
                if jobs_of(before, k).contains(j) {
                    let t = before.timer_jobs@[j];
                    let w = choose|w: int| 0 <= w < before.timer_jobs.rows@.len() && before.timer_jobs.rows@[w] == timer;
                    lemma_index_of(before.timer_jobs.rows@, w);
                    assert(t == timer);
                    lemma_siblings_in_map(before, execution, timer.execution_id@);
                }
            }
            assert(jobs_of(mid, k) =~= jobs_of(before, k));
            assert(store.timer_jobs@ =~= before.timer_jobs@.remove_keys(jobs_of(before, k).insert(j)));
            assert(store.job_types@ =~= before.job_types@.remove_keys(jobs_of(before, k).insert(j)));
        }
        execution.is_active = true;
        store.insert_execution(execution.duplicate());
        Ok(Some(CatchEventExit { execution, cancelled_siblings: cancelled }))
    }
}

/// What delivering an event of `kind` and reference `event_ref` to the
/// execution `eid`, waiting as `wait` says, gives and leaves in the store.
pub open spec fn event_catch_result(
    before: RuntimeStore,
    after: RuntimeStore,
    wait: Option<RuntimeEventWaitState>,
    eid: Seq<char>,
    kind: EventSubscriptionKind,
    event_ref: Seq<char>,
    model: Option<EventRefModel>,
    elements: Seq<DeployedFlowElement>,
    check_suspension: bool,
    r: Result<Option<CatchEventExit>, FlowableError>,
) -> bool {
    match waiting_catch_spec(before, wait, eid, kind, event_ref, model) {
        None => r matches Ok(None) && after == before,
        Some(e) => if check_suspension && e.is_suspended {
            &&& r matches Err(err) && refuses_suspended(err, e)
            &&& after == before
        } else {
            let cancelled = id_set(cancelled_siblings(before, elements, e));
            &&& r matches Ok(Some(x)) && exit_of(x, before, elements, e)
            &&& left_catch(before, after, e, cancelled, jobs_of(before, cancelled))
        },
    }
}

impl TriggerEventIntermediateCatchCmd {
    /// Delivers the event to the execution waiting in an intermediate catch
    /// event (`wait_state` is where it waits, `model` the declarations of
    /// its process): the branches of an event-based gateway above it are
    /// cancelled, and the execution is made active and handed back.
    /// `Ok(None)`, with nothing changed, when the execution does not wait
    /// for this event; a suspended execution is refused unless the check is
    /// switched off.
    pub fn run(
        &self,
        store: &mut RuntimeStore,
        wait_state: Option<&RuntimeEventWaitState>,
        model: Option<&EventRefModel>,
        elements: &Vec<DeployedFlowElement>,
    ) -> (r: Result<Option<CatchEventExit>, FlowableError>)
        requires
            old(store).wf(),
        ensures
            final(store).wf(),
            event_catch_result(*old(store), *final(store), opt_wait(wait_state), self.execution_id@, self.kind,
                self.event_ref@, opt_model(model), elements@, self.check_suspension, r),
    {
        let mut execution = match find_waiting_event_intermediate_catch_execution(
            store,
            wait_state,
            &self.execution_id,
            self.kind,
            self.event_ref.as_str(),
            model,
        ) {
            Some(e) => e,
            None => return Ok(None),
        };
        if self.check_suspension {
            match require_active_execution(&execution) {
                Err(err) => return Err(err),
                Ok(()) => {},
            }
        }
        let cancelled = cancel_event_gateway_siblings(store, elements, &execution);
        execution.is_active = true;
        store.insert_execution(execution.duplicate());
        Ok(Some(CatchEventExit { execution, cancelled_siblings: cancelled }))
    }
}

} // verus!
