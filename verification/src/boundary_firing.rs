//! Firing a boundary event: an interrupting one ends the activity it is
//! attached to, with everything below it, and either kind starts a new
//! execution at the boundary event.
use vstd::prelude::*;
use crate::boundary::{opt_string_view, RuntimeBoundaryEventState};
use crate::boundary_catch::{
    boundary_model, catching_boundary, error_model_for_boundary_state, select_nearest_error_boundary,
    select_nearest_escalation_boundary, DeployedModel,
};
use crate::catch_events::{id_set, jobs_of, job_ids, lemma_id_set_step, lemma_jobs_in_map, lists_id};
use crate::entities::{clone_opt, opt_view, Duplicate, Execution, RuntimeTimerJobState, Task};
use crate::events::{EventSubscription, EventSubscriptionKind};
use crate::outside::new_uuid;
use crate::execution_tree::{descendant_execution_ids, is_descendant, string_views};
use crate::ordering::str_eq;
use crate::triggers::{boundary_matches_spec, BoundaryEventTriggerResult, TriggerBoundaryEventByEventRefCmd, TriggerBoundaryEventCmd,
    TriggerTimerBoundaryEventCmd};
use crate::store::{frame, index_of, lemma_index_of, RuntimeStore, StoreTable};
use vstd::seq_lib::lemma_seq_contains_after_push;

verus! {

/// The executions an interrupting boundary on `host` ends: the host and
/// everything below it.
pub open spec fn interrupted_ids(store: RuntimeStore, host: Seq<char>) -> Set<Seq<char>> {
    Set::new(|x: Seq<char>| x == host || is_descendant(store.executions.rows@, host, x))
}

/// Whether no earlier task row runs in the same execution as row `i`.
pub open spec fn first_task_of_execution(rows: Seq<Task>, i: int) -> bool {
    forall|j: int| 0 <= j < i ==> (#[trigger] rows[j]).execution_id@ != rows[i].execution_id@
}

/// The task ids among the first `n` rows that are the first task of one of
/// the executions `ids`, in order.
pub open spec fn first_task_ids(rows: Seq<Task>, ids: Set<Seq<char>>, n: int) -> Seq<Seq<char>>
    decreases n,
{
    if n <= 0 {
        Seq::empty()
    } else if ids.contains(rows[n - 1].execution_id@) && first_task_of_execution(rows, n - 1) {
        first_task_ids(rows, ids, n - 1).push(rows[n - 1].id@)
    } else {
        first_task_ids(rows, ids, n - 1)
    }
}

/// The tasks that go with the executions `ids`: the first task of each.
pub open spec fn tasks_of(store: RuntimeStore, ids: Set<Seq<char>>) -> Set<Seq<char>> {
    Set::new(|k: Seq<char>| {
        &&& store.tasks@.contains_key(k)
        &&& ids.contains(store.tasks@[k].execution_id@)
        &&& first_task_of_execution(store.tasks.rows@, index_of(store.tasks.rows@, k))
    })
}

/// What becomes of the one row that an interrupt keeps.
#[derive(Debug, Clone, Copy, PartialEq, Eq, Structural)]
pub enum KeptRow {
    /// The instance's own row: detached from its activity and ended.
    Retire,
    /// A scope row: made inactive, and detached from its activity when
    /// `clear_activity` says so.
    Deactivate { clear_activity: bool },
}

/// The kept row `e` after an interrupt.
pub open spec fn kept_row(e: Execution, mode: KeptRow) -> Execution {
    match mode {
        KeptRow::Retire => Execution { activity_id: None, is_active: false, is_ended: true, ..e },
        KeptRow::Deactivate { clear_activity } => Execution {
            activity_id: if clear_activity { None } else { e.activity_id },
            is_active: false,
            ..e
        },
    }
}

/// The executions after the executions `ids` are ended: each is deleted,
/// except the row `keep`, which is kept as `mode` says.
pub open spec fn after_interrupt(m: Map<Seq<char>, Execution>, ids: Set<Seq<char>>, keep: Seq<char>, mode: KeptRow) -> Map<
    Seq<char>,
    Execution,
> {
    let rest = m.remove_keys(ids.remove(keep));
    if ids.contains(keep) && m.contains_key(keep) {
        rest.insert(keep, kept_row(m[keep], mode))
    } else {
        rest
    }
}

/// `after` is `before` once the executions `ids` are ended and the
/// boundary execution `x` is stored: their first tasks and their timer jobs
/// are deleted too.
pub open spec fn fired(before: RuntimeStore, after: RuntimeStore, ids: Set<Seq<char>>, pid: Seq<char>, x: Execution) -> bool {
    &&& frame(before, after, set![StoreTable::Tasks, StoreTable::Executions, StoreTable::TimerJobs, StoreTable::JobTypes])
    &&& after.tasks@ == before.tasks@.remove_keys(tasks_of(before, ids))
    &&& after.timer_jobs@ == before.timer_jobs@.remove_keys(jobs_of(before, ids))
    &&& after.job_types@ == before.job_types@.remove_keys(jobs_of(before, ids))
    &&& after.executions@ == after_interrupt(before.executions@, ids, pid, KeptRow::Retire).insert(x.id@, x)
}

/// `x` is the execution started at boundary event `boundary_event_id` of
/// instance `pid`, beside the host execution `host`.
pub open spec fn boundary_execution_of(x: Execution, host: Execution, boundary_event_id: Seq<char>, pid: Seq<char>) -> bool {
    &&& x.parent_id == host.parent_id
    &&& x.process_instance_id is Some && x.process_instance_id->0@ == pid
    &&& x.process_definition_id == host.process_definition_id
    &&& x.activity_id is Some && x.activity_id->0@ == boundary_event_id
    &&& !x.is_suspended
    &&& x.is_active
    &&& x.is_scope == host.is_scope
    &&& !x.is_ended
}

proof fn lemma_first_task_ids(rows: Seq<Task>, ids: Set<Seq<char>>, n: int, k: Seq<char>)
    requires
        0 <= n <= rows.len(),
    ensures
        first_task_ids(rows, ids, n).contains(k) <==> exists|j: int|
            0 <= j < n && ids.contains(#[trigger] rows[j].execution_id@) && first_task_of_execution(rows, j)
                && rows[j].id@ == k,
    decreases n,
{
    if n > 0 {
        lemma_first_task_ids(rows, ids, n - 1, k);
        lemma_seq_contains_after_push(first_task_ids(rows, ids, n - 1), rows[n - 1].id@, k);
    }
}

proof fn lemma_tasks_in_map(store: RuntimeStore, ids: Set<Seq<char>>)
    requires
        store.wf(),
    ensures
        id_set(first_task_ids(store.tasks.rows@, ids, store.tasks.rows@.len() as int)) == tasks_of(store, ids),
{
    let rows = store.tasks.rows@;
    assert forall|k: Seq<char>| #[trigger] id_set(first_task_ids(rows, ids, rows.len() as int)).contains(k) <==> tasks_of(
        store,
        ids,
    ).contains(k) by {
        lemma_first_task_ids(rows, ids, rows.len() as int, k);
        if tasks_of(store, ids).contains(k) {
            let j = index_of(rows, k);
            assert(ids.contains(rows[j].execution_id@) && first_task_of_execution(rows, j) && rows[j].id@ == k);
        }
        if exists|j: int|
            0 <= j < rows.len() && ids.contains(#[trigger] rows[j].execution_id@) && first_task_of_execution(rows, j)
                && rows[j].id@ == k {
            let j = choose|j: int|
                0 <= j < rows.len() && ids.contains(#[trigger] rows[j].execution_id@) && first_task_of_execution(rows, j)
                    && rows[j].id@ == k;
            lemma_index_of(rows, j);
        }
    }
    assert(id_set(first_task_ids(rows, ids, rows.len() as int)) =~= tasks_of(store, ids));
}

/// Whether task row `i` is the first of its execution.
fn is_first_task_of_execution(rows: &Vec<Task>, i: usize) -> (r: bool)
    requires
        i < rows.len(),
    ensures
        r == first_task_of_execution(rows@, i as int),
{
    let mut j: usize = 0;
    while j < i
        invariant
            i < rows.len(),
            0 <= j <= i,
            forall|q: int| 0 <= q < j ==> (#[trigger] rows@[q]).execution_id@ != rows@[i as int].execution_id@,
        decreases i - j,
    {
        if str_eq(rows[j].execution_id.as_str(), rows[i].execution_id.as_str()) {
            return false;
        }
        j = j + 1;
    }
    true
}

/// The ids of the first tasks of the executions `ids`.
fn collect_first_tasks(store: &RuntimeStore, ids: &Vec<String>) -> (r: Vec<String>)
    requires
        store.wf(),
    ensures
        id_set(string_views(r@)) == tasks_of(*store, id_set(string_views(ids@))),
{
    let ghost s = id_set(string_views(ids@));
    let ghost rows = store.tasks.rows@;
    let mut out: Vec<String> = Vec::new();
    let mut i: usize = 0;
    while i < store.tasks.rows.len()
        invariant
            rows == store.tasks.rows@,
            s == id_set(string_views(ids@)),
            0 <= i <= rows.len(),
            string_views(out@) == first_task_ids(rows, s, i as int),
        decreases rows.len() - i,
    {
        if lists_id(ids, &store.tasks.rows[i].execution_id) && is_first_task_of_execution(&store.tasks.rows, i) {
            out.push(store.tasks.rows[i].id.clone());
            assert(string_views(out@) =~= first_task_ids(rows, s, i as int).push(rows[i as int].id@));
        }
        i = i + 1;
    }
    proof {
        lemma_tasks_in_map(*store, s);
    }
    out
}

/// The ids of the timer jobs of the executions `ids`.
fn collect_timer_jobs(store: &RuntimeStore, ids: &Vec<String>) -> (r: Vec<String>)
    requires
        store.wf(),
    ensures
        id_set(string_views(r@)) == jobs_of(*store, id_set(string_views(ids@))),
{
    let ghost s = id_set(string_views(ids@));
    let ghost rows = store.timer_jobs.rows@;
    let mut out: Vec<String> = Vec::new();
    let mut i: usize = 0;
    while i < store.timer_jobs.rows.len()
        invariant
            rows == store.timer_jobs.rows@,
            s == id_set(string_views(ids@)),
            0 <= i <= rows.len(),
            string_views(out@) == job_ids(rows, s, i as int),
        decreases rows.len() - i,
    {
        if lists_id(ids, &store.timer_jobs.rows[i].execution_id) {
            out.push(store.timer_jobs.rows[i].timer_job_id.clone());
            assert(string_views(out@) =~= job_ids(rows, s, i as int).push(rows[i as int].timer_job_id@));
        }
        i = i + 1;
    }
    proof {
        lemma_jobs_in_map(*store, s);
    }
    out
}

proof fn lemma_interrupt_delete(m: Map<Seq<char>, Execution>, s: Set<Seq<char>>, x: Seq<char>, keep: Seq<char>, mode: KeptRow)
    requires
        x != keep,
    ensures
        after_interrupt(m, s.insert(x), keep, mode) == after_interrupt(m, s, keep, mode).remove(x),
{
    assert(s.insert(x).remove(keep) =~= s.remove(keep).insert(x));
    assert(m.remove_keys(s.insert(x).remove(keep)) =~= m.remove_keys(s.remove(keep)).remove(x));
    assert(after_interrupt(m, s.insert(x), keep, mode) =~= after_interrupt(m, s, keep, mode).remove(x));
}

proof fn lemma_interrupt_keep(m: Map<Seq<char>, Execution>, s: Set<Seq<char>>, keep: Seq<char>, mode: KeptRow)
    ensures
        after_interrupt(m, s, keep, mode).contains_key(keep) == m.contains_key(keep),
        m.contains_key(keep) ==> kept_row(after_interrupt(m, s, keep, mode)[keep], mode) == kept_row(m[keep], mode),
        m.contains_key(keep) ==> after_interrupt(m, s.insert(keep), keep, mode) == after_interrupt(m, s, keep, mode).insert(
            keep,
            kept_row(m[keep], mode),
        ),
        !m.contains_key(keep) ==> after_interrupt(m, s.insert(keep), keep, mode) == after_interrupt(m, s, keep, mode),
{
    assert(s.insert(keep).remove(keep) =~= s.remove(keep));
    if m.contains_key(keep) {
        assert(after_interrupt(m, s.insert(keep), keep, mode) =~= after_interrupt(m, s, keep, mode).insert(
            keep,
            kept_row(m[keep], mode),
        ));
    } else {
        assert(after_interrupt(m, s.insert(keep), keep, mode) =~= after_interrupt(m, s, keep, mode));
    }
}

/// Ends the executions `ids`: deletes the first task of each, their timer
/// jobs, and the executions themselves, except the row `keep`, which is
/// kept as `mode` says.
pub fn end_executions(store: &mut RuntimeStore, ids: &Vec<String>, keep: &String, mode: KeptRow)
    requires
        old(store).wf(),
    ensures
        final(store).wf(),
        ({
            let s = id_set(string_views(ids@));
            &&& frame(*old(store), *final(store), set![StoreTable::Tasks, StoreTable::Executions, StoreTable::TimerJobs, StoreTable::JobTypes])
            &&& final(store).tasks@ == old(store).tasks@.remove_keys(tasks_of(*old(store), s))
            &&& final(store).timer_jobs@ == old(store).timer_jobs@.remove_keys(jobs_of(*old(store), s))
            &&& final(store).job_types@ == old(store).job_types@.remove_keys(jobs_of(*old(store), s))
            &&& final(store).executions@ == after_interrupt(old(store).executions@, s, keep@, mode)
        }),
{
    let ghost before = *store;
    let tasks = collect_first_tasks(store, ids);
    let jobs = collect_timer_jobs(store, ids);
    proof {
        assert(before.tasks@.remove_keys(id_set(string_views(tasks@).subrange(0, 0))) =~= before.tasks@);
    }
    let mut k: usize = 0;
    while k < tasks.len()
        invariant
            store.wf(),
            0 <= k <= tasks.len(),
            frame(before, *store, set![StoreTable::Tasks]),
            store.tasks@ == before.tasks@.remove_keys(id_set(string_views(tasks@).subrange(0, k as int))),
        decreases tasks.len() - k,
    {
        store.delete_task(&tasks[k]);
        proof {
            lemma_id_set_step(string_views(tasks@), k as int);
            assert(store.tasks@ =~= before.tasks@.remove_keys(id_set(string_views(tasks@).subrange(0, k + 1))));
        }
        k = k + 1;
    }
    assert(string_views(tasks@).subrange(0, tasks.len() as int) =~= string_views(tasks@));
    let ghost after_tasks = *store;
    proof {
        assert(before.timer_jobs@.remove_keys(id_set(string_views(jobs@).subrange(0, 0))) =~= before.timer_jobs@);
        assert(before.job_types@.remove_keys(id_set(string_views(jobs@).subrange(0, 0))) =~= before.job_types@);
    }
    let mut q: usize = 0;
    while q < jobs.len()
        invariant
            store.wf(),
            0 <= q <= jobs.len(),
            frame(before, *store, set![StoreTable::Tasks, StoreTable::TimerJobs, StoreTable::JobTypes]),
            store.tasks@ == after_tasks.tasks@,
            store.timer_jobs@ == before.timer_jobs@.remove_keys(id_set(string_views(jobs@).subrange(0, q as int))),
            store.job_types@ == before.job_types@.remove_keys(id_set(string_views(jobs@).subrange(0, q as int))),
        decreases jobs.len() - q,
    {
        store.delete_timer_job_state(&jobs[q]);
        proof {
            lemma_id_set_step(string_views(jobs@), q as int);
            assert(store.timer_jobs@ =~= before.timer_jobs@.remove_keys(id_set(string_views(jobs@).subrange(0, q + 1))));
            assert(store.job_types@ =~= before.job_types@.remove_keys(id_set(string_views(jobs@).subrange(0, q + 1))));
        }
        q = q + 1;
    }
    assert(string_views(jobs@).subrange(0, jobs.len() as int) =~= string_views(jobs@));
    let ghost after_jobs = *store;
    let ghost m = before.executions@;
    proof {
        assert(id_set(string_views(ids@).subrange(0, 0)) =~= Set::empty());
        assert(after_interrupt(m, Set::empty(), keep@, mode) =~= m);
    }
    let mut i: usize = 0;
    while i < ids.len()
        invariant
            store.wf(),
            0 <= i <= ids.len(),
            m == before.executions@,
            frame(before, *store, set![StoreTable::Tasks, StoreTable::Executions, StoreTable::TimerJobs, StoreTable::JobTypes]),
            store.tasks@ == after_jobs.tasks@,
            store.timer_jobs@ == after_jobs.timer_jobs@,
            store.job_types@ == after_jobs.job_types@,
            store.executions@ == after_interrupt(m, id_set(string_views(ids@).subrange(0, i as int)), keep@, mode),
        decreases ids.len() - i,
    {
        let ghost sk = id_set(string_views(ids@).subrange(0, i as int));
        proof {
            lemma_id_set_step(string_views(ids@), i as int);
        }
        let x = &ids[i];
        assert(string_views(ids@)[i as int] == x@);
        if str_eq(x.as_str(), keep.as_str()) {
            proof {
                lemma_interrupt_keep(m, sk, keep@, mode);
            }
            match store.find_execution(x) {
                Some(row) => {
                    let mut row = row;
                    match mode {
                        KeptRow::Retire => {
                            row.activity_id = None;
                            row.is_active = false;
                            row.is_ended = true;
                        },
                        KeptRow::Deactivate { clear_activity } => {
                            row.is_active = false;
                            if clear_activity {
                                row.activity_id = None;
                            }
                        },
                    }
                    store.insert_execution(row);
                },
                None => {},
            }
        } else {
            proof {
                lemma_interrupt_delete(m, sk, x@, keep@, mode);
            }
            store.delete_execution(x);
        }
        i = i + 1;
    }
    assert(string_views(ids@).subrange(0, ids.len() as int) =~= string_views(ids@));
}

/// What firing a boundary event did.
#[derive(Debug)]
pub struct BoundaryFiring {
    /// The execution started at the boundary event (stored, active); its
    /// outgoing flows are to be taken.
    pub execution: Execution,
    /// The executions an interrupting boundary ended (the host last); the
    /// caller clears the wait states, boundary registrations and event
    /// subscriptions of each, and records their activities as ended.
    pub interrupted: Vec<String>,
}

/// Whether the host `h` cannot have a boundary event fired on it yet: it is
/// still running (a running scope, such as a subprocess, may carry one when
/// `active_scope_hosts` says so).
pub open spec fn host_busy(h: Execution, active_scope_hosts: bool) -> bool {
    h.is_active && !(active_scope_hosts && h.is_scope)
}

/// What firing the boundary event `boundary_event_id` on host `host` of
/// instance `pid` gives and leaves in the store.
pub open spec fn boundary_fired(
    before: RuntimeStore,
    after: RuntimeStore,
    host: Seq<char>,
    boundary_event_id: Seq<char>,
    cancel_activity: bool,
    pid: Seq<char>,
    active_scope_hosts: bool,
    r: Option<BoundaryFiring>,
) -> bool {
    let m = before.executions@;
    if !m.contains_key(host) || host_busy(m[host], active_scope_hosts) {
        r is None && after == before
    } else {
        let ids = if cancel_activity {
            interrupted_ids(before, host)
        } else {
            Set::empty()
        };
        &&& r is Some
        &&& boundary_execution_of(r->0.execution, m[host], boundary_event_id, pid)
        &&& id_set(string_views(r->0.interrupted@)) == ids
        &&& fired(before, after, ids, pid, r->0.execution)
    }
}

/// Fires the boundary event `boundary_event_id` attached to the activity
/// that `host_execution_id` runs: when it interrupts, the host and
/// everything below it are ended; in every case a new active execution is
/// started at the boundary event, beside the host. Nothing happens when the
/// host is not stored or still busy.
pub fn fire_boundary_event(
    store: &mut RuntimeStore,
    host_execution_id: &String,
    boundary_event_id: &String,
    cancel_activity: bool,
    process_instance_id: &String,
    active_scope_hosts: bool,
) -> (r: Option<BoundaryFiring>)
    requires
        old(store).wf(),
    ensures
        final(store).wf(),
        boundary_fired(*old(store), *final(store), host_execution_id@, boundary_event_id@, cancel_activity,
            process_instance_id@, active_scope_hosts, r),
{
    let ghost before = *store;
    let host = match store.find_execution(host_execution_id) {
        Some(h) => h,
        None => return None,
    };
    if host.is_active && !(active_scope_hosts && host.is_scope) {
        return None;
    }
    let mut ended: Vec<String> = Vec::new();
    if cancel_activity {
        ended = descendant_execution_ids(store, host_execution_id);
        let ghost desc = ended@;
        ended.push(host_execution_id.clone());
        proof {
            assert(ended@.drop_last() =~= desc);
            assert forall|x: Seq<char>| #[trigger] id_set(string_views(ended@)).contains(x) <==> interrupted_ids(before, host_execution_id@).contains(x) by {
                assert(string_views(ended@) =~= string_views(ended@.drop_last()).push(host_execution_id@));
                lemma_seq_contains_after_push(string_views(ended@.drop_last()), host_execution_id@, x);
            }
            assert(id_set(string_views(ended@)) =~= interrupted_ids(before, host_execution_id@));
        }
        end_executions(store, &ended, process_instance_id, KeptRow::Retire);
    } else {
        proof {
            let none = Set::<Seq<char>>::empty();
            assert(id_set(string_views(ended@)) =~= none);
            assert(tasks_of(before, none) =~= none);
            assert(jobs_of(before, none) =~= none);
            assert(before.tasks@.remove_keys(none) =~= before.tasks@);
            assert(before.timer_jobs@.remove_keys(none) =~= before.timer_jobs@);
            assert(before.job_types@.remove_keys(none) =~= before.job_types@);
            assert(after_interrupt(before.executions@, none, process_instance_id@, KeptRow::Retire) =~= before.executions@);
        }
    }
    let execution = Execution {
        id: new_uuid(),
        parent_id: clone_opt(&host.parent_id),
        process_instance_id: Some(process_instance_id.clone()),
        process_definition_id: clone_opt(&host.process_definition_id),
        activity_id: Some(boundary_event_id.clone()),
        is_suspended: false,
        is_active: true,
        is_scope: host.is_scope,
        is_ended: false,
    };
    store.insert_execution(execution.duplicate());
    Some(BoundaryFiring { execution, interrupted: ended })
}

impl RuntimeBoundaryEventState {
    /// A copy of the registration.
    pub fn duplicate(&self) -> (r: Self)
        ensures
            r == *self,
    {
        RuntimeBoundaryEventState {
            boundary_event_id: self.boundary_event_id.clone(),
            attached_activity_id: self.attached_activity_id.clone(),
            process_instance_id: self.process_instance_id.clone(),
            host_execution_id: self.host_execution_id.clone(),
            cancel_activity: self.cancel_activity,
            event_subscription: EventSubscription {
                kind: self.event_subscription.kind,
                event_ref: self.event_subscription.event_ref.clone(),
            },
            configuration: clone_opt(&self.configuration),
        }
    }
}

/// Whether a non-interrupting boundary of this kind stays subscribed after
/// it fires, to fire again.
pub open spec fn repeats(kind: EventSubscriptionKind) -> bool {
    match kind {
        EventSubscriptionKind::Message | EventSubscriptionKind::Signal | EventSubscriptionKind::Conditional
        | EventSubscriptionKind::Escalation | EventSubscriptionKind::EventRegistry => true,
        _ => false,
    }
}

/// Whether the boundary registration `state` is used up once it fired:
/// every interrupting one, and the non-interrupting ones that do not repeat.
pub fn boundary_state_consumed(state: &RuntimeBoundaryEventState) -> (r: bool)
    ensures
        r == (state.cancel_activity || !repeats(state.event_subscription.kind)),
{
    if state.cancel_activity {
        return true;
    }
    match state.event_subscription.kind {
        EventSubscriptionKind::Message | EventSubscriptionKind::Signal | EventSubscriptionKind::Conditional
        | EventSubscriptionKind::Escalation | EventSubscriptionKind::EventRegistry => false,
        _ => true,
    }
}

/// The first of the first `n` registrations of boundary event `bid` in
/// instance `pid`.
pub open spec fn boundary_state_upto(states: Seq<RuntimeBoundaryEventState>, bid: Seq<char>, pid: Seq<char>, n: int) -> Option<
    RuntimeBoundaryEventState,
>
    decreases n,
{
    if n <= 0 {
        None
    } else {
        match boundary_state_upto(states, bid, pid, n - 1) {
            Some(st) => Some(st),
            None => if states[n - 1].boundary_event_id@ == bid && states[n - 1].process_instance_id@ == pid {
                Some(states[n - 1])
            } else {
                None
            },
        }
    }
}

proof fn lemma_boundary_state_grows(states: Seq<RuntimeBoundaryEventState>, bid: Seq<char>, pid: Seq<char>, n: int, m: int)
    requires
        0 <= n <= m,
        boundary_state_upto(states, bid, pid, n) is Some,
    ensures
        boundary_state_upto(states, bid, pid, m) == boundary_state_upto(states, bid, pid, n),
    decreases m - n,
{
    if m > n {
        lemma_boundary_state_grows(states, bid, pid, n, m - 1);
    }
}

/// The registration of boundary event `boundary_event_id` in instance
/// `process_instance_id`.
pub fn find_boundary_event_state<'a>(
    states: &'a Vec<RuntimeBoundaryEventState>,
    boundary_event_id: &String,
    process_instance_id: &String,
) -> (r: Option<&'a RuntimeBoundaryEventState>)
    ensures
        match r {
            Some(st) => boundary_state_upto(states@, boundary_event_id@, process_instance_id@, states@.len() as int) == Some(*st),
            None => boundary_state_upto(states@, boundary_event_id@, process_instance_id@, states@.len() as int) is None,
        },
{
    let mut i: usize = 0;
    while i < states.len()
        invariant
            0 <= i <= states.len(),
            boundary_state_upto(states@, boundary_event_id@, process_instance_id@, i as int) is None,
        decreases states.len() - i,
    {
        if str_eq(states[i].boundary_event_id.as_str(), boundary_event_id.as_str()) && str_eq(
            states[i].process_instance_id.as_str(),
            process_instance_id.as_str(),
        ) {
            proof {
                lemma_boundary_state_grows(states@, boundary_event_id@, process_instance_id@, i + 1, states@.len() as int);
            }
            return Some(&states[i]);
        }
        i = i + 1;
    }
    None
}

impl TriggerBoundaryEventCmd {
    /// Fires the boundary event registered (in `states`) under this id in
    /// the instance. A conditional boundary fires only when its host is
    /// stored and its condition, evaluated by the caller as
    /// `condition_holds`, is true. Nothing happens when no such
    /// registration exists.
    pub fn run(&self, store: &mut RuntimeStore, states: &Vec<RuntimeBoundaryEventState>, condition_holds: bool) -> (r: Option<
        BoundaryFiring,
    >)
        requires
            old(store).wf(),
        ensures
            final(store).wf(),
            match boundary_state_upto(states@, self.boundary_event_id@, self.process_instance_id@, states@.len() as int) {
                None => r is None && *final(store) == *old(store),
                Some(st) => if st.event_subscription.kind == EventSubscriptionKind::Conditional && (
                !old(store).executions@.contains_key(st.host_execution_id@) || !condition_holds) {
                    r is None && *final(store) == *old(store)
                } else {
                    boundary_fired(*old(store), *final(store), st.host_execution_id@, st.boundary_event_id@,
                        st.cancel_activity, self.process_instance_id@, true, r)
                },
            },
    {
        let state = match find_boundary_event_state(states, &self.boundary_event_id, &self.process_instance_id) {
            Some(st) => st,
            None => return None,
        };
        if state.event_subscription.kind == EventSubscriptionKind::Conditional {
            if store.find_execution(&state.host_execution_id).is_none() || !condition_holds {
                return None;
            }
        }
        fire_boundary_event(
            store,
            &state.host_execution_id,
            &state.boundary_event_id,
            state.cancel_activity,
            &self.process_instance_id,
            true,
        )
    }
}

/// The registrations among the first `n` of instance `pid` that the event
/// reaches, in order.
pub open spec fn matching_boundaries(
    store: RuntimeStore,
    models: Seq<DeployedModel>,
    states: Seq<RuntimeBoundaryEventState>,
    kind: EventSubscriptionKind,
    event_ref: Seq<char>,
    pid: Seq<char>,
    n: int,
) -> Seq<RuntimeBoundaryEventState>
    decreases n,
{
    if n <= 0 {
        Seq::empty()
    } else {
        let rest = matching_boundaries(store, models, states, kind, event_ref, pid, n - 1);
        let st = states[n - 1];
        if st.process_instance_id@ == pid && boundary_matches_spec(kind, event_ref, st, boundary_model(store, models, st)) {
            rest.push(st)
        } else {
            rest
        }
    }
}

/// The registration that catches the event among `matching`: for
/// escalations and errors the nearest to where it was thrown, otherwise the
/// first.
pub open spec fn caught_by(
    store: RuntimeStore,
    models: Seq<DeployedModel>,
    matching: Seq<RuntimeBoundaryEventState>,
    kind: EventSubscriptionKind,
    event_ref: Seq<char>,
    source: Option<Seq<char>>,
) -> Option<RuntimeBoundaryEventState> {
    if kind == EventSubscriptionKind::Escalation || kind == EventSubscriptionKind::Error {
        match catching_boundary(store, models, matching, source, event_ref, kind == EventSubscriptionKind::Escalation) {
            Some(i) => Some(matching[i]),
            None => None,
        }
    } else if matching.len() > 0 {
        Some(matching[0])
    } else {
        None
    }
}

impl TriggerBoundaryEventByEventRefCmd {
    /// The registrations of the instance (in `states`) that the event
    /// reaches, each read against the model of its process.
    pub fn matching_states(&self, store: &RuntimeStore, states: &Vec<RuntimeBoundaryEventState>, models: &Vec<DeployedModel>) -> (r:
        Vec<RuntimeBoundaryEventState>)
        requires
            store.wf(),
        ensures
            r@ == matching_boundaries(*store, models@, states@, self.subscription_kind, self.event_ref@,
                self.process_instance_id@, states@.len() as int),
    {
        let mut out: Vec<RuntimeBoundaryEventState> = Vec::new();
        let mut i: usize = 0;
        while i < states.len()
            invariant
                store.wf(),
                0 <= i <= states.len(),
                out@ == matching_boundaries(*store, models@, states@, self.subscription_kind, self.event_ref@,
                    self.process_instance_id@, i as int),
            decreases states.len() - i,
        {
            let st = &states[i];
            if str_eq(st.process_instance_id.as_str(), self.process_instance_id.as_str()) {
                let model = error_model_for_boundary_state(store, models, st);
                if self.matches_state(st, model) {
                    out.push(st.duplicate());
                }
            }
            i = i + 1;
        }
        out
    }

    /// Fires the boundary event of the instance that catches this event
    /// (see `caught_by`), and says whether one did and whether it
    /// interrupted.
    pub fn run(&self, store: &mut RuntimeStore, states: &Vec<RuntimeBoundaryEventState>, models: &Vec<DeployedModel>) -> (r: (
        BoundaryEventTriggerResult,
        Option<BoundaryFiring>,
    ))
        requires
            old(store).wf(),
        ensures
            final(store).wf(),
            match caught_by(
                *old(store),
                models@,
                matching_boundaries(*old(store), models@, states@, self.subscription_kind, self.event_ref@,
                    self.process_instance_id@, states@.len() as int),
                self.subscription_kind,
                self.event_ref@,
                opt_view(self.source_execution_id),
            ) {
                None => r.0 == (BoundaryEventTriggerResult { triggered: false, interrupting: false }) && r.1 is None
                    && *final(store) == *old(store),
                Some(st) => {
                    &&& r.0 == (BoundaryEventTriggerResult { triggered: true, interrupting: st.cancel_activity })
                    &&& boundary_fired(*old(store), *final(store), st.host_execution_id@, st.boundary_event_id@,
                        st.cancel_activity, self.process_instance_id@, true, r.1)
                },
            },
    {
        let matching = self.matching_states(store, states, models);
        let source = self.source_execution_id.as_ref();
        assert(opt_string_view(source) == opt_view(self.source_execution_id));
        let selected = if self.subscription_kind == EventSubscriptionKind::Escalation {
            select_nearest_escalation_boundary(store, models, matching, source, self.event_ref.as_str())
        } else if self.subscription_kind == EventSubscriptionKind::Error {
            select_nearest_error_boundary(store, models, matching, source, self.event_ref.as_str())
        } else if matching.len() > 0 {
            Some(matching[0].duplicate())
        } else {
            None
        };
        let state = match selected {
            Some(st) => st,
            None => return (BoundaryEventTriggerResult { triggered: false, interrupting: false }, None),
        };
        let interrupting = state.cancel_activity;
        let firing = fire_boundary_event(
            store,
            &state.host_execution_id,
            &state.boundary_event_id,
            state.cancel_activity,
            &self.process_instance_id,
            true,
        );
        (BoundaryEventTriggerResult { triggered: true, interrupting }, firing)
    }
}

/// The next firing of a repeating timer, as its business calendar computes
/// it: the remaining cycle and the due time.
#[derive(Debug)]
pub struct CycleSchedule {
    pub cycle: String,
    pub due_time_millis: i64,
}

/// The first of the first `n` timer rows that is the boundary timer `bid`
/// of instance `pid`.
pub open spec fn boundary_timer_upto(rows: Seq<RuntimeTimerJobState>, bid: Seq<char>, pid: Seq<char>, n: int) -> Option<
    RuntimeTimerJobState,
>
    decreases n,
{
    if n <= 0 {
        None
    } else {
        match boundary_timer_upto(rows, bid, pid, n - 1) {
            Some(t) => Some(t),
            None => if rows[n - 1].process_instance_id@ == pid && rows[n - 1].is_boundary && rows[n - 1].activity_id@ == bid {
                Some(rows[n - 1])
            } else {
                None
            },
        }
    }
}

/// The boundary timer `bid` of instance `pid`, if it is scheduled.
pub open spec fn boundary_timer(store: RuntimeStore, bid: Seq<char>, pid: Seq<char>) -> Option<RuntimeTimerJobState> {
    boundary_timer_upto(store.timer_jobs.rows@, bid, pid, store.timer_jobs.rows@.len() as int)
}

proof fn lemma_boundary_timer_grows(rows: Seq<RuntimeTimerJobState>, bid: Seq<char>, pid: Seq<char>, n: int, m: int)
    requires
        0 <= n <= m,
        boundary_timer_upto(rows, bid, pid, n) is Some,
    ensures
        boundary_timer_upto(rows, bid, pid, m) == boundary_timer_upto(rows, bid, pid, n),
    decreases m - n,
{
    if m > n {
        lemma_boundary_timer_grows(rows, bid, pid, n, m - 1);
    }
}

proof fn lemma_boundary_timer_stored(store: RuntimeStore, bid: Seq<char>, pid: Seq<char>, n: int)
    requires
        store.wf(),
        0 <= n <= store.timer_jobs.rows@.len(),
        boundary_timer_upto(store.timer_jobs.rows@, bid, pid, n) is Some,
    ensures
        ({
            let t = boundary_timer_upto(store.timer_jobs.rows@, bid, pid, n)->0;
            store.timer_jobs@.contains_key(t.timer_job_id@) && store.timer_jobs@[t.timer_job_id@] == t
        }),
    decreases n,
{
    let rows = store.timer_jobs.rows@;
    if boundary_timer_upto(rows, bid, pid, n - 1) is Some {
        lemma_boundary_timer_stored(store, bid, pid, n - 1);
    } else {
        lemma_index_of(rows, n - 1);
    }
}

/// The boundary timer `boundary_event_id` of instance
/// `process_instance_id`.
pub fn find_boundary_timer(store: &RuntimeStore, boundary_event_id: &String, process_instance_id: &String) -> (r: Option<
    RuntimeTimerJobState,
>)
    requires
        store.wf(),
    ensures
        r == boundary_timer(*store, boundary_event_id@, process_instance_id@),
{
    let ghost rows = store.timer_jobs.rows@;
    let mut i: usize = 0;
    while i < store.timer_jobs.rows.len()
        invariant
            rows == store.timer_jobs.rows@,
            0 <= i <= rows.len(),
            boundary_timer_upto(rows, boundary_event_id@, process_instance_id@, i as int) is None,
        decreases rows.len() - i,
    {
        let row = &store.timer_jobs.rows[i];
        if str_eq(row.process_instance_id.as_str(), process_instance_id.as_str()) && row.is_boundary && str_eq(
            row.activity_id.as_str(),
            boundary_event_id.as_str(),
        ) {
            proof {
                lemma_boundary_timer_grows(rows, boundary_event_id@, process_instance_id@, i + 1, rows.len() as int);
            }
            return Some(row.duplicate());
        }
        i = i + 1;
    }
    None
}

/// The timer `t` set to fire next as `next` says, unlocked and cleared of
/// its last failure.
pub open spec fn rescheduled(t: RuntimeTimerJobState, next: CycleSchedule) -> RuntimeTimerJobState {
    RuntimeTimerJobState {
        time_cycle: Some(next.cycle),
        due_time: Some(next.due_time_millis),
        lock_owner: None,
        lock_time: None,
        lock_expiration_time: None,
        error_message: None,
        error_details: None,
        ..t
    }
}

impl TriggerTimerBoundaryEventCmd {
    /// Fires the boundary timer `boundary_event_id` of the instance. An
    /// interrupting timer ends its host with everything below it (its own
    /// job with them); a non-interrupting one stays scheduled for the next
    /// firing of its cycle, `next` (computed by the caller from the timer's
    /// cycle, end date and business calendar; `None` when the cycle is
    /// exhausted), and is deleted when it has no cycle or no next firing.
    /// Nothing happens when the timer is not scheduled, or its host is not
    /// stored or still active.
    pub fn run(&self, store: &mut RuntimeStore, next: Option<CycleSchedule>) -> (r: Option<BoundaryFiring>)
        requires
            old(store).wf(),
        ensures
            final(store).wf(),
            match boundary_timer(*old(store), self.boundary_event_id@, self.process_instance_id@) {
                None => r is None && *final(store) == *old(store),
                Some(t) => {
                    let m = old(store).executions@;
                    let host = t.execution_id@;
                    if !m.contains_key(host) || m[host].is_active {
                        r is None && *final(store) == *old(store)
                    } else if t.cancel_activity {
                        boundary_fired(*old(store), *final(store), host, t.activity_id@, true, self.process_instance_id@, false, r)
                    } else {
                        &&& r is Some
                        &&& boundary_execution_of(r->0.execution, m[host], t.activity_id@, self.process_instance_id@)
                        &&& r->0.interrupted@.len() == 0
                        &&& frame(*old(store), *final(store), set![StoreTable::Tasks, StoreTable::Executions, StoreTable::TimerJobs, StoreTable::JobTypes])
                        &&& final(store).tasks@ == old(store).tasks@
                        &&& final(store).executions@ == m.insert(r->0.execution.id@, r->0.execution)
                        &&& (t.time_cycle is Some && next is Some) ==> {
                            &&& final(store).timer_jobs@ == old(store).timer_jobs@.insert(t.timer_job_id@, rescheduled(t, next->0))
                            &&& final(store).job_types@ == old(store).job_types@
                        }
                        &&& !(t.time_cycle is Some && next is Some) ==> {
                            &&& final(store).timer_jobs@ == old(store).timer_jobs@.remove(t.timer_job_id@)
                            &&& final(store).job_types@ == old(store).job_types@.remove(t.timer_job_id@)
                        }
                    }
                },
            },
    {
        let ghost before = *store;
        let timer = match find_boundary_timer(store, &self.boundary_event_id, &self.process_instance_id) {
            Some(t) => t,
            None => return None,
        };
        if timer.cancel_activity {
            return fire_boundary_event(store, &timer.execution_id, &timer.activity_id, true, &self.process_instance_id, false);
        }
        let host = match store.find_execution(&timer.execution_id) {
            Some(h) => h,
            None => return None,
        };
        if host.is_active {
            return None;
        }
        proof {
            lemma_boundary_timer_stored(before, self.boundary_event_id@, self.process_instance_id@,
                before.timer_jobs.rows@.len() as int);
        }
        let repeat = match (&timer.time_cycle, next) {
            (Some(_), Some(n)) => Some(n),
            _ => None,
        };
        match repeat {
            Some(n) => {
                let mut t = timer.duplicate();
                t.time_cycle = Some(n.cycle);
                t.due_time = Some(n.due_time_millis);
                t.lock_owner = None;
                t.lock_time = None;
                t.lock_expiration_time = None;
                t.error_message = None;
                t.error_details = None;
                store.insert_timer_job_state(t);
            },
            None => {
                store.delete_timer_job_state(&timer.timer_job_id);
            },
        }
        let ghost mid = *store;
        let fired = fire_boundary_event(store, &timer.execution_id, &timer.activity_id, false, &self.process_instance_id, false);
        proof {
            let none = Set::<Seq<char>>::empty();
            assert(tasks_of(mid, none) =~= none);
            assert(jobs_of(mid, none) =~= none);
            assert(mid.tasks@.remove_keys(none) =~= mid.tasks@);
            assert(mid.timer_jobs@.remove_keys(none) =~= mid.timer_jobs@);
            assert(mid.job_types@.remove_keys(none) =~= mid.job_types@);
            assert(after_interrupt(mid.executions@, none, self.process_instance_id@, KeptRow::Retire) =~= mid.executions@);
            assert(string_views(fired->0.interrupted@) =~= Seq::<Seq<char>>::empty()) by {
                if string_views(fired->0.interrupted@).len() > 0 {
                    assert(id_set(string_views(fired->0.interrupted@)).contains(string_views(fired->0.interrupted@)[0]));
                }
            }
        }
        fired
    }
}

} // verus!
