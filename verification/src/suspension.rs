//! Suspending and activating process instances and process definitions,
//! together with their executions, tasks and jobs.
use vstd::prelude::*;
use crate::command::{CommandContext, EngineEvent, EntityEventType, EntityKind};
use crate::entities::{opt_view, Duplicate, Execution, Keyed, ProcessInstance, Task};
use crate::error::FlowableError;
use crate::jobs::{
    activate_suspended_jobs_for_process_instance, bulk_applied, count_targets, hint_seq,
    suspend_jobs_for_process_instance, BulkMove,
};
use crate::store::{frame, has_key, index_of, lemma_index_of, rows_map, unique_keys, StoreTable};
use crate::entities::{clone_opt, ProcessDefinition, RuntimeTimerJobState};
use crate::command::Command;
use crate::jobs::opt_is;
use crate::text::cat3;

verus! {

/// `suspended` or `active`.
pub open spec fn state_word(suspended: bool) -> Seq<char> {
    if suspended {
        "suspended"@
    } else {
        "active"@
    }
}

pub fn state_word_str(suspended: bool) -> (r: &'static str)
    ensures
        r@ == state_word(suspended),
{
    if suspended {
        "suspended"
    } else {
        "active"
    }
}

/// The refusal to move an entity into the state it is already in.
pub open spec fn already_in_state_message(entity: Seq<char>, id: Seq<char>, suspended: bool) -> Seq<
    char,
> {
    "Cannot set suspension state '"@ + state_word(suspended) + "' for "@ + entity + " '"@ + id
        + "': already in state '"@ + state_word(suspended) + "'."@
}

pub fn already_in_state_error(entity: &str, id: &String, suspended: bool) -> (r: FlowableError)
    ensures
        r matches FlowableError::ExecutionError(m) && m@ == already_in_state_message(
            entity@,
            id@,
            suspended,
        ),
{
    let word = state_word_str(suspended);
    let mut s = String::from_str("Cannot set suspension state '");
    s.append(word);
    s.append("' for ");
    s.append(entity);
    s.append(" '");
    s.append(id.as_str());
    s.append("': already in state '");
    s.append(word);
    s.append("'.");
    FlowableError::ExecutionError(s)
}

/// The event type of a move into `suspended`.
pub open spec fn event_type_for(suspended: bool) -> EntityEventType {
    if suspended {
        EntityEventType::EntitySuspended
    } else {
        EntityEventType::EntityActivated
    }
}

pub fn event_type_of(suspended: bool) -> (r: EntityEventType)
    ensures
        r == event_type_for(suspended),
{
    if suspended {
        EntityEventType::EntitySuspended
    } else {
        EntityEventType::EntityActivated
    }
}

/// The event about an execution of process instance `pi`.
pub open spec fn execution_event(pi: ProcessInstance, exec_id: String, suspended: bool) -> EngineEvent {
    EngineEvent::Entity {
        event_type: event_type_for(suspended),
        entity_kind: EntityKind::Execution,
        entity_id: exec_id,
        process_instance_id: Some(pi.id),
        execution_id: Some(exec_id),
        process_definition_id: Some(pi.process_definition_id),
    }
}

/// The event about a task of process instance `pi`.
pub open spec fn task_event(pi: ProcessInstance, task: Task, suspended: bool) -> EngineEvent {
    EngineEvent::Entity {
        event_type: event_type_for(suspended),
        entity_kind: EntityKind::Task,
        entity_id: task.id,
        process_instance_id: Some(pi.id),
        execution_id: Some(task.execution_id),
        process_definition_id: Some(pi.process_definition_id),
    }
}

/// An execution moved with process instance `pid`: its root row or a row of it.
pub open spec fn execution_moves(e: Execution, pid: Seq<char>) -> bool {
    e.id@ == pid || opt_view(e.process_instance_id) == Some(pid)
}

/// A child execution of process instance `pid` (not its root row).
pub open spec fn child_execution(e: Execution, pid: Seq<char>) -> bool {
    opt_view(e.process_instance_id) == Some(pid) && e.id@ != pid
}

/// Events about the child executions among `rows`, in row order.
pub open spec fn child_events(rows: Seq<Execution>, pi: ProcessInstance, suspended: bool) -> Seq<
    EngineEvent,
>
    decreases rows.len(),
{
    if rows.len() == 0 {
        Seq::empty()
    } else {
        let prev = child_events(rows.drop_last(), pi, suspended);
        if child_execution(rows.last(), pi.id@) {
            prev.push(execution_event(pi, rows.last().id, suspended))
        } else {
            prev
        }
    }
}

/// Events about the tasks of `pi` among `rows`, in row order.
pub open spec fn task_events(rows: Seq<Task>, pi: ProcessInstance, suspended: bool) -> Seq<
    EngineEvent,
>
    decreases rows.len(),
{
    if rows.len() == 0 {
        Seq::empty()
    } else {
        let prev = task_events(rows.drop_last(), pi, suspended);
        if rows.last().process_instance_id@ == pi.id@ {
            prev.push(task_event(pi, rows.last(), suspended))
        } else {
            prev
        }
    }
}

/// The executions after moving those of `pid` into `suspended`.
pub open spec fn executions_moved(
    rows0: Seq<Execution>,
    execs0: Map<Seq<char>, Execution>,
    execs1: Map<Seq<char>, Execution>,
    pid: Seq<char>,
    suspended: bool,
    upto: int,
) -> bool {
    &&& execs1.dom() == execs0.dom()
    &&& forall|k: Seq<char>| #[trigger]
        execs0.contains_key(k) ==> execs1[k] == if index_of(rows0, k) < upto && execution_moves(
            execs0[k],
            pid,
        ) {
            Execution { is_suspended: suspended, ..execs0[k] }
        } else {
            execs0[k]
        }
}

/// The tasks after moving those of `pid` into `suspended`.
pub open spec fn tasks_moved(
    rows0: Seq<Task>,
    tasks0: Map<Seq<char>, Task>,
    tasks1: Map<Seq<char>, Task>,
    pid: Seq<char>,
    suspended: bool,
    upto: int,
) -> bool {
    &&& tasks1.dom() == tasks0.dom()
    &&& forall|k: Seq<char>| #[trigger]
        tasks0.contains_key(k) ==> tasks1[k] == if index_of(rows0, k) < upto
            && tasks0[k].process_instance_id@ == pid {
            Task { suspended, ..tasks0[k] }
        } else {
            tasks0[k]
        }
}

proof fn lemma_all_indexed<T: Keyed>(rows: Seq<T>, k: Seq<char>)
    requires
        unique_keys(rows),
        rows_map(rows).contains_key(k),
    ensures
        0 <= index_of(rows, k) < rows.len(),
{
    let idx = choose|x: int| 0 <= x < rows.len() && (#[trigger] rows[x]).key() == k;
    lemma_index_of(rows, idx);
}

/// Moves the executions of the process instance (root row included) into
/// `suspended`, queuing an event for each child execution in row order.
fn move_executions(ctx: &mut CommandContext, pi: &ProcessInstance, suspended: bool)
    requires
        old(ctx).session.wf(),
    ensures
        final(ctx).session.wf(),
        frame(old(ctx).session, final(ctx).session, set![StoreTable::Executions]),
        executions_moved(
            old(ctx).session.executions.rows@,
            old(ctx).session.executions@,
            final(ctx).session.executions@,
            pi.id@,
            suspended,
            old(ctx).session.executions.rows@.len() as int,
        ),
        final(ctx).events@ == old(ctx).events@ + child_events(old(ctx).session.executions.rows@, *pi, suspended),
        final(ctx).pending_async_hints == old(ctx).pending_async_hints,
        final(ctx).coordinator == old(ctx).coordinator,
        final(ctx).config == old(ctx).config,
        final(ctx).now_ms == old(ctx).now_ms,
{
    let ghost rows0 = ctx.session.executions.rows@;
    let ghost execs0 = ctx.session.executions@;
    let ghost s0 = ctx.session;
    let ghost ev0 = ctx.events@;
    let ghost c0 = *ctx;
    let n = ctx.session.executions.rows.len();
    let mut i: usize = 0;
    while i < n
        invariant
            ctx.session.wf(),
            n == rows0.len(),
            0 <= i <= n,
            ctx.session.executions.rows@.len() == n,
            forall|j: int| i <= j < n ==> ctx.session.executions.rows@[j] == rows0[j],
            execs0 == rows_map(rows0),
            unique_keys(rows0),
            frame(s0, ctx.session, set![StoreTable::Executions]),
            executions_moved(rows0, execs0, ctx.session.executions@, pi.id@, suspended, i as int),
            ctx.events@ == ev0 + child_events(rows0.take(i as int), *pi, suspended),
            ctx.pending_async_hints == c0.pending_async_hints,
            ctx.coordinator == c0.coordinator,
            ctx.config == c0.config,
            ctx.now_ms == c0.now_ms,
        decreases n - i,
    {
        let e = ctx.session.executions.rows[i].duplicate();
        let ghost k = e.id@;
        let ghost before = ctx.session.executions@;
        proof {
            lemma_index_of(rows0, i as int);
            lemma_index_of(ctx.session.executions.rows@, i as int);
            assert(rows0.take(i + 1).drop_last() =~= rows0.take(i as int));
            assert(rows0.take(i + 1).last() == e);
            assert(execs0[k] == e);
        }
        let in_instance = match &e.process_instance_id {
            Some(p) => p.eq(&pi.id),
            None => false,
        };
        let is_root = e.id.eq(&pi.id);
        if is_root || in_instance {
            let mut moved = e.duplicate();
            moved.is_suspended = suspended;
            let ghost mv = moved;
            let ghost old_rows = ctx.session.executions.rows@;
            ctx.session.executions.upsert(moved);
            if in_instance && !is_root {
                let event = EngineEvent::Entity {
                    event_type: event_type_of(suspended),
                    entity_kind: EntityKind::Execution,
                    entity_id: e.id.clone(),
                    process_instance_id: Some(pi.id.clone()),
                    execution_id: Some(e.id.clone()),
                    process_definition_id: Some(pi.process_definition_id.clone()),
                };
                ctx.add_post_agenda_event(event);
            }
            proof {
                assert(ctx.session.executions.rows@ == old_rows.update(i as int, mv));
                assert(ctx.session.executions@ == before.insert(k, mv));
                assert(ctx.session.executions@.dom() =~= execs0.dom());
                assert forall|k2: Seq<char>| #[trigger] execs0.contains_key(k2) implies ctx.session.executions@[k2] == if index_of(rows0, k2) < i + 1 && execution_moves(execs0[k2], pi.id@) {
                    Execution { is_suspended: suspended, ..execs0[k2] }
                } else {
                    execs0[k2]
                } by {
                    if k2 != k {
                        let idx = index_of(rows0, k2);
                        lemma_all_indexed(rows0, k2);
                        lemma_index_of(rows0, idx);
                        assert(idx != i);
                    }
                }
            }
        } else {
            proof {
                assert forall|k2: Seq<char>| #[trigger] execs0.contains_key(k2) implies ctx.session.executions@[k2] == if index_of(rows0, k2) < i + 1 && execution_moves(execs0[k2], pi.id@) {
                    Execution { is_suspended: suspended, ..execs0[k2] }
                } else {
                    execs0[k2]
                } by {
                    if k2 != k {
                        let idx = index_of(rows0, k2);
                        lemma_all_indexed(rows0, k2);
                        lemma_index_of(rows0, idx);
                        assert(idx != i);
                    }
                }
            }
        }
        i = i + 1;
    }
    assert(rows0.take(n as int) =~= rows0);
}

/// Moves the tasks of the process instance into `suspended`, queuing an
/// event for each in row order.
fn move_tasks(ctx: &mut CommandContext, pi: &ProcessInstance, suspended: bool)
    requires
        old(ctx).session.wf(),
    ensures
        final(ctx).session.wf(),
        frame(old(ctx).session, final(ctx).session, set![StoreTable::Tasks]),
        tasks_moved(
            old(ctx).session.tasks.rows@,
            old(ctx).session.tasks@,
            final(ctx).session.tasks@,
            pi.id@,
            suspended,
            old(ctx).session.tasks.rows@.len() as int,
        ),
        final(ctx).events@ == old(ctx).events@ + task_events(old(ctx).session.tasks.rows@, *pi, suspended),
        final(ctx).pending_async_hints == old(ctx).pending_async_hints,
        final(ctx).coordinator == old(ctx).coordinator,
        final(ctx).config == old(ctx).config,
        final(ctx).now_ms == old(ctx).now_ms,
{
    let ghost rows0 = ctx.session.tasks.rows@;
    let ghost tasks0 = ctx.session.tasks@;
    let ghost s0 = ctx.session;
    let ghost ev0 = ctx.events@;
    let ghost c0 = *ctx;
    let n = ctx.session.tasks.rows.len();
    let mut i: usize = 0;
    while i < n
        invariant
            ctx.session.wf(),
            n == rows0.len(),
            0 <= i <= n,
            ctx.session.tasks.rows@.len() == n,
            forall|j: int| i <= j < n ==> ctx.session.tasks.rows@[j] == rows0[j],
            tasks0 == rows_map(rows0),
            unique_keys(rows0),
            frame(s0, ctx.session, set![StoreTable::Tasks]),
            tasks_moved(rows0, tasks0, ctx.session.tasks@, pi.id@, suspended, i as int),
            ctx.events@ == ev0 + task_events(rows0.take(i as int), *pi, suspended),
            ctx.pending_async_hints == c0.pending_async_hints,
            ctx.coordinator == c0.coordinator,
            ctx.config == c0.config,
            ctx.now_ms == c0.now_ms,
        decreases n - i,
    {
        let t = ctx.session.tasks.rows[i].duplicate();
        let ghost k = t.id@;
        let ghost before = ctx.session.tasks@;
        proof {
            lemma_index_of(rows0, i as int);
            lemma_index_of(ctx.session.tasks.rows@, i as int);
            assert(rows0.take(i + 1).drop_last() =~= rows0.take(i as int));
            assert(rows0.take(i + 1).last() == t);
            assert(tasks0[k] == t);
        }
        if t.process_instance_id.eq(&pi.id) {
            let mut moved = t.duplicate();
            moved.set_suspension_state(suspended);
            let ghost mv = moved;
            let ghost old_rows = ctx.session.tasks.rows@;
            ctx.session.tasks.upsert(moved);
            let event = EngineEvent::Entity {
                event_type: event_type_of(suspended),
                entity_kind: EntityKind::Task,
                entity_id: t.id.clone(),
                process_instance_id: Some(pi.id.clone()),
                execution_id: Some(t.execution_id.clone()),
                process_definition_id: Some(pi.process_definition_id.clone()),
            };
            ctx.add_post_agenda_event(event);
            proof {
                assert(ctx.session.tasks.rows@ == old_rows.update(i as int, mv));
                assert(ctx.session.tasks@ == before.insert(k, mv));
                assert(ctx.session.tasks@.dom() =~= tasks0.dom());
                assert forall|k2: Seq<char>| #[trigger] tasks0.contains_key(k2) implies ctx.session.tasks@[k2] == if index_of(rows0, k2) < i + 1 && tasks0[k2].process_instance_id@ == pi.id@ {
                    Task { suspended, ..tasks0[k2] }
                } else {
                    tasks0[k2]
                } by {
                    if k2 != k {
                        let idx = index_of(rows0, k2);
                        lemma_all_indexed(rows0, k2);
                        lemma_index_of(rows0, idx);
                        assert(idx != i);
                    }
                }
            }
        } else {
            proof {
                assert forall|k2: Seq<char>| #[trigger] tasks0.contains_key(k2) implies ctx.session.tasks@[k2] == if index_of(rows0, k2) < i + 1 && tasks0[k2].process_instance_id@ == pi.id@ {
                    Task { suspended, ..tasks0[k2] }
                } else {
                    tasks0[k2]
                } by {
                    if k2 != k {
                        let idx = index_of(rows0, k2);
                        lemma_all_indexed(rows0, k2);
                        lemma_index_of(rows0, idx);
                        assert(idx != i);
                    }
                }
            }
        }
        i = i + 1;
    }
    assert(rows0.take(n as int) =~= rows0);
}

/// The process instance moved into `suspended`.
pub open spec fn moved_instance(pi: ProcessInstance, suspended: bool) -> ProcessInstance {
    ProcessInstance { is_suspended: suspended, ..pi }
}

/// The bulk job move for process instance `pid`.
pub open spec fn job_move(pid: Seq<char>, suspended: bool, c: CommandContext) -> BulkMove {
    if suspended {
        BulkMove::Suspend { pid }
    } else {
        BulkMove::Activate { pid, coord: c.coordinator, now: c.now_ms }
    }
}

/// `c1` is `c0` after moving process instance `pi`, its executions, tasks
/// and jobs into `suspended`, with the events (instance, child executions,
/// tasks) and executor hints that go with it.
pub open spec fn instance_moved(
    c0: CommandContext,
    c1: CommandContext,
    pi: ProcessInstance,
    suspended: bool,
) -> bool {
    let m = job_move(pi.id@, suspended, c0);
    &&& frame(
        c0.session,
        c1.session,
        set![StoreTable::ProcessInstances, StoreTable::Executions, StoreTable::Tasks, StoreTable::TimerJobs, StoreTable::JobTypes],
    )
    &&& c1.session.process_instances@ == c0.session.process_instances@.insert(
        pi.id@,
        moved_instance(pi, suspended),
    )
    &&& executions_moved(
        c0.session.executions.rows@,
        c0.session.executions@,
        c1.session.executions@,
        pi.id@,
        suspended,
        c0.session.executions.rows@.len() as int,
    )
    &&& tasks_moved(
        c0.session.tasks.rows@,
        c0.session.tasks@,
        c1.session.tasks@,
        pi.id@,
        suspended,
        c0.session.tasks.rows@.len() as int,
    )
    &&& bulk_applied(
        c0.session.timer_jobs@,
        c1.session.timer_jobs@,
        c0.session.job_types@,
        c1.session.job_types@,
        c0.session.timer_jobs.rows@,
        c0.session.timer_jobs.rows@.len() as int,
        m,
    )
    &&& c1.events@ == c0.events@ + seq![execution_event(pi, pi.id, suspended)] + child_events(
        c0.session.executions.rows@,
        pi,
        suspended,
    ) + task_events(c0.session.tasks.rows@, pi, suspended)
    &&& c1.pending_async_hints@ == c0.pending_async_hints@ + hint_seq(
        c0.session.timer_jobs.rows@,
        c1.session.timer_jobs@,
        c0.session.job_types@,
        m,
    )
    &&& c1.coordinator == c0.coordinator
    &&& c1.config == c0.config
    &&& c1.now_ms == c0.now_ms
}

proof fn lemma_hint_seq_suspend(
    rows: Seq<crate::entities::RuntimeTimerJobState>,
    j: Map<Seq<char>, crate::entities::RuntimeTimerJobState>,
    t: Map<Seq<char>, crate::entities::JobTypeEntry>,
    pid: Seq<char>,
)
    ensures
        hint_seq(rows, j, t, BulkMove::Suspend { pid }) == Seq::<crate::entities::RuntimeTimerJobState>::empty(),
    decreases rows.len(),
{
    if rows.len() > 0 {
        lemma_hint_seq_suspend(rows.drop_last(), j, t, pid);
    }
}

/// Moves a process instance into `suspended` together with its executions,
/// tasks and jobs; refused when it is already in that state.
pub fn set_process_instance_suspension_state(
    ctx: &mut CommandContext,
    pi: ProcessInstance,
    suspended: bool,
) -> (r: Result<ProcessInstance, FlowableError>)
    requires
        old(ctx).session.wf(),
    ensures
        final(ctx).session.wf(),
        (pi.is_suspended == suspended) <==> (r matches Err(FlowableError::ExecutionError(m))
            && m@ == already_in_state_message("process instance"@, pi.id@, suspended)),
        r is Err <==> pi.is_suspended == suspended,
        r is Err ==> *final(ctx) == *old(ctx),
        r is Ok ==> r == Ok::<ProcessInstance, FlowableError>(moved_instance(pi, suspended))
            && instance_moved(*old(ctx), *final(ctx), pi, suspended),
        r is Ok && has_key(old(ctx).session.process_instances.rows@, pi.id@) ==> final(ctx).session.process_instances.rows@
            == old(ctx).session.process_instances.rows@.update(
            index_of(old(ctx).session.process_instances.rows@, pi.id@),
            moved_instance(pi, suspended),
        ),
{
    if pi.is_suspended == suspended {
        return Err(already_in_state_error("process instance", &pi.id, suspended));
    }
    let ghost c0 = *ctx;
    let mut pi = pi;
    let ghost pi0 = pi;
    pi.is_suspended = suspended;
    ctx.session.insert_process_instance(pi.duplicate());
    let root_event = EngineEvent::Entity {
        event_type: event_type_of(suspended),
        entity_kind: EntityKind::Execution,
        entity_id: pi.id.clone(),
        process_instance_id: Some(pi.id.clone()),
        execution_id: Some(pi.id.clone()),
        process_definition_id: Some(pi.process_definition_id.clone()),
    };
    ctx.add_post_agenda_event(root_event);
    let ghost c1 = *ctx;
    move_executions(ctx, &pi, suspended);
    let ghost c2 = *ctx;
    move_tasks(ctx, &pi, suspended);
    let ghost c3 = *ctx;
    if suspended {
        let _ = suspend_jobs_for_process_instance(&mut ctx.session, &pi.id);
        proof {
            lemma_hint_seq_suspend(c3.session.timer_jobs.rows@, ctx.session.timer_jobs@, c3.session.job_types@, pi.id@);
        }
    } else {
        let _ = activate_suspended_jobs_for_process_instance(ctx, &pi.id);
    }
    proof {
        assert(child_events(c0.session.executions.rows@, pi, suspended) == child_events(c0.session.executions.rows@, pi0, suspended)) by {
            lemma_child_events_same(c0.session.executions.rows@, pi, pi0, suspended);
        }
        assert(task_events(c0.session.tasks.rows@, pi, suspended) == task_events(c0.session.tasks.rows@, pi0, suspended)) by {
            lemma_task_events_same(c0.session.tasks.rows@, pi, pi0, suspended);
        }
        assert(ctx.pending_async_hints@ =~= c0.pending_async_hints@ + hint_seq(c0.session.timer_jobs.rows@, ctx.session.timer_jobs@, c0.session.job_types@, job_move(pi0.id@, suspended, c0)));
        assert(frame(c0.session, ctx.session, set![StoreTable::ProcessInstances, StoreTable::Executions, StoreTable::Tasks, StoreTable::TimerJobs, StoreTable::JobTypes]));
        assert(ctx.session.process_instances@ == c0.session.process_instances@.insert(pi0.id@, moved_instance(pi0, suspended)));
        assert(executions_moved(c0.session.executions.rows@, c0.session.executions@, ctx.session.executions@, pi0.id@, suspended, c0.session.executions.rows@.len() as int));
        assert(tasks_moved(c0.session.tasks.rows@, c0.session.tasks@, ctx.session.tasks@, pi0.id@, suspended, c0.session.tasks.rows@.len() as int));
        assert(bulk_applied(c0.session.timer_jobs@, ctx.session.timer_jobs@, c0.session.job_types@, ctx.session.job_types@, c0.session.timer_jobs.rows@, c0.session.timer_jobs.rows@.len() as int, job_move(pi0.id@, suspended, c0)));
        assert(ctx.events@ =~= c0.events@ + seq![execution_event(pi0, pi0.id, suspended)] + child_events(c0.session.executions.rows@, pi0, suspended) + task_events(c0.session.tasks.rows@, pi0, suspended));
    }
    Ok(pi)
}

proof fn lemma_child_events_same(rows: Seq<Execution>, a: ProcessInstance, b: ProcessInstance, s: bool)
    requires
        a.id == b.id,
        a.process_definition_id == b.process_definition_id,
    ensures
        child_events(rows, a, s) == child_events(rows, b, s),
    decreases rows.len(),
{
    if rows.len() > 0 {
        lemma_child_events_same(rows.drop_last(), a, b, s);
    }
}

proof fn lemma_task_events_same(rows: Seq<Task>, a: ProcessInstance, b: ProcessInstance, s: bool)
    requires
        a.id == b.id,
        a.process_definition_id == b.process_definition_id,
    ensures
        task_events(rows, a, s) == task_events(rows, b, s),
    decreases rows.len(),
{
    if rows.len() > 0 {
        lemma_task_events_same(rows.drop_last(), a, b, s);
    }
}

/// The instances of definition `def_id` not yet in state `s`, in row order.
pub open spec fn selected_instances(rows: Seq<ProcessInstance>, def_id: Seq<char>, s: bool) -> Seq<
    ProcessInstance,
>
    decreases rows.len(),
{
    if rows.len() == 0 {
        Seq::empty()
    } else {
        let prev = selected_instances(rows.drop_last(), def_id, s);
        if rows.last().process_definition_id@ == def_id && rows.last().is_suspended != s {
            prev.push(rows.last())
        } else {
            prev
        }
    }
}

/// `c1` is `c0` after moving each of `pis`, in turn, into `s`.
pub open spec fn instances_moved_in_turn(
    c0: CommandContext,
    c1: CommandContext,
    pis: Seq<ProcessInstance>,
    s: bool,
) -> bool {
    exists|cs: Seq<CommandContext>|
        #![trigger cs[0]]
        {
            &&& cs.len() == pis.len() + 1
            &&& cs[0] == c0
            &&& cs.last() == c1
            &&& forall|i: int|
                0 <= i < pis.len() ==> instance_moved(#[trigger] cs[i], cs[i + 1], pis[i], s)
        }
}

/// `c1` is `c0` after moving definition `def_id` into `s` and then each of
/// `pis`, in turn.
pub open spec fn moved_in_turn(
    c0: CommandContext,
    c1: CommandContext,
    def_id: String,
    pis: Seq<ProcessInstance>,
    s: bool,
) -> bool {
    exists|c: CommandContext|
        #![trigger definition_stage(c0, c, def_id, s)]
        definition_stage(c0, c, def_id, s) && instances_moved_in_turn(c, c1, pis, s)
}

/// `c` is `c0` right after the definition `def_id` was moved into `s` and
/// its event queued.
pub open spec fn definition_stage(c0: CommandContext, c: CommandContext, def_id: String, s: bool) -> bool {
    &&& frame(c0.session, c.session, set![StoreTable::ProcessDefinitions])
    &&& c.session.process_definitions@ == c0.session.process_definitions@.insert(
        def_id@,
        ProcessDefinition { is_suspended: s, ..c0.session.process_definitions@[def_id@] },
    )
    &&& c.events@ == c0.events@.push(definition_event(def_id, s))
    &&& c.pending_async_hints == c0.pending_async_hints
    &&& c.coordinator == c0.coordinator
    &&& c.config == c0.config
    &&& c.now_ms == c0.now_ms
}

/// Result of moving definition `def_id` into `s`.
pub open spec fn moved_definition(c0: CommandContext, def_id: Seq<char>, s: bool) -> ProcessDefinition {
    ProcessDefinition { is_suspended: s, ..c0.session.process_definitions@[def_id] }
}

/// The event about a process definition.
pub open spec fn definition_event(def_id: String, suspended: bool) -> EngineEvent {
    EngineEvent::Entity {
        event_type: event_type_for(suspended),
        entity_kind: EntityKind::ProcessDefinition,
        entity_id: def_id,
        process_instance_id: None,
        execution_id: None,
        process_definition_id: Some(def_id),
    }
}

/// Moves a process definition into `suspended`; with `include_process_instances`
/// also every instance of it in the opposite state (with their executions,
/// tasks and jobs), in row order. Refused when the definition is missing or
/// already in that state.
pub fn set_process_definition_suspension_state(
    ctx: &mut CommandContext,
    process_definition_id: &String,
    suspended: bool,
    include_process_instances: bool,
) -> (r: Result<ProcessDefinition, FlowableError>)
    requires
        old(ctx).session.wf(),
    ensures
        final(ctx).session.wf(),
        !old(ctx).session.process_definitions@.contains_key(process_definition_id@) <==> (r matches Err(FlowableError::NotFound(m)) && m@ == "Process definition '"@ + process_definition_id@ + "' was not found"@),
        (old(ctx).session.process_definitions@.contains_key(process_definition_id@)
            && old(ctx).session.process_definitions@[process_definition_id@].is_suspended == suspended)
            <==> (r matches Err(FlowableError::ExecutionError(m)) && m@ == already_in_state_message("process definition"@, process_definition_id@, suspended)),
        r is Err <==> (!old(ctx).session.process_definitions@.contains_key(process_definition_id@)
            || old(ctx).session.process_definitions@[process_definition_id@].is_suspended == suspended),
        r is Err ==> *final(ctx) == *old(ctx),
        r matches Ok(d) ==> d == moved_definition(*old(ctx), process_definition_id@, suspended),
        r is Ok && include_process_instances ==> moved_in_turn(
            *old(ctx),
            *final(ctx),
            *process_definition_id,
            selected_instances(old(ctx).session.process_instances.rows@, process_definition_id@, suspended),
            suspended,
        ),
        r is Ok && !include_process_instances ==> definition_stage(*old(ctx), *final(ctx), *process_definition_id, suspended),
        final(ctx).config == old(ctx).config,
        final(ctx).now_ms == old(ctx).now_ms,
{
    proof {
        reveal_strlit("Process definition '");
        reveal_strlit("' was not found");
    }
    let mut definition = match ctx.session.get_process_definition(process_definition_id) {
        Some(d) => d,
        None => {
            return Err(
                FlowableError::NotFound(
                    cat3("Process definition '", process_definition_id.as_str(), "' was not found"),
                ),
            );
        },
    };
    if definition.is_suspended == suspended {
        return Err(already_in_state_error("process definition", process_definition_id, suspended));
    }
    let ghost c_orig = *ctx;
    definition.is_suspended = suspended;
    ctx.session.insert_process_definition(definition.duplicate());
    let event = EngineEvent::Entity {
        event_type: event_type_of(suspended),
        entity_kind: EntityKind::ProcessDefinition,
        entity_id: process_definition_id.clone(),
        process_instance_id: None,
        execution_id: None,
        process_definition_id: Some(process_definition_id.clone()),
    };
    ctx.add_post_agenda_event(event);
    let ghost c_start = *ctx;
    proof {
        assert(definition_stage(c_orig, c_start, *process_definition_id, suspended));
    }
    if include_process_instances {
        let _ = move_instances_of_definition(ctx, process_definition_id, suspended);
        proof {
            assert(definition_stage(c_orig, c_start, *process_definition_id, suspended));
        }
    }
    Ok(definition)
}

/// Moves every instance of definition `def_id` not yet in state `suspended`,
/// in row order; returns how many were moved.
pub fn move_instances_of_definition(ctx: &mut CommandContext, process_definition_id: &String, suspended: bool) -> (r: usize)
    requires
        old(ctx).session.wf(),
    ensures
        final(ctx).session.wf(),
        instances_moved_in_turn(
            *old(ctx),
            *final(ctx),
            selected_instances(old(ctx).session.process_instances.rows@, process_definition_id@, suspended),
            suspended,
        ),
        r == selected_instances(old(ctx).session.process_instances.rows@, process_definition_id@, suspended).len(),
        final(ctx).config == old(ctx).config,
        final(ctx).now_ms == old(ctx).now_ms,
{
    let ghost start = *ctx;
    let ghost rows0 = ctx.session.process_instances.rows@;
    let ghost pis0 = ctx.session.process_instances@;
    let ghost cs = seq![start];
    let n = ctx.session.process_instances.rows.len();
    let mut count: usize = 0;
    let mut i: usize = 0;
    while i < n
        invariant
            ctx.session.wf(),
            n == rows0.len(),
            0 <= i <= n,
            ctx.session.process_instances.rows@.len() == n,
            forall|j: int| i <= j < n ==> ctx.session.process_instances.rows@[j] == rows0[j],
            pis0 == rows_map(rows0),
            unique_keys(rows0),
            cs.len() == selected_instances(rows0.take(i as int), process_definition_id@, suspended).len() + 1,
            count == cs.len() - 1,
            count <= i,
            cs[0] == start,
            cs.last() == *ctx,
            ctx.config == start.config,
            ctx.now_ms == start.now_ms,
            forall|x: int| 0 <= x < cs.len() - 1 ==> instance_moved(#[trigger] cs[x], cs[x + 1], selected_instances(rows0.take(i as int), process_definition_id@, suspended)[x], suspended),
        decreases n - i,
    {
        let pi = ctx.session.process_instances.rows[i].duplicate();
        proof {
            assert(rows0.take(i + 1).drop_last() =~= rows0.take(i as int));
            assert(rows0.take(i + 1).last() == pi);
            lemma_index_of(ctx.session.process_instances.rows@, i as int);
        }
        let ghost sel_before = selected_instances(rows0.take(i as int), process_definition_id@, suspended);
        if pi.process_definition_id.eq(process_definition_id) && pi.is_suspended != suspended {
            let ghost before = *ctx;
            let ghost pi_g = pi;
            let res = set_process_instance_suspension_state(ctx, pi, suspended);
            proof {
                let sel_after = selected_instances(rows0.take(i + 1), process_definition_id@, suspended);
                assert(sel_after == sel_before.push(pi_g));
                let cs2 = cs.push(*ctx);
                assert forall|x: int| 0 <= x < cs2.len() - 1 implies instance_moved(#[trigger] cs2[x], cs2[x + 1], sel_after[x], suspended) by {
                    if x < cs.len() - 1 {
                        assert(cs2[x] == cs[x] && cs2[x + 1] == cs[x + 1]);
                        assert(sel_after[x] == sel_before[x]);
                    } else {
                        assert(cs2[x] == before);
                        assert(sel_after[x] == pi_g);
                    }
                }
                cs = cs2;
            }
            count = count + 1;
        }
        i = i + 1;
    }
    proof {
        assert(rows0.take(n as int) =~= rows0);
        assert(cs.len() == selected_instances(rows0, process_definition_id@, suspended).len() + 1);
    }
    count
}

/// Moves every instance of a definition that is not yet in the target state.
#[derive(Debug)]
pub struct SuspendProcessInstancesByDefinitionCmd {
    pub process_definition_id: String,
    pub suspended: bool,
}

impl SuspendProcessInstancesByDefinitionCmd {
    pub fn new(process_definition_id: String, suspended: bool) -> (r: Self)
        ensures
            r.process_definition_id == process_definition_id,
            r.suspended == suspended,
    {
        SuspendProcessInstancesByDefinitionCmd { process_definition_id, suspended }
    }
}

impl Command<usize> for SuspendProcessInstancesByDefinitionCmd {
    /// Returns how many instances were moved.
    fn execute(&self, ctx: &mut CommandContext) -> (r: Result<usize, FlowableError>)
        ensures
            r matches Ok(n) && n == selected_instances(old(ctx).session.process_instances.rows@, self.process_definition_id@, self.suspended).len(),
            instances_moved_in_turn(
                *old(ctx),
                *final(ctx),
                selected_instances(old(ctx).session.process_instances.rows@, self.process_definition_id@, self.suspended),
                self.suspended,
            ),
    {
        let n = move_instances_of_definition(ctx, &self.process_definition_id, self.suspended);
        Ok(n)
    }
}

/// Activity id of a timer that suspends a process definition.
pub open spec fn suspend_definition_activity() -> Seq<char> {
    "suspend-processdefinition"@
}

/// Activity id of a timer that activates a process definition.
pub open spec fn activate_definition_activity() -> Seq<char> {
    "activate-processdefinition"@
}

/// Marker, in `attached_activity_id`, that the definition's instances move too.
pub open spec fn include_instances_marker() -> Seq<char> {
    "includeProcessInstances"@
}

/// The target state of a scheduled definition suspend/activate timer.
pub open spec fn scheduled_definition_spec(job: RuntimeTimerJobState) -> Option<bool> {
    if job.activity_id@ == suspend_definition_activity() {
        Some(true)
    } else if job.activity_id@ == activate_definition_activity() {
        Some(false)
    } else {
        None
    }
}

/// The target state of a scheduled definition suspend/activate timer, or
/// `None` when the job is not one.
pub fn scheduled_process_definition_suspended(job: &RuntimeTimerJobState) -> (r: Option<bool>)
    ensures
        job.activity_id@ == suspend_definition_activity() ==> r == Some(true),
        job.activity_id@ == activate_definition_activity() ==> r == Some(false),
        job.activity_id@ != suspend_definition_activity() && job.activity_id@
            != activate_definition_activity() ==> r is None,
{
    proof {
        reveal_strlit("suspend-processdefinition");
        reveal_strlit("activate-processdefinition");
        assert(activate_definition_activity()[0] != suspend_definition_activity()[0]);
    }
    if job.activity_id.eq(&String::from_str("suspend-processdefinition")) {
        Some(true)
    } else if job.activity_id.eq(&String::from_str("activate-processdefinition")) {
        Some(false)
    } else {
        None
    }
}

/// Runs a scheduled definition suspend/activate timer: the definition id is
/// carried in the job's `execution_id`; on success the timer is deleted.
#[derive(Debug)]
pub struct ExecuteScheduledProcessDefinitionActionCmd {
    pub timer_job: RuntimeTimerJobState,
    pub suspended: bool,
}

impl ExecuteScheduledProcessDefinitionActionCmd {
    pub fn new(timer_job: RuntimeTimerJobState, suspended: bool) -> (r: Self)
        ensures
            r.timer_job == timer_job,
            r.suspended == suspended,
    {
        ExecuteScheduledProcessDefinitionActionCmd { timer_job, suspended }
    }
}

impl Command<()> for ExecuteScheduledProcessDefinitionActionCmd {
    fn execute(&self, ctx: &mut CommandContext) -> (r: Result<(), FlowableError>)
        ensures
            r is Err <==> (!old(ctx).session.process_definitions@.contains_key(self.timer_job.execution_id@)
                || old(ctx).session.process_definitions@[self.timer_job.execution_id@].is_suspended == self.suspended),
            r is Err ==> *final(ctx) == *old(ctx),
            r is Ok ==> exists|c: CommandContext| {
                &&& #[trigger] c.session.wf()
                &&& (if opt_view(self.timer_job.attached_activity_id) == Some(include_instances_marker()) {
                    moved_in_turn(*old(ctx), c, self.timer_job.execution_id, selected_instances(old(ctx).session.process_instances.rows@, self.timer_job.execution_id@, self.suspended), self.suspended)
                } else {
                    definition_stage(*old(ctx), c, self.timer_job.execution_id, self.suspended)
                })
                &&& frame(c.session, final(ctx).session, set![StoreTable::TimerJobs, StoreTable::JobTypes])
                &&& final(ctx).session.timer_jobs@ == c.session.timer_jobs@.remove(self.timer_job.timer_job_id@)
                &&& final(ctx).session.job_types@ == c.session.job_types@.remove(self.timer_job.timer_job_id@)
                &&& final(ctx).events == c.events
                &&& final(ctx).pending_async_hints == c.pending_async_hints
            },
            final(ctx).config == old(ctx).config,
            final(ctx).now_ms == old(ctx).now_ms,
    {
        proof {
            reveal_strlit("includeProcessInstances");
        }
        let with_instances = opt_is(&self.timer_job.attached_activity_id, "includeProcessInstances");
        set_process_definition_suspension_state(ctx, &self.timer_job.execution_id, self.suspended, with_instances)?;
        let ghost c = *ctx;
        ctx.session.delete_timer_job_state(&self.timer_job.timer_job_id);
        assert(c.session.wf());
        Ok(())
    }
}

/// Field updates of a process instance; `Some(v)` sets the field to `v`.
#[derive(Debug)]
pub struct ProcessInstanceUpdate {
    pub name: Option<Option<String>>,
    pub business_key: Option<Option<String>>,
    pub business_status: Option<Option<String>>,
    pub callback_id: Option<Option<String>>,
    pub callback_type: Option<Option<String>>,
    pub reference_id: Option<Option<String>>,
    pub reference_type: Option<Option<String>>,
}

/// `current` replaced by the update when one is given.
pub open spec fn updated_field(current: Option<String>, update: Option<Option<String>>) -> Option<String> {
    match update {
        Some(v) => v,
        None => current,
    }
}

/// The instance with the given field updates applied.
pub open spec fn apply_update(pi: ProcessInstance, u: ProcessInstanceUpdate) -> ProcessInstance {
    ProcessInstance {
        name: updated_field(pi.name, u.name),
        business_key: updated_field(pi.business_key, u.business_key),
        business_status: updated_field(pi.business_status, u.business_status),
        callback_id: updated_field(pi.callback_id, u.callback_id),
        callback_type: updated_field(pi.callback_type, u.callback_type),
        reference_id: updated_field(pi.reference_id, u.reference_id),
        reference_type: updated_field(pi.reference_type, u.reference_type),
        ..pi
    }
}

fn take_update(current: Option<String>, update: &Option<Option<String>>) -> (r: Option<String>)
    ensures
        r == updated_field(current, *update),
{
    match update {
        Some(v) => clone_opt(v),
        None => current,
    }
}

/// Updates fields of a process instance and, optionally, its suspension state.
#[derive(Debug)]
pub struct UpdateProcessInstanceFieldsCmd {
    pub process_instance_id: String,
    pub updates: ProcessInstanceUpdate,
    pub suspended: Option<bool>,
}

impl UpdateProcessInstanceFieldsCmd {
    pub fn new(process_instance_id: String, updates: ProcessInstanceUpdate, suspended: Option<bool>) -> (r: Self)
        ensures
            r.process_instance_id == process_instance_id,
            r.updates == updates,
            r.suspended == suspended,
    {
        UpdateProcessInstanceFieldsCmd { process_instance_id, updates, suspended }
    }
}

impl Command<ProcessInstance> for UpdateProcessInstanceFieldsCmd {
    /// Refused for a missing or ended instance, or when asked to move it into
    /// the state it is in; otherwise applies the updates and, when a state is
    /// given, moves the instance (with executions, tasks and jobs) into it.
    fn execute(&self, ctx: &mut CommandContext) -> (r: Result<ProcessInstance, FlowableError>)
        ensures
            !old(ctx).session.process_instances@.contains_key(self.process_instance_id@) <==> (r matches Err(FlowableError::NotFound(m)) && m@ == "Process instance '"@ + self.process_instance_id@ + "' was not found"@),
            (old(ctx).session.process_instances@.contains_key(self.process_instance_id@) && old(ctx).session.process_instances@[self.process_instance_id@].is_ended)
                <==> (r matches Err(FlowableError::DeploymentValidationError(m)) && m@ == "Cannot update ended process instance '"@ + self.process_instance_id@ + "'"@),
            (old(ctx).session.process_instances@.contains_key(self.process_instance_id@) && !old(ctx).session.process_instances@[self.process_instance_id@].is_ended
                && self.suspended == Some(old(ctx).session.process_instances@[self.process_instance_id@].is_suspended))
                <==> (r matches Err(FlowableError::ExecutionError(m)) && m@ == already_in_state_message("process instance"@, self.process_instance_id@, old(ctx).session.process_instances@[self.process_instance_id@].is_suspended)),
            r is Err ==> *final(ctx) == *old(ctx),
            r matches Ok(p) ==> {
                let pi = apply_update(old(ctx).session.process_instances@[self.process_instance_id@], self.updates);
                match self.suspended {
                    Some(s) => p == moved_instance(pi, s) && instance_moved(*old(ctx), *final(ctx), pi, s),
                    None => p == pi
                        && final(ctx).session.process_instances@ == old(ctx).session.process_instances@.insert(self.process_instance_id@, pi)
                        && frame(old(ctx).session, final(ctx).session, set![StoreTable::ProcessInstances])
                        && final(ctx).events == old(ctx).events,
                }
            },
    {
        proof {
            reveal_strlit("Process instance '");
            reveal_strlit("' was not found");
            reveal_strlit("Cannot update ended process instance '");
            reveal_strlit("'");
            reveal_strlit("Cannot set suspension state '");
        }
        let pi = match ctx.session.find_process_instance(&self.process_instance_id) {
            Some(p) => p,
            None => {
                return Err(FlowableError::NotFound(cat3("Process instance '", self.process_instance_id.as_str(), "' was not found")));
            },
        };
        if pi.is_ended {
            return Err(FlowableError::DeploymentValidationError(cat3("Cannot update ended process instance '", self.process_instance_id.as_str(), "'")));
        }
        if let Some(s) = self.suspended {
            if pi.is_suspended == s {
                return Err(already_in_state_error("process instance", &self.process_instance_id, pi.is_suspended));
            }
        }
        let mut pi = pi;
        pi.name = take_update(pi.name, &self.updates.name);
        pi.business_key = take_update(pi.business_key, &self.updates.business_key);
        pi.business_status = take_update(pi.business_status, &self.updates.business_status);
        pi.callback_id = take_update(pi.callback_id, &self.updates.callback_id);
        pi.callback_type = take_update(pi.callback_type, &self.updates.callback_type);
        pi.reference_id = take_update(pi.reference_id, &self.updates.reference_id);
        pi.reference_type = take_update(pi.reference_type, &self.updates.reference_type);
        if let Some(s) = self.suspended {
            return set_process_instance_suspension_state(ctx, pi, s);
        }
        ctx.session.insert_process_instance(pi.duplicate());
        Ok(pi)
    }
}

/// An update sets each field it gives to the given value (`Some(None)`
/// clears it) and leaves every field it does not give, and the instance's
/// identity, definition and states, as they were.
pub proof fn update_sets_given_fields(pi: ProcessInstance, u: ProcessInstanceUpdate)
    ensures
        ({
            let p = apply_update(pi, u);
            &&& (u.name matches Some(v) ==> p.name == v) && (u.name is None ==> p.name == pi.name)
            &&& (u.business_key matches Some(v) ==> p.business_key == v)
                && (u.business_key is None ==> p.business_key == pi.business_key)
            &&& (u.business_status matches Some(v) ==> p.business_status == v)
                && (u.business_status is None ==> p.business_status == pi.business_status)
            &&& (u.callback_id matches Some(v) ==> p.callback_id == v)
                && (u.callback_id is None ==> p.callback_id == pi.callback_id)
            &&& (u.callback_type matches Some(v) ==> p.callback_type == v)
                && (u.callback_type is None ==> p.callback_type == pi.callback_type)
            &&& (u.reference_id matches Some(v) ==> p.reference_id == v)
                && (u.reference_id is None ==> p.reference_id == pi.reference_id)
            &&& (u.reference_type matches Some(v) ==> p.reference_type == v)
                && (u.reference_type is None ==> p.reference_type == pi.reference_type)
            &&& p.id == pi.id
            &&& p.process_definition_id == pi.process_definition_id
            &&& p.process_definition_key == pi.process_definition_key
            &&& p.tenant_id == pi.tenant_id
            &&& p.is_suspended == pi.is_suspended
            &&& p.is_ended == pi.is_ended
            &&& p.super_execution_id == pi.super_execution_id
        }),
{
}

} // verus!
