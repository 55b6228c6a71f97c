//! What happens around a BPMN error or escalation that leaves a called
//! process: the chain of call activities it climbs, the called instances
//! removed on the way, and the error when nothing catches it.
use vstd::prelude::*;
use crate::command::{CommandContext, EngineEvent, EntityEventType, EntityKind};
use crate::entities::{opt_view, Duplicate, ProcessInstance};
use crate::error::FlowableError;
use crate::instance_rows::InstanceScoped;
use crate::store::{frame, RuntimeStore, StoreTable};

verus! {

/// The error of a BPMN error that no boundary event or event subprocess
/// caught, in its process or any calling one.
pub fn uncaught_bpmn_error(code: &str) -> (r: FlowableError)
    ensures
        r is ExecutionError,
        r->ExecutionError_0@ == "No catching boundary event found for error with errorCode '"@ + code@
            + "', neither in same process nor in parent process"@,
{
    FlowableError::ExecutionError(crate::text::cat3(
        "No catching boundary event found for error with errorCode '",
        code,
        "', neither in same process nor in parent process",
    ))
}

/// The delete reason of a called instance left by a caught BPMN error.
pub fn error_delete_reason(code: &str) -> (r: String)
    ensures
        r@ == "ERROR_EVENT "@ + code@,
{
    crate::text::cat("ERROR_EVENT ", code)
}

/// The delete reason of a called instance left by a caught escalation.
pub fn escalation_delete_reason(escalation_ref: &str) -> (r: String)
    ensures
        escalation_ref@.len() == 0 ==> r@ == "escalation end event"@,
        escalation_ref@.len() > 0 ==> r@ == "escalation end event ("@ + escalation_ref@ + ")"@,
{
    if escalation_ref.unicode_len() == 0 {
        crate::text::owned("escalation end event")
    } else {
        crate::text::cat3("escalation end event (", escalation_ref, ")")
    }
}

/// One step up a chain of call activities: the called instance left, the
/// call activity execution that called it, and the calling instance.
#[derive(Debug)]
pub struct CallLevel {
    pub crossed_process_instance_id: String,
    pub super_execution_id: String,
    pub parent_process_instance_id: String,
}

pub open spec fn level_view(l: CallLevel) -> (Seq<char>, Seq<char>, Seq<char>) {
    (l.crossed_process_instance_id@, l.super_execution_id@, l.parent_process_instance_id@)
}

/// The levels above instance `pid`, nearest first, at most `fuel` of them:
/// the climb stops at an instance that is not stored or not called, or
/// whose call activity execution is not stored or belongs to no instance.
pub open spec fn call_chain(store: RuntimeStore, pid: Seq<char>, fuel: nat) -> Seq<(Seq<char>, Seq<char>, Seq<char>)>
    decreases fuel,
{
    if fuel == 0 || !store.process_instances@.contains_key(pid) {
        Seq::empty()
    } else {
        let pi = store.process_instances@[pid];
        match pi.super_execution_id {
            None => Seq::empty(),
            Some(sup) => if !store.executions@.contains_key(sup@) {
                Seq::empty()
            } else {
                match store.executions@[sup@].process_instance_id {
                    None => Seq::empty(),
                    Some(parent) => seq![(pid, sup@, parent@)] + call_chain(store, parent@, (fuel - 1) as nat),
                }
            },
        }
    }
}

/// The call activity chain above a called instance, at most 64 levels, in
/// the order a thrown error or escalation climbs it.
pub fn call_activity_chain(store: &RuntimeStore, child_process_instance_id: &String) -> (r: Vec<CallLevel>)
    requires
        store.wf(),
    ensures
        r@.map_values(|l: CallLevel| level_view(l)) == call_chain(*store, child_process_instance_id@, 64),
{
    let mut out: Vec<CallLevel> = Vec::new();
    let mut current = child_process_instance_id.clone();
    let mut k: usize = 0;
    let mut done = false;
    proof {
        assert(out@.map_values(|l: CallLevel| level_view(l)) + call_chain(*store, current@, 64) =~= call_chain(*store,
            child_process_instance_id@, 64));
    }
    while k < 64 && !done
        invariant
            store.wf(),
            0 <= k <= 64,
            done ==> out@.map_values(|l: CallLevel| level_view(l)) == call_chain(*store, child_process_instance_id@, 64),
            !done ==> out@.map_values(|l: CallLevel| level_view(l)) + call_chain(*store, current@, (64 - k) as nat)
                == call_chain(*store, child_process_instance_id@, 64),
        decreases 64 - k,
    {
        let ghost before = out@.map_values(|l: CallLevel| level_view(l));
        let ghost fuel = (64 - k) as nat;
        let next: Option<(String, String)> = match store.find_process_instance(&current) {
            None => None,
            Some(pi) => match &pi.super_execution_id {
                None => None,
                Some(sup) => match store.find_execution(sup) {
                    None => None,
                    Some(e) => match &e.process_instance_id {
                        None => None,
                        Some(parent) => Some((sup.clone(), parent.clone())),
                    },
                },
            },
        };
        match next {
            None => {
                proof {
                    assert(call_chain(*store, current@, fuel) =~= Seq::<(Seq<char>, Seq<char>, Seq<char>)>::empty());
                    assert(before + Seq::<(Seq<char>, Seq<char>, Seq<char>)>::empty() =~= before);
                }
                done = true;
            },
            Some((sup, parent)) => {
                let ghost step = (current@, sup@, parent@);
                out.push(CallLevel {
                    crossed_process_instance_id: current.clone(),
                    super_execution_id: sup,
                    parent_process_instance_id: parent.clone(),
                });
                proof {
                    assert(call_chain(*store, current@, fuel) == seq![step] + call_chain(*store, parent@, (fuel - 1) as nat));
                    assert(out@.map_values(|l: CallLevel| level_view(l)) =~= before.push(step));
                    assert(before + (seq![step] + call_chain(*store, parent@, (fuel - 1) as nat)) =~= before.push(step)
                        + call_chain(*store, parent@, (fuel - 1) as nat));
                }
                current = parent;
            },
        }
        k = k + 1;
    }
    proof {
        if !done {
            assert(call_chain(*store, current@, 0) =~= Seq::<(Seq<char>, Seq<char>, Seq<char>)>::empty());
            assert(out@.map_values(|l: CallLevel| level_view(l)) + Seq::<(Seq<char>, Seq<char>, Seq<char>)>::empty()
                =~= out@.map_values(|l: CallLevel| level_view(l)));
        }
    }
    out
}

/// The store after a called instance `pid` is removed: the instance is
/// ended, and its tasks, executions and jobs are gone.
pub open spec fn instance_removed(old_store: RuntimeStore, new_store: RuntimeStore, pid: Seq<char>) -> bool {
    &&& (old_store.process_instances@.contains_key(pid) ==> new_store.process_instances@ == old_store.process_instances@.insert(
        pid,
        ProcessInstance { is_ended: true, ..old_store.process_instances@[pid] },
    ))
    &&& (!old_store.process_instances@.contains_key(pid) ==> new_store.process_instances@ == old_store.process_instances@)
    &&& forall|k: Seq<char>| #[trigger] new_store.tasks@.contains_key(k) <==> (old_store.tasks@.contains_key(k)
        && old_store.tasks@[k].instance_of() != Some(pid))
    &&& forall|k: Seq<char>| #[trigger] new_store.tasks@.contains_key(k) ==> new_store.tasks@[k] == old_store.tasks@[k]
    &&& forall|k: Seq<char>| #[trigger] new_store.executions@.contains_key(k) <==> (old_store.executions@.contains_key(k)
        && old_store.executions@[k].instance_of() != Some(pid))
    &&& forall|k: Seq<char>| #[trigger] new_store.executions@.contains_key(k) ==> new_store.executions@[k] == old_store.executions@[k]
    &&& forall|k: Seq<char>| #[trigger] new_store.timer_jobs@.contains_key(k) <==> (old_store.timer_jobs@.contains_key(k)
        && old_store.timer_jobs@[k].instance_of() != Some(pid))
    &&& forall|k: Seq<char>| #[trigger] new_store.timer_jobs@.contains_key(k) ==> new_store.timer_jobs@[k] == old_store.timer_jobs@[k]
}

/// Removes a called instance that a caught error or escalation leaves: it
/// is marked ended (when stored and not yet ended) and its tasks,
/// executions and jobs are deleted; no output of the call activity is
/// applied and its normal flow is not taken.
pub fn end_process_instance_for_cross_call_propagation(ctx: &mut CommandContext, process_instance_id: &String)
    requires
        old(ctx).session.wf(),
    ensures
        final(ctx).session.wf(),
        instance_removed(old(ctx).session, final(ctx).session, process_instance_id@),
        frame(old(ctx).session, final(ctx).session, set![StoreTable::ProcessInstances, StoreTable::Tasks,
            StoreTable::Executions, StoreTable::TimerJobs]),
        final(ctx).events == old(ctx).events,
{
    if let Some(pi) = ctx.session.find_process_instance(process_instance_id) {
        if !pi.is_ended {
            let mut ended = pi;
            ended.is_ended = true;
            ctx.session.insert_process_instance(ended);
        } else {
            proof {
                assert(old(ctx).session.process_instances@.insert(process_instance_id@, ProcessInstance {
                    is_ended: true,
                    ..old(ctx).session.process_instances@[process_instance_id@]
                }) =~= old(ctx).session.process_instances@);
            }
        }
    }
    let ghost mid = ctx.session;
    let _ = ctx.session.tasks.remove_instance_rows(process_instance_id);
    let _ = ctx.session.executions.remove_instance_rows(process_instance_id);
    let _ = ctx.session.timer_jobs.remove_instance_rows(process_instance_id);
    proof {
        assert(ctx.session.process_instances == mid.process_instances);
    }
}

/// Reports that a called instance completed through an escalation end event
/// (nothing for an instance that is not stored).
pub fn dispatch_process_completed_with_escalation_end_event(ctx: &mut CommandContext, process_instance_id: &String)
    requires
        old(ctx).session.wf(),
    ensures
        final(ctx).session == old(ctx).session,
        old(ctx).session.process_instances@.contains_key(process_instance_id@) ==> final(ctx).events@.len()
            == old(ctx).events@.len() + 1,
        !old(ctx).session.process_instances@.contains_key(process_instance_id@) ==> final(ctx).events == old(ctx).events,
{
    if let Some(pi) = ctx.session.find_process_instance(process_instance_id) {
        ctx.add_post_agenda_event(EngineEvent::Entity {
            event_type: EntityEventType::ProcessCompletedWithEscalationEndEvent,
            entity_kind: EntityKind::ProcessInstance,
            entity_id: pi.id.clone(),
            process_instance_id: Some(pi.id.clone()),
            execution_id: Some(pi.id.clone()),
            process_definition_id: Some(pi.process_definition_id.clone()),
        });
    }
}

} // verus!
