//! Which boundary event catches a thrown error or escalation, reading each
//! boundary's references against the model of the process it waits in.
use vstd::prelude::*;
use crate::boundary::{
    error_code_of, error_refs_match_exact, escalation_code_of, escalation_refs_match_exact, hosts_of,
    nearest_spec, opt_model, refs_empty_of, refs_match_spec, select_nearest_boundary, EventRefModel,
    RuntimeBoundaryEventState,
};
use crate::execution_tree::{ancestry, execution_ancestry, string_views};
use crate::store::RuntimeStore;

verus! {

/// The event declarations of a deployed process definition.
#[derive(Debug)]
pub struct DeployedModel {
    pub process_definition_id: String,
    pub model: EventRefModel,
}

/// The position of the first of the first `n` models deployed for
/// definition `d`.
pub open spec fn model_position(models: Seq<DeployedModel>, d: Seq<char>, n: int) -> Option<int>
    decreases n,
{
    if n <= 0 {
        None
    } else {
        match model_position(models, d, n - 1) {
            Some(i) => Some(i),
            None => if models[n - 1].process_definition_id@ == d { Some(n - 1) } else { None },
        }
    }
}

pub proof fn lemma_model_position_grows(models: Seq<DeployedModel>, d: Seq<char>, n: int, m: int)
    requires
        0 <= n <= m,
        model_position(models, d, n) is Some,
    ensures
        model_position(models, d, m) == model_position(models, d, n),
    decreases m - n,
{
    if m > n {
        lemma_model_position_grows(models, d, n, m - 1);
    }
}

/// The model of the process a boundary waits in: that of the definition of
/// its host execution, when both are known.
pub open spec fn boundary_model(store: RuntimeStore, models: Seq<DeployedModel>, state: RuntimeBoundaryEventState) -> Option<
    EventRefModel,
> {
    let host = state.host_execution_id@;
    if store.executions@.contains_key(host) {
        match store.executions@[host].process_definition_id {
            Some(d) => match model_position(models, d@, models.len() as int) {
                Some(i) => Some(models[i].model),
                None => None,
            },
            None => None,
        }
    } else {
        None
    }
}

/// The model of the process `state` waits in.
pub fn error_model_for_boundary_state<'a>(store: &RuntimeStore, models: &'a Vec<DeployedModel>,
    state: &RuntimeBoundaryEventState) -> (r: Option<&'a EventRefModel>)
    requires
        store.wf(),
    ensures
        opt_model(r) == boundary_model(*store, models@, *state),
{
    let host = match store.find_execution(&state.host_execution_id) {
        Some(e) => e,
        None => return None,
    };
    let d = match &host.process_definition_id {
        Some(d) => d,
        None => return None,
    };
    let mut i: usize = 0;
    while i < models.len()
        invariant
            0 <= i <= models.len(),
            store.executions@.contains_key(state.host_execution_id@),
            store.executions@[state.host_execution_id@].process_definition_id == Some(*d),
            model_position(models@, d@, i as int) is None,
        decreases models.len() - i,
    {
        if models[i].process_definition_id.eq(d) {
            proof {
                assert(model_position(models@, d@, i + 1) == Some(i as int));
                lemma_model_position_grows(models@, d@, i + 1, models@.len() as int);
            }
            return Some(&models[i].model);
        }
        i = i + 1;
    }
    None
}

/// Whether boundary `state` names the thrown reference, read against its
/// own process model.
pub open spec fn names_thrown(store: RuntimeStore, models: Seq<DeployedModel>, state: RuntimeBoundaryEventState,
    thrown: Seq<char>, escalation: bool) -> bool {
    let m = boundary_model(store, models, state);
    let r = state.event_subscription.event_ref@;
    if escalation {
        refs_match_spec(r, thrown, escalation_code_of(m, r), escalation_code_of(m, thrown), false)
    } else {
        refs_match_spec(r, thrown, error_code_of(m, r), error_code_of(m, thrown), false)
    }
}

pub open spec fn exact_of(store: RuntimeStore, models: Seq<DeployedModel>, states: Seq<RuntimeBoundaryEventState>,
    thrown: Seq<char>, escalation: bool) -> Seq<bool> {
    Seq::new(states.len(), |i: int| names_thrown(store, models, states[i], thrown, escalation))
}

/// The ancestry a throw climbs: that of its source execution, when known.
pub open spec fn throw_ancestry(store: RuntimeStore, source: Option<Seq<char>>) -> Seq<Seq<char>> {
    match source {
        Some(s) => ancestry(store.executions@, s, 256),
        None => Seq::empty(),
    }
}

/// The boundary that catches the throw (see [`nearest_spec`]), when any.
pub open spec fn catching_boundary(store: RuntimeStore, models: Seq<DeployedModel>, states: Seq<RuntimeBoundaryEventState>,
    source: Option<Seq<char>>, thrown: Seq<char>, escalation: bool) -> Option<int> {
    nearest_spec(hosts_of(states), refs_empty_of(states), exact_of(store, models, states, thrown, escalation),
        throw_ancestry(store, source), escalation, 0)
}

fn select_catching(store: &RuntimeStore, models: &Vec<DeployedModel>, matching_states: Vec<RuntimeBoundaryEventState>,
    source_execution_id: Option<&String>, thrown_ref: &str, escalation: bool) -> (r: Option<RuntimeBoundaryEventState>)
    requires
        store.wf(),
    ensures
        match catching_boundary(*store, models@, matching_states@, crate::boundary::opt_string_view(source_execution_id),
            thrown_ref@, escalation) {
            Some(i) => r == Some(matching_states@[i]),
            None => r is None,
        },
{
    let mut exact: Vec<bool> = Vec::new();
    let ghost want = exact_of(*store, models@, matching_states@, thrown_ref@, escalation);
    let mut i: usize = 0;
    while i < matching_states.len()
        invariant
            0 <= i <= matching_states.len(),
            store.wf(),
            want == exact_of(*store, models@, matching_states@, thrown_ref@, escalation),
            exact@ == want.take(i as int),
        decreases matching_states.len() - i,
    {
        let model = error_model_for_boundary_state(store, models, &matching_states[i]);
        let named = if escalation {
            escalation_refs_match_exact(model, &matching_states[i], thrown_ref)
        } else {
            error_refs_match_exact(model, &matching_states[i], thrown_ref)
        };
        exact.push(named);
        proof {
            assert(exact@ =~= want.take(i + 1));
        }
        i = i + 1;
    }
    proof {
        assert(exact@ =~= want);
    }
    let chain: Vec<String> = match source_execution_id {
        Some(s) => execution_ancestry(store, s),
        None => Vec::new(),
    };
    proof {
        if source_execution_id is None {
            assert(string_views(chain@) =~= Seq::<Seq<char>>::empty());
        }
    }
    let mut states = matching_states;
    match select_nearest_boundary(&states, &exact, &chain, escalation) {
        Some(k) => {
            proof {
                crate::boundary::lemma_nearest_in_range(hosts_of(states@), refs_empty_of(states@), exact@,
                    string_views(chain@), escalation, 0);
            }
            Some(states.remove(k))
        },
        None => None,
    }
}

/// The escalation boundary that catches `thrown_ref`: nearest first along
/// the thrower's ancestry (naming it, else any on that execution), then
/// any naming it, else the first boundary.
pub fn select_nearest_escalation_boundary(store: &RuntimeStore, models: &Vec<DeployedModel>,
    matching_states: Vec<RuntimeBoundaryEventState>, source_execution_id: Option<&String>, thrown_ref: &str)
    -> (r: Option<RuntimeBoundaryEventState>)
    requires
        store.wf(),
    ensures
        match catching_boundary(*store, models@, matching_states@, crate::boundary::opt_string_view(source_execution_id),
            thrown_ref@, true) {
            Some(i) => r == Some(matching_states@[i]),
            None => r is None,
        },
{
    select_catching(store, models, matching_states, source_execution_id, thrown_ref, true)
}

/// The error boundary that catches `thrown_ref`: nearest first along the
/// thrower's ancestry (naming it, else one without a reference on that
/// execution), then any naming it, else the first boundary.
pub fn select_nearest_error_boundary(store: &RuntimeStore, models: &Vec<DeployedModel>,
    matching_states: Vec<RuntimeBoundaryEventState>, source_execution_id: Option<&String>, thrown_ref: &str)
    -> (r: Option<RuntimeBoundaryEventState>)
    requires
        store.wf(),
    ensures
        match catching_boundary(*store, models@, matching_states@, crate::boundary::opt_string_view(source_execution_id),
            thrown_ref@, false) {
            Some(i) => r == Some(matching_states@[i]),
            None => r is None,
        },
{
    select_catching(store, models, matching_states, source_execution_id, thrown_ref, false)
}

} // verus!
