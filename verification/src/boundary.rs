//! Boundary events waiting on executions: how a thrown error, escalation or
//! signal reference is matched against a boundary's subscription, and which
//! of several matching boundaries catches it.
use vstd::prelude::*;
use crate::entities::opt_view;
use crate::events::{EventSubscription, EventSubscriptionKind};
use crate::ordering::str_eq;

verus! {

/// A boundary event attached to an activity of a running instance.
#[derive(Debug)]
pub struct RuntimeBoundaryEventState {
    pub boundary_event_id: String,
    pub attached_activity_id: String,
    pub process_instance_id: String,
    pub host_execution_id: String,
    pub cancel_activity: bool,
    pub event_subscription: EventSubscription,
    pub configuration: Option<String>,
}

/// An escalation declared in a process model.
#[derive(Debug)]
pub struct EscalationDefinition {
    pub id: Option<String>,
    pub escalation_code: Option<String>,
}

/// A signal declared in a process model.
#[derive(Debug)]
pub struct SignalDefinition {
    pub id: Option<String>,
    pub name: Option<String>,
}

/// An error declared in a process model: its reference and its code.
#[derive(Debug)]
pub struct ErrorDefinition {
    pub error_ref: String,
    pub error_code: String,
}

/// The declarations of a process model that event references resolve against.
#[derive(Debug)]
pub struct EventRefModel {
    pub escalations: Vec<EscalationDefinition>,
    pub errors: Vec<ErrorDefinition>,
    pub signals: Vec<SignalDefinition>,
}

/// The first index below `n` where `f` holds.
pub open spec fn first_where(n: int, f: spec_fn(int) -> bool) -> Option<int>
    decreases n,
{
    if n <= 0 {
        None
    } else {
        match first_where(n - 1, f) {
            Some(i) => Some(i),
            None => if f(n - 1) { Some(n - 1) } else { None },
        }
    }
}

proof fn lemma_first_where_step(n: int, f: spec_fn(int) -> bool)
    requires
        n >= 0,
    ensures
        first_where(n + 1, f) == (match first_where(n, f) {
            Some(i) => Some(i),
            None => if f(n) { Some(n) } else { None::<int> },
        }),
{
}

proof fn lemma_first_where_extend(n: int, m: int, f: spec_fn(int) -> bool)
    requires
        0 <= n <= m,
        first_where(n, f) is Some,
    ensures
        first_where(m, f) == first_where(n, f),
    decreases m - n,
{
    if m > n {
        lemma_first_where_extend(n, m - 1, f);
    }
}

/// The code an escalation reference stands for: that of the first declared
/// escalation with this id (the id itself when it has none); an undeclared
/// reference stands for itself.
pub open spec fn escalation_code_of(model: Option<EventRefModel>, r: Seq<char>) -> Seq<char> {
    match model {
        Some(m) => match first_where(
            m.escalations@.len() as int,
            |i: int| opt_view(m.escalations@[i].id) == Some(r),
        ) {
            Some(i) => match m.escalations@[i].escalation_code {
                Some(c) => c@,
                None => r,
            },
            None => r,
        },
        None => r,
    }
}

/// The code an error reference stands for: that of the first declared
/// error with this reference, else the reference itself.
pub open spec fn error_code_of(model: Option<EventRefModel>, r: Seq<char>) -> Seq<char> {
    match model {
        Some(m) => match first_where(m.errors@.len() as int, |i: int| m.errors@[i].error_ref@ == r) {
            Some(i) => m.errors@[i].error_code@,
            None => r,
        },
        None => r,
    }
}

pub open spec fn opt_model(m: Option<&EventRefModel>) -> Option<EventRefModel> {
    match m {
        Some(x) => Some(*x),
        None => None,
    }
}

pub fn normalize_escalation_ref(model: Option<&EventRefModel>, event_ref: &str) -> (r: String)
    ensures
        r@ == escalation_code_of(opt_model(model), event_ref@),
{
    if let Some(m) = model {
        let ghost f = |i: int| opt_view(m.escalations@[i].id) == Some(event_ref@);
        let mut i: usize = 0;
        while i < m.escalations.len()
            invariant
                0 <= i <= m.escalations.len(),
                opt_model(model) == Some(*m),
                f == (|i: int| opt_view(m.escalations@[i].id) == Some(event_ref@)),
                first_where(i as int, f) is None,
            decreases m.escalations.len() - i,
        {
            proof {
                lemma_first_where_step(i as int, f);
            }
            let hit = match &m.escalations[i].id {
                Some(id) => str_eq(id.as_str(), event_ref),
                None => false,
            };
            if hit {
                proof {
                    assert(f(i as int));
                    lemma_first_where_extend(i + 1, m.escalations@.len() as int, f);
                }
                return match &m.escalations[i].escalation_code {
                    Some(c) => c.clone(),
                    None => crate::text::owned(event_ref),
                };
            }
            i = i + 1;
        }
        proof {
            assert(first_where(m.escalations@.len() as int, f) is None);
        }
    }
    crate::text::owned(event_ref)
}

pub fn normalize_error_ref(model: Option<&EventRefModel>, event_ref: &str) -> (r: String)
    ensures
        r@ == error_code_of(opt_model(model), event_ref@),
{
    if let Some(m) = model {
        let ghost f = |i: int| m.errors@[i].error_ref@ == event_ref@;
        let mut i: usize = 0;
        while i < m.errors.len()
            invariant
                0 <= i <= m.errors.len(),
                opt_model(model) == Some(*m),
                f == (|i: int| m.errors@[i].error_ref@ == event_ref@),
                first_where(i as int, f) is None,
            decreases m.errors.len() - i,
        {
            proof {
                lemma_first_where_step(i as int, f);
            }
            if str_eq(m.errors[i].error_ref.as_str(), event_ref) {
                proof {
                    assert(f(i as int));
                    lemma_first_where_extend(i + 1, m.errors@.len() as int, f);
                }
                return m.errors[i].error_code.clone();
            }
            i = i + 1;
        }
        proof {
            assert(first_where(m.errors@.len() as int, f) is None);
        }
    }
    crate::text::owned(event_ref)
}

/// Whether a signal declaration names `r` by its id or its name.
pub open spec fn signal_names(s: SignalDefinition, r: Seq<char>) -> bool {
    let id = match s.id { Some(x) => x@, None => Seq::empty() };
    let name = match s.name { Some(x) => x@, None => Seq::empty() };
    (id.len() > 0 && r == id) || (name.len() > 0 && r == name)
}

/// Whether both references name the same declared signal (by id or name).
pub open spec fn signals_match_in_model(model: Option<EventRefModel>, a: Seq<char>, b: Seq<char>) -> bool {
    match model {
        Some(m) => declares_signal_pair(m.signals@, a, b),
        None => false,
    }
}

/// Whether one declared signal is named by both references.
pub open spec fn declares_signal_pair(signals: Seq<SignalDefinition>, a: Seq<char>, b: Seq<char>) -> bool {
    exists|i: int| 0 <= i < signals.len() && signal_names(#[trigger] signals[i], a) && signal_names(signals[i], b)
}

fn names_signal(s: &SignalDefinition, r: &str) -> (b: bool)
    ensures
        b == signal_names(*s, r@),
{
    let by_id = match &s.id {
        Some(x) => x.unicode_len() > 0 && str_eq(r, x.as_str()),
        None => false,
    };
    let by_name = match &s.name {
        Some(x) => x.unicode_len() > 0 && str_eq(r, x.as_str()),
        None => false,
    };
    by_id || by_name
}

pub fn signal_refs_match_in_model(model: Option<&EventRefModel>, subscription_ref: &str, trigger_ref: &str) -> (r: bool)
    ensures
        r == signals_match_in_model(opt_model(model), subscription_ref@, trigger_ref@),
{
    let m = match model {
        Some(m) => m,
        None => return false,
    };
    let mut i: usize = 0;
    while i < m.signals.len()
        invariant
            0 <= i <= m.signals.len(),
            opt_model(model) == Some(*m),
            forall|j: int| 0 <= j < i ==> !(signal_names(#[trigger] m.signals@[j], subscription_ref@)
                && signal_names(m.signals@[j], trigger_ref@)),
        decreases m.signals.len() - i,
    {
        if names_signal(&m.signals[i], subscription_ref) && names_signal(&m.signals[i], trigger_ref) {
            proof {
                assert(signal_names(m.signals@[i as int], subscription_ref@));
                assert(signal_names(m.signals@[i as int], trigger_ref@));
                assert(declares_signal_pair(m.signals@, subscription_ref@, trigger_ref@));
            }
            return true;
        }
        i = i + 1;
    }
    false
}

/// Whether a signal boundary subscribed to `subscription_ref` catches `trigger_ref`.
pub fn signal_refs_match_for_boundary(model: Option<&EventRefModel>, state: &RuntimeBoundaryEventState, trigger_ref: &str) -> (r: bool)
    ensures
        r == (state.event_subscription.event_ref@ == trigger_ref@ || signals_match_in_model(
            opt_model(model),
            state.event_subscription.event_ref@,
            trigger_ref@,
        )),
{
    str_eq(state.event_subscription.event_ref.as_str(), trigger_ref)
        || signal_refs_match_in_model(model, state.event_subscription.event_ref.as_str(), trigger_ref)
}

/// Whether a boundary reference catches a thrown reference, comparing the
/// codes they stand for; a boundary without a reference catches everything
/// (`catch_all`) or nothing.
pub open spec fn refs_match_spec(
    boundary_ref: Seq<char>,
    thrown: Seq<char>,
    code_a: Seq<char>,
    code_b: Seq<char>,
    catch_all: bool,
) -> bool {
    if boundary_ref.len() == 0 {
        catch_all
    } else {
        boundary_ref == thrown || code_a == code_b
    }
}

/// Whether an escalation boundary catches `thrown_ref` (one without a
/// reference catches every escalation).
pub fn escalation_refs_match(model: Option<&EventRefModel>, state: &RuntimeBoundaryEventState, thrown_ref: &str) -> (r: bool)
    ensures
        r == refs_match_spec(state.event_subscription.event_ref@, thrown_ref@, escalation_code_of(opt_model(model),
            state.event_subscription.event_ref@), escalation_code_of(opt_model(model), thrown_ref@), true),
{
    escalation_match(model, state, thrown_ref, true)
}

/// Whether an escalation boundary names `thrown_ref` (one without a
/// reference names nothing).
pub fn escalation_refs_match_exact(model: Option<&EventRefModel>, state: &RuntimeBoundaryEventState, thrown_ref: &str) -> (r: bool)
    ensures
        r == refs_match_spec(state.event_subscription.event_ref@, thrown_ref@, escalation_code_of(opt_model(model),
            state.event_subscription.event_ref@), escalation_code_of(opt_model(model), thrown_ref@), false),
{
    escalation_match(model, state, thrown_ref, false)
}

fn escalation_match(model: Option<&EventRefModel>, state: &RuntimeBoundaryEventState, thrown_ref: &str, catch_all: bool) -> (r: bool)
    ensures
        r == refs_match_spec(state.event_subscription.event_ref@, thrown_ref@, escalation_code_of(opt_model(model),
            state.event_subscription.event_ref@), escalation_code_of(opt_model(model), thrown_ref@), catch_all),
{
    let boundary_ref = state.event_subscription.event_ref.as_str();
    if boundary_ref.unicode_len() == 0 {
        return catch_all;
    }
    if str_eq(boundary_ref, thrown_ref) {
        return true;
    }
    let a = normalize_escalation_ref(model, boundary_ref);
    let b = normalize_escalation_ref(model, thrown_ref);
    str_eq(a.as_str(), b.as_str())
}

fn error_match(model: Option<&EventRefModel>, state: &RuntimeBoundaryEventState, thrown_ref: &str, catch_all: bool) -> (r: bool)
    ensures
        r == refs_match_spec(state.event_subscription.event_ref@, thrown_ref@, error_code_of(opt_model(model),
            state.event_subscription.event_ref@), error_code_of(opt_model(model), thrown_ref@), catch_all),
{
    let boundary_ref = state.event_subscription.event_ref.as_str();
    if boundary_ref.unicode_len() == 0 {
        return catch_all;
    }
    if str_eq(boundary_ref, thrown_ref) {
        return true;
    }
    let a = normalize_error_ref(model, boundary_ref);
    let b = normalize_error_ref(model, thrown_ref);
    str_eq(a.as_str(), b.as_str())
}

/// Whether an error boundary catches `thrown_ref` (one without a reference
/// catches every error).
pub fn error_refs_match(model: Option<&EventRefModel>, state: &RuntimeBoundaryEventState, thrown_ref: &str) -> (r: bool)
    ensures
        r == refs_match_spec(state.event_subscription.event_ref@, thrown_ref@, error_code_of(opt_model(model),
            state.event_subscription.event_ref@), error_code_of(opt_model(model), thrown_ref@), true),
{
    error_match(model, state, thrown_ref, true)
}

/// Whether an error boundary names `thrown_ref`.
pub fn error_refs_match_exact(model: Option<&EventRefModel>, state: &RuntimeBoundaryEventState, thrown_ref: &str) -> (r: bool)
    ensures
        r == refs_match_spec(state.event_subscription.event_ref@, thrown_ref@, error_code_of(opt_model(model),
            state.event_subscription.event_ref@), error_code_of(opt_model(model), thrown_ref@), false),
{
    error_match(model, state, thrown_ref, false)
}

/// Whether boundary `i` is what one search step looks for: on `host` and
/// naming the reference (`any_ref` false) or catching everything (errors:
/// no reference; escalations: any); without a host, naming the reference.
pub open spec fn search_hit(
    hosts: Seq<Seq<char>>,
    refs_empty: Seq<bool>,
    exact: Seq<bool>,
    host: Option<Seq<char>>,
    any_ref: bool,
    escalation: bool,
    i: int,
) -> bool {
    match host {
        Some(h) => hosts[i] == h && (if any_ref { escalation || refs_empty[i] } else { exact[i] }),
        None => exact[i],
    }
}

/// The first index below `n` that [`search_hit`] finds.
pub open spec fn first_hit(
    hosts: Seq<Seq<char>>,
    refs_empty: Seq<bool>,
    exact: Seq<bool>,
    host: Option<Seq<char>>,
    any_ref: bool,
    escalation: bool,
    n: int,
) -> Option<int>
    decreases n,
{
    if n <= 0 {
        None
    } else {
        match first_hit(hosts, refs_empty, exact, host, any_ref, escalation, n - 1) {
            Some(i) => Some(i),
            None => if search_hit(hosts, refs_empty, exact, host, any_ref, escalation, n - 1) {
                Some(n - 1)
            } else {
                None
            },
        }
    }
}

pub proof fn lemma_first_hit_extend(
    hosts: Seq<Seq<char>>,
    refs_empty: Seq<bool>,
    exact: Seq<bool>,
    host: Option<Seq<char>>,
    any_ref: bool,
    escalation: bool,
    n: int,
    m: int,
)
    requires
        0 <= n <= m,
        first_hit(hosts, refs_empty, exact, host, any_ref, escalation, n) is Some,
    ensures
        first_hit(hosts, refs_empty, exact, host, any_ref, escalation, m) == first_hit(hosts, refs_empty,
            exact, host, any_ref, escalation, n),
    decreases m - n,
{
    if m > n {
        lemma_first_hit_extend(hosts, refs_empty, exact, host, any_ref, escalation, n, m - 1);
    }
}

/// Which boundary catches a thrown error (`escalation` false) or
/// escalation: walking the thrower's ancestry nearest first, the first
/// boundary on that execution naming the reference, else the first on it
/// catching everything; failing all, the first naming it anywhere, else the
/// first boundary at all.
pub open spec fn nearest_spec(
    hosts: Seq<Seq<char>>,
    refs_empty: Seq<bool>,
    exact: Seq<bool>,
    ancestry: Seq<Seq<char>>,
    escalation: bool,
    k: int,
) -> Option<int>
    decreases ancestry.len() - k,
{
    let n = hosts.len() as int;
    if k >= ancestry.len() || k < 0 {
        match first_hit(hosts, refs_empty, exact, None, false, escalation, n) {
            Some(i) => Some(i),
            None => if n > 0 { Some(0) } else { None },
        }
    } else {
        match first_hit(hosts, refs_empty, exact, Some(ancestry[k]), false, escalation, n) {
            Some(i) => Some(i),
            None => match first_hit(hosts, refs_empty, exact, Some(ancestry[k]), true, escalation, n) {
                Some(i) => Some(i),
                None => nearest_spec(hosts, refs_empty, exact, ancestry, escalation, k + 1),
            },
        }
    }
}

pub open spec fn hosts_of(states: Seq<RuntimeBoundaryEventState>) -> Seq<Seq<char>> {
    states.map_values(|s: RuntimeBoundaryEventState| s.host_execution_id@)
}

pub open spec fn refs_empty_of(states: Seq<RuntimeBoundaryEventState>) -> Seq<bool> {
    states.map_values(|s: RuntimeBoundaryEventState| s.event_subscription.event_ref@.len() == 0)
}

pub open spec fn opt_usize(o: Option<usize>) -> Option<int> {
    match o {
        Some(i) => Some(i as int),
        None => None,
    }
}

pub open spec fn opt_string_view(o: Option<&String>) -> Option<Seq<char>> {
    match o {
        Some(s) => Some(s@),
        None => None,
    }
}

fn first_index(
    states: &Vec<RuntimeBoundaryEventState>,
    exact: &Vec<bool>,
    host: Option<&String>,
    any_ref: bool,
    escalation: bool,
) -> (r: Option<usize>)
    requires
        exact@.len() == states@.len(),
    ensures
        opt_usize(r) == first_hit(hosts_of(states@), refs_empty_of(states@), exact@, opt_string_view(host),
            any_ref, escalation, states@.len() as int),
{
    let ghost hosts = hosts_of(states@);
    let ghost empties = refs_empty_of(states@);
    let ghost h = opt_string_view(host);
    let mut i: usize = 0;
    while i < states.len()
        invariant
            0 <= i <= states.len(),
            exact@.len() == states@.len(),
            hosts == hosts_of(states@),
            empties == refs_empty_of(states@),
            h == opt_string_view(host),
            first_hit(hosts, empties, exact@, h, any_ref, escalation, i as int) is None,
        decreases states.len() - i,
    {
        let hit = match host {
            Some(hs) => {
                str_eq(states[i].host_execution_id.as_str(), hs.as_str()) && (if any_ref {
                    escalation || states[i].event_subscription.event_ref.unicode_len() == 0
                } else {
                    exact[i]
                })
            },
            None => exact[i],
        };
        proof {
            assert(hosts[i as int] == states@[i as int].host_execution_id@);
            assert(empties[i as int] == (states@[i as int].event_subscription.event_ref@.len() == 0));
            assert(hit == search_hit(hosts, empties, exact@, h, any_ref, escalation, i as int));
        }
        if hit {
            proof {
                lemma_first_hit_extend(hosts, empties, exact@, h, any_ref, escalation, i + 1, states@.len() as int);
            }
            return Some(i);
        }
        i = i + 1;
    }
    None
}

/// The index of the boundary that catches the throw (see [`nearest_spec`]);
/// `exact[i]` tells whether boundary `i` names the thrown reference, and
/// `ancestry` is the thrower's ancestry, nearest first (empty when the
/// thrower is not known).
pub fn select_nearest_boundary(
    states: &Vec<RuntimeBoundaryEventState>,
    exact: &Vec<bool>,
    ancestry: &Vec<String>,
    escalation: bool,
) -> (r: Option<usize>)
    requires
        exact@.len() == states@.len(),
    ensures
        opt_usize(r) == nearest_spec(hosts_of(states@), refs_empty_of(states@), exact@,
            crate::execution_tree::string_views(ancestry@), escalation, 0),
{
    let ghost anc = crate::execution_tree::string_views(ancestry@);
    let ghost hosts = hosts_of(states@);
    let ghost empties = refs_empty_of(states@);
    let mut k: usize = 0;
    while k < ancestry.len()
        invariant
            0 <= k <= ancestry.len(),
            exact@.len() == states@.len(),
            anc == crate::execution_tree::string_views(ancestry@),
            hosts == hosts_of(states@),
            empties == refs_empty_of(states@),
            nearest_spec(hosts, empties, exact@, anc, escalation, 0) == nearest_spec(hosts, empties, exact@, anc,
                escalation, k as int),
        decreases ancestry.len() - k,
    {
        let host = &ancestry[k];
        proof {
            assert(anc[k as int] == host@);
        }
        let first = first_index(states, exact, Some(host), false, escalation);
        if first.is_some() {
            return first;
        }
        let second = first_index(states, exact, Some(host), true, escalation);
        if second.is_some() {
            return second;
        }
        k = k + 1;
    }
    let named = first_index(states, exact, None, false, escalation);
    if named.is_some() {
        return named;
    }
    if states.len() > 0 {
        Some(0)
    } else {
        None
    }
}

proof fn lemma_first_hit_range(
    hosts: Seq<Seq<char>>,
    refs_empty: Seq<bool>,
    exact: Seq<bool>,
    host: Option<Seq<char>>,
    any_ref: bool,
    escalation: bool,
    n: int,
)
    ensures
        first_hit(hosts, refs_empty, exact, host, any_ref, escalation, n) matches Some(i) ==> 0 <= i < n,
    decreases n,
{
    if n > 0 {
        lemma_first_hit_range(hosts, refs_empty, exact, host, any_ref, escalation, n - 1);
    }
}

/// The boundary [`nearest_spec`] picks is one of the boundaries.
pub proof fn lemma_nearest_in_range(
    hosts: Seq<Seq<char>>,
    refs_empty: Seq<bool>,
    exact: Seq<bool>,
    ancestry: Seq<Seq<char>>,
    escalation: bool,
    k: int,
)
    ensures
        nearest_spec(hosts, refs_empty, exact, ancestry, escalation, k) matches Some(i) ==> 0 <= i < hosts.len(),
    decreases ancestry.len() - k,
{
    let n = hosts.len() as int;
    lemma_first_hit_range(hosts, refs_empty, exact, None, false, escalation, n);
    if 0 <= k < ancestry.len() {
        lemma_first_hit_range(hosts, refs_empty, exact, Some(ancestry[k]), false, escalation, n);
        lemma_first_hit_range(hosts, refs_empty, exact, Some(ancestry[k]), true, escalation, n);
        lemma_nearest_in_range(hosts, refs_empty, exact, ancestry, escalation, k + 1);
    }
}

} // verus!
