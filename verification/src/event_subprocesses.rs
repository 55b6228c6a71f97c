//! Starting event subprocesses when the event they are subscribed to
//! arrives: which subscriptions the event reaches, which of them catches a
//! thrown error or escalation, and what activating one does to the running
//! scope.
use vstd::prelude::*;
use crate::boundary::{
    error_code_of, escalation_code_of, first_hit, lemma_first_hit_extend, normalize_error_ref, normalize_escalation_ref,
    opt_model, opt_string_view, opt_usize, refs_match_spec, EventRefModel,
};
use crate::boundary_catch::{lemma_model_position_grows, model_position, throw_ancestry, DeployedModel};
use crate::boundary_firing::{after_interrupt, end_executions, tasks_of, KeptRow};
use crate::catch_events::{id_set, jobs_of};
use crate::entities::{clone_opt, opt_view, Duplicate, Execution, ProcessInstance};
use crate::outside::new_uuid;
use crate::store::{frame, index_of, lemma_index_of, StoreTable};
use crate::triggers::{
    execution_is_descendant_of_scope, kind_label_spec, subscription_kind_label, within_scope, TriggerEventSubprocessByEventCmd,
};
use vstd::seq_lib::lemma_seq_contains_after_push;
use crate::events::EventSubscriptionKind;
use crate::execution_tree::{execution_ancestry, string_views};
use crate::ordering::str_eq;
use crate::store::RuntimeStore;

verus! {

/// The subscription of an event subprocess's start event, in a running
/// scope of an instance.
#[derive(Debug)]
pub struct EventSubprocessEventSubscription {
    pub subscription_id: String,
    pub process_instance_id: String,
    /// The scope execution it belongs to; the instance itself when absent.
    pub scope_execution_id: Option<String>,
    pub scope_activity_id: Option<String>,
    pub event_subprocess_id: String,
    pub start_event_id: String,
    pub interrupting: bool,
    pub event_kind: EventSubscriptionKind,
    pub event_ref: String,
    pub configuration: Option<String>,
}

impl EventSubprocessEventSubscription {
    /// A copy of the subscription.
    pub fn duplicate(&self) -> (r: Self)
        ensures
            r == *self,
    {
        EventSubprocessEventSubscription {
            subscription_id: self.subscription_id.clone(),
            process_instance_id: self.process_instance_id.clone(),
            scope_execution_id: clone_opt(&self.scope_execution_id),
            scope_activity_id: clone_opt(&self.scope_activity_id),
            event_subprocess_id: self.event_subprocess_id.clone(),
            start_event_id: self.start_event_id.clone(),
            interrupting: self.interrupting,
            event_kind: self.event_kind,
            event_ref: self.event_ref.clone(),
            configuration: clone_opt(&self.configuration),
        }
    }
}

/// The execution a subscription's scope is: its scope execution, else the
/// instance.
pub open spec fn scope_of(sub: EventSubprocessEventSubscription) -> Seq<char> {
    match sub.scope_execution_id {
        Some(s) => s@,
        None => sub.process_instance_id@,
    }
}

/// The definition of the process a subscription belongs to: that of its
/// scope execution, else that of its instance.
pub open spec fn subscription_definition(store: RuntimeStore, sub: EventSubprocessEventSubscription) -> Option<Seq<char>> {
    let from_scope = match sub.scope_execution_id {
        Some(s) => if store.executions@.contains_key(s@) {
            opt_view(store.executions@[s@].process_definition_id)
        } else {
            None
        },
        None => None,
    };
    match from_scope {
        Some(d) => Some(d),
        None => if store.process_instances@.contains_key(sub.process_instance_id@) {
            Some(store.process_instances@[sub.process_instance_id@].process_definition_id@)
        } else {
            None
        },
    }
}

/// The model deployed for definition `d`.
pub open spec fn model_of(models: Seq<DeployedModel>, d: Seq<char>) -> Option<EventRefModel> {
    match model_position(models, d, models.len() as int) {
        Some(i) => Some(models[i].model),
        None => None,
    }
}

/// The model escalation references of `sub` are read against (that of the
/// definition with an empty id when its definition is unknown).
pub open spec fn escalation_model_of(store: RuntimeStore, models: Seq<DeployedModel>, sub: EventSubprocessEventSubscription) -> Option<
    EventRefModel,
> {
    match subscription_definition(store, sub) {
        Some(d) => model_of(models, d),
        None => model_of(models, Seq::empty()),
    }
}

/// The model error references of `sub` are read against (none when its
/// definition is unknown).
pub open spec fn error_model_of(store: RuntimeStore, models: Seq<DeployedModel>, sub: EventSubprocessEventSubscription) -> Option<
    EventRefModel,
> {
    match subscription_definition(store, sub) {
        Some(d) => model_of(models, d),
        None => None,
    }
}

/// The definition of the process `sub` belongs to.
pub fn subscription_definition_id(store: &RuntimeStore, sub: &EventSubprocessEventSubscription) -> (r: Option<String>)
    requires
        store.wf(),
    ensures
        opt_view(r) == subscription_definition(*store, *sub),
{
    if let Some(s) = &sub.scope_execution_id {
        if let Some(e) = store.find_execution(s) {
            if let Some(d) = e.process_definition_id {
                return Some(d);
            }
        }
    }
    match store.find_process_instance(&sub.process_instance_id) {
        Some(pi) => Some(pi.process_definition_id),
        None => None,
    }
}

/// The model deployed for definition `definition_id`.
pub fn find_model<'a>(models: &'a Vec<DeployedModel>, definition_id: &str) -> (r: Option<&'a EventRefModel>)
    ensures
        opt_model(r) == model_of(models@, definition_id@),
{
    let mut i: usize = 0;
    while i < models.len()
        invariant
            0 <= i <= models.len(),
            model_position(models@, definition_id@, i as int) is None,
        decreases models.len() - i,
    {
        if str_eq(models[i].process_definition_id.as_str(), definition_id) {
            proof {
                assert(model_position(models@, definition_id@, i + 1) == Some(i as int));
                lemma_model_position_grows(models@, definition_id@, i + 1, models@.len() as int);
            }
            return Some(&models[i].model);
        }
        i = i + 1;
    }
    None
}

/// Whether the subscription reference `sub_ref` takes `thrown`, comparing
/// the escalation (or error) codes they stand for in `model`.
pub open spec fn sub_refs_match(model: Option<EventRefModel>, sub_ref: Seq<char>, thrown: Seq<char>, escalation: bool, catch_all: bool) -> bool {
    if escalation {
        refs_match_spec(sub_ref, thrown, escalation_code_of(model, sub_ref), escalation_code_of(model, thrown), catch_all)
    } else {
        refs_match_spec(sub_ref, thrown, error_code_of(model, sub_ref), error_code_of(model, thrown), catch_all)
    }
}

fn refs_match(model: Option<&EventRefModel>, sub_ref: &str, thrown: &str, escalation: bool, catch_all: bool) -> (r: bool)
    ensures
        r == sub_refs_match(opt_model(model), sub_ref@, thrown@, escalation, catch_all),
{
    if sub_ref.unicode_len() == 0 {
        return catch_all;
    }
    if str_eq(sub_ref, thrown) {
        return true;
    }
    if escalation {
        let a = normalize_escalation_ref(model, sub_ref);
        let b = normalize_escalation_ref(model, thrown);
        str_eq(a.as_str(), b.as_str())
    } else {
        let a = normalize_error_ref(model, sub_ref);
        let b = normalize_error_ref(model, thrown);
        str_eq(a.as_str(), b.as_str())
    }
}

/// The model `sub`'s references are read against for the given kind.
pub open spec fn ref_model_of(store: RuntimeStore, models: Seq<DeployedModel>, sub: EventSubprocessEventSubscription, escalation: bool) -> Option<
    EventRefModel,
> {
    if escalation {
        escalation_model_of(store, models, sub)
    } else {
        error_model_of(store, models, sub)
    }
}

fn subscription_ref_model<'a>(store: &RuntimeStore, models: &'a Vec<DeployedModel>, sub: &EventSubprocessEventSubscription,
    escalation: bool) -> (r: Option<&'a EventRefModel>)
    requires
        store.wf(),
    ensures
        opt_model(r) == ref_model_of(*store, models@, *sub, escalation),
{
    match subscription_definition_id(store, sub) {
        Some(d) => find_model(models, d.as_str()),
        None => if escalation {
            let none = "";
            proof {
                reveal_strlit("");
                assert(none@ =~= Seq::<char>::empty());
            }
            find_model(models, none)
        } else {
            None
        },
    }
}

/// Whether the event (`kind`, `event_ref`) reaches subscription `sub`.
pub open spec fn subscription_takes(
    store: RuntimeStore,
    models: Seq<DeployedModel>,
    sub: EventSubprocessEventSubscription,
    kind: EventSubscriptionKind,
    event_ref: Seq<char>,
) -> bool {
    sub.event_kind == kind && if kind == EventSubscriptionKind::Escalation || kind == EventSubscriptionKind::Error {
        let esc = kind == EventSubscriptionKind::Escalation;
        sub_refs_match(ref_model_of(store, models, sub, esc), sub.event_ref@, event_ref, esc, true)
    } else {
        sub.event_ref@ == event_ref
    }
}

/// The subscriptions among the first `n` of instance `pid` that the event
/// reaches, in order.
pub open spec fn matching_subscriptions(
    store: RuntimeStore,
    models: Seq<DeployedModel>,
    subs: Seq<EventSubprocessEventSubscription>,
    kind: EventSubscriptionKind,
    event_ref: Seq<char>,
    pid: Seq<char>,
    n: int,
) -> Seq<EventSubprocessEventSubscription>
    decreases n,
{
    if n <= 0 {
        Seq::empty()
    } else {
        let rest = matching_subscriptions(store, models, subs, kind, event_ref, pid, n - 1);
        let sub = subs[n - 1];
        if sub.process_instance_id@ == pid && subscription_takes(store, models, sub, kind, event_ref) {
            rest.push(sub)
        } else {
            rest
        }
    }
}

/// The subscriptions of instance `process_instance_id` (in `subs`) that the
/// event reaches.
pub fn find_matching_subscriptions(
    store: &RuntimeStore,
    models: &Vec<DeployedModel>,
    subs: &Vec<EventSubprocessEventSubscription>,
    kind: EventSubscriptionKind,
    event_ref: &str,
    process_instance_id: &String,
) -> (r: Vec<EventSubprocessEventSubscription>)
    requires
        store.wf(),
    ensures
        r@ == matching_subscriptions(*store, models@, subs@, kind, event_ref@, process_instance_id@, subs@.len() as int),
{
    let mut out: Vec<EventSubprocessEventSubscription> = Vec::new();
    let mut i: usize = 0;
    while i < subs.len()
        invariant
            store.wf(),
            0 <= i <= subs.len(),
            out@ == matching_subscriptions(*store, models@, subs@, kind, event_ref@, process_instance_id@, i as int),
        decreases subs.len() - i,
    {
        let sub = &subs[i];
        if str_eq(sub.process_instance_id.as_str(), process_instance_id.as_str()) && sub.event_kind == kind {
            let takes = if kind == EventSubscriptionKind::Escalation || kind == EventSubscriptionKind::Error {
                let esc = kind == EventSubscriptionKind::Escalation;
                let model = subscription_ref_model(store, models, sub, esc);
                refs_match(model, sub.event_ref.as_str(), event_ref, esc, true)
            } else {
                str_eq(sub.event_ref.as_str(), event_ref)
            };
            if takes {
                out.push(sub.duplicate());
            }
        }
        i = i + 1;
    }
    out
}

/// Which of several subscriptions catches a thrown error (`accept_any`
/// false) or escalation: walking the thrower's ancestry nearest first, the
/// first subscription of that scope naming the reference, else the first
/// of it without a reference, else (escalations) the first of it at all;
/// failing all, the first naming it anywhere, else the first subscription.
pub open spec fn nearest_subscription(
    hosts: Seq<Seq<char>>,
    refs_empty: Seq<bool>,
    exact: Seq<bool>,
    ancestry: Seq<Seq<char>>,
    accept_any: bool,
    k: int,
) -> Option<int>
    decreases ancestry.len() - k,
{
    let n = hosts.len() as int;
    if k >= ancestry.len() || k < 0 {
        match first_hit(hosts, refs_empty, exact, None, false, false, n) {
            Some(i) => Some(i),
            None => if n > 0 { Some(0) } else { None },
        }
    } else {
        match first_hit(hosts, refs_empty, exact, Some(ancestry[k]), false, false, n) {
            Some(i) => Some(i),
            None => match first_hit(hosts, refs_empty, exact, Some(ancestry[k]), true, false, n) {
                Some(i) => Some(i),
                None => if accept_any {
                    match first_hit(hosts, refs_empty, exact, Some(ancestry[k]), true, true, n) {
                        Some(i) => Some(i),
                        None => nearest_subscription(hosts, refs_empty, exact, ancestry, accept_any, k + 1),
                    }
                } else {
                    nearest_subscription(hosts, refs_empty, exact, ancestry, accept_any, k + 1)
                },
            },
        }
    }
}

pub open spec fn scopes_of(subs: Seq<EventSubprocessEventSubscription>) -> Seq<Seq<char>> {
    subs.map_values(|s: EventSubprocessEventSubscription| scope_of(s))
}

pub open spec fn sub_refs_empty(subs: Seq<EventSubprocessEventSubscription>) -> Seq<bool> {
    subs.map_values(|s: EventSubprocessEventSubscription| s.event_ref@.len() == 0)
}

/// Which subscriptions name the thrown reference exactly.
pub open spec fn sub_exact(store: RuntimeStore, models: Seq<DeployedModel>, subs: Seq<EventSubprocessEventSubscription>,
    thrown: Seq<char>, escalation: bool) -> Seq<bool> {
    Seq::new(
        subs.len(),
        |i: int| sub_refs_match(ref_model_of(store, models, subs[i], escalation), subs[i].event_ref@, thrown, escalation, false),
    )
}

/// The subscription that catches the throw, when any.
pub open spec fn catching_subscription(store: RuntimeStore, models: Seq<DeployedModel>, subs: Seq<EventSubprocessEventSubscription>,
    source: Option<Seq<char>>, thrown: Seq<char>, escalation: bool) -> Option<int> {
    nearest_subscription(scopes_of(subs), sub_refs_empty(subs), sub_exact(store, models, subs, thrown, escalation),
        throw_ancestry(store, source), escalation, 0)
}

fn first_hit_index(hosts: &Vec<String>, empties: &Vec<bool>, exact: &Vec<bool>, host: Option<&String>, any_ref: bool,
    escalation: bool) -> (r: Option<usize>)
    requires
        empties@.len() == hosts@.len(),
        exact@.len() == hosts@.len(),
    ensures
        opt_usize(r) == first_hit(string_views(hosts@), empties@, exact@, opt_string_view(host), any_ref, escalation,
            hosts@.len() as int),
        r matches Some(i) ==> i < hosts@.len(),
{
    let ghost hv = string_views(hosts@);
    let ghost h = opt_string_view(host);
    let mut i: usize = 0;
    while i < hosts.len()
        invariant
            0 <= i <= hosts.len(),
            empties@.len() == hosts@.len(),
            exact@.len() == hosts@.len(),
            hv == string_views(hosts@),
            h == opt_string_view(host),
            first_hit(hv, empties@, exact@, h, any_ref, escalation, i as int) is None,
        decreases hosts.len() - i,
    {
        let hit = match host {
            Some(hs) => str_eq(hosts[i].as_str(), hs.as_str()) && (if any_ref {
                escalation || empties[i]
            } else {
                exact[i]
            }),
            None => exact[i],
        };
        assert(hv[i as int] == hosts@[i as int]@);
        if hit {
            proof {
                lemma_first_hit_extend(hv, empties@, exact@, h, any_ref, escalation, i + 1, hosts@.len() as int);
            }
            return Some(i);
        }
        i = i + 1;
    }
    None
}

/// The subscription among `subscriptions` that catches the error
/// (`escalation` false) or escalation `thrown_ref` thrown at
/// `source_execution_id` (see `nearest_subscription`).
pub fn select_nearest_event_subprocess_subscription(
    store: &RuntimeStore,
    models: &Vec<DeployedModel>,
    subscriptions: Vec<EventSubprocessEventSubscription>,
    source_execution_id: Option<&String>,
    thrown_ref: &str,
    escalation: bool,
) -> (r: Option<EventSubprocessEventSubscription>)
    requires
        store.wf(),
    ensures
        match catching_subscription(*store, models@, subscriptions@, opt_string_view(source_execution_id), thrown_ref@, escalation) {
            Some(i) => 0 <= i < subscriptions@.len() && r == Some(subscriptions@[i]),
            None => r is None,
        },
{
    let ghost subs = subscriptions@;
    let mut hosts: Vec<String> = Vec::new();
    let mut empties: Vec<bool> = Vec::new();
    let mut exact: Vec<bool> = Vec::new();
    let mut i: usize = 0;
    while i < subscriptions.len()
        invariant
            store.wf(),
            subs == subscriptions@,
            0 <= i <= subs.len(),
            string_views(hosts@) == scopes_of(subs).take(i as int),
            empties@ == sub_refs_empty(subs).take(i as int),
            exact@ == sub_exact(*store, models@, subs, thrown_ref@, escalation).take(i as int),
        decreases subs.len() - i,
    {
        let sub = &subscriptions[i];
        let host = match &sub.scope_execution_id {
            Some(s) => s.clone(),
            None => sub.process_instance_id.clone(),
        };
        assert(host@ == scope_of(subs[i as int]));
        let ghost prev = hosts@;
        hosts.push(host);
        assert(string_views(hosts@) =~= string_views(prev).push(host@));
        empties.push(sub.event_ref.unicode_len() == 0);
        let model = subscription_ref_model(store, models, sub, escalation);
        exact.push(refs_match(model, sub.event_ref.as_str(), thrown_ref, escalation, false));
        proof {
            assert(string_views(hosts@) =~= scopes_of(subs).take(i + 1));
            assert(empties@ =~= sub_refs_empty(subs).take(i + 1));
            assert(exact@ =~= sub_exact(*store, models@, subs, thrown_ref@, escalation).take(i + 1));
        }
        i = i + 1;
    }
    proof {
        assert(string_views(hosts@) =~= scopes_of(subs));
        assert(empties@ =~= sub_refs_empty(subs));
        assert(exact@ =~= sub_exact(*store, models@, subs, thrown_ref@, escalation));
    }
    let chain: Vec<String> = match source_execution_id {
        Some(s) => execution_ancestry(store, s),
        None => Vec::new(),
    };
    let ghost anc = string_views(chain@);
    proof {
        if source_execution_id is None {
            assert(anc =~= Seq::<Seq<char>>::empty());
        }
    }
    let ghost hv = scopes_of(subs);
    let ghost ev = sub_refs_empty(subs);
    let ghost xv = sub_exact(*store, models@, subs, thrown_ref@, escalation);
    let mut pool = subscriptions;
    let mut k: usize = 0;
    while k < chain.len()
        invariant
            subs == pool@,
            subs == subscriptions@,
            anc == string_views(chain@),
            hv == string_views(hosts@),
            ev == empties@,
            xv == exact@,
            hosts@.len() == subs.len(),
            empties@.len() == subs.len(),
            exact@.len() == subs.len(),
            hv == scopes_of(subs),
            ev == sub_refs_empty(subs),
            xv == sub_exact(*store, models@, subs, thrown_ref@, escalation),
            anc == throw_ancestry(*store, opt_string_view(source_execution_id)),
            0 <= k <= chain.len(),
            nearest_subscription(hv, ev, xv, anc, escalation, 0) == nearest_subscription(hv, ev, xv, anc, escalation, k as int),
        decreases chain.len() - k,
    {
        let host = &chain[k];
        assert(anc[k as int] == host@);
        if let Some(j) = first_hit_index(&hosts, &empties, &exact, Some(host), false, false) {
            return Some(pool.remove(j));
        }
        if let Some(j) = first_hit_index(&hosts, &empties, &exact, Some(host), true, false) {
            return Some(pool.remove(j));
        }
        if escalation {
            if let Some(j) = first_hit_index(&hosts, &empties, &exact, Some(host), true, true) {
                return Some(pool.remove(j));
            }
        }
        k = k + 1;
    }
    assert(k == anc.len());
    assert(hv.len() == subs.len());
    if let Some(j) = first_hit_index(&hosts, &empties, &exact, None, false, false) {
        return Some(pool.remove(j));
    }
    if pool.len() > 0 {
        Some(pool.remove(0))
    } else {
        None
    }
}

/// Whether the stored execution `e` runs in the scope of `sub`: in its
/// instance, and the scope itself or below it.
pub open spec fn runs_in_scope(store: RuntimeStore, sub: EventSubprocessEventSubscription, e: Execution) -> bool {
    &&& e.process_instance_id is Some
    &&& e.process_instance_id->0@ == sub.process_instance_id@
    &&& (e.id@ == scope_of(sub) || within_scope(store.executions@, opt_view(e.parent_id), scope_of(sub), 256))
}

/// The executions an interrupting activation of `sub` ends.
pub open spec fn in_scope_ids(store: RuntimeStore, sub: EventSubprocessEventSubscription) -> Set<Seq<char>> {
    Set::new(|k: Seq<char>| store.executions@.contains_key(k) && runs_in_scope(store, sub, store.executions@[k]))
}

/// The ids of the first `n` rows that run in the scope of `sub`, in order.
pub open spec fn scope_row_ids(store: RuntimeStore, rows: Seq<Execution>, sub: EventSubprocessEventSubscription, n: int) -> Seq<Seq<char>>
    decreases n,
{
    if n <= 0 {
        Seq::empty()
    } else if runs_in_scope(store, sub, rows[n - 1]) {
        scope_row_ids(store, rows, sub, n - 1).push(rows[n - 1].id@)
    } else {
        scope_row_ids(store, rows, sub, n - 1)
    }
}

proof fn lemma_scope_row_ids(store: RuntimeStore, rows: Seq<Execution>, sub: EventSubprocessEventSubscription, n: int, k: Seq<char>)
    requires
        0 <= n <= rows.len(),
    ensures
        scope_row_ids(store, rows, sub, n).contains(k) <==> exists|j: int|
            0 <= j < n && runs_in_scope(store, sub, #[trigger] rows[j]) && rows[j].id@ == k,
    decreases n,
{
    if n > 0 {
        lemma_scope_row_ids(store, rows, sub, n - 1, k);
        lemma_seq_contains_after_push(scope_row_ids(store, rows, sub, n - 1), rows[n - 1].id@, k);
    }
}

/// The ids of the executions that run in the scope of `sub`.
fn collect_scope_executions(store: &RuntimeStore, sub: &EventSubprocessEventSubscription) -> (r: Vec<String>)
    requires
        store.wf(),
    ensures
        id_set(string_views(r@)) == in_scope_ids(*store, *sub),
{
    let scope: String = match &sub.scope_execution_id {
        Some(s) => s.clone(),
        None => sub.process_instance_id.clone(),
    };
    let ghost rows = store.executions.rows@;
    let mut out: Vec<String> = Vec::new();
    let mut i: usize = 0;
    while i < store.executions.rows.len()
        invariant
            store.wf(),
            rows == store.executions.rows@,
            scope@ == scope_of(*sub),
            0 <= i <= rows.len(),
            string_views(out@) == scope_row_ids(*store, rows, *sub, i as int),
        decreases rows.len() - i,
    {
        let e = &store.executions.rows[i];
        let in_instance = match &e.process_instance_id {
            Some(p) => str_eq(p.as_str(), sub.process_instance_id.as_str()),
            None => false,
        };
        if in_instance && execution_is_descendant_of_scope(store, e, &scope) {
            out.push(e.id.clone());
            assert(string_views(out@) =~= scope_row_ids(*store, rows, *sub, i as int).push(rows[i as int].id@));
        }
        i = i + 1;
    }
    proof {
        assert forall|k: Seq<char>| #[trigger] id_set(string_views(out@)).contains(k) <==> in_scope_ids(*store, *sub).contains(k) by {
            lemma_scope_row_ids(*store, rows, *sub, rows.len() as int, k);
            if in_scope_ids(*store, *sub).contains(k) {
                let j = index_of(rows, k);
                lemma_index_of(rows, j);
                assert(runs_in_scope(*store, *sub, rows[j]) && rows[j].id@ == k);
            }
            if exists|j: int| 0 <= j < rows.len() && runs_in_scope(*store, *sub, #[trigger] rows[j]) && rows[j].id@ == k {
                let j = choose|j: int| 0 <= j < rows.len() && runs_in_scope(*store, *sub, #[trigger] rows[j]) && rows[j].id@ == k;
                lemma_index_of(rows, j);
            }
        }
        assert(id_set(string_views(out@)) =~= in_scope_ids(*store, *sub));
    }
    out
}

/// What activating an event subprocess did.
#[derive(Debug)]
pub struct EventSubprocessActivation {
    pub subscription_id: String,
    /// The execution started at the subprocess's start event (none when the
    /// instance is not stored); the engine continues the process from it.
    pub execution: Option<Execution>,
    /// The executions an interrupting activation ended in the scope; all
    /// are deleted but the scope row itself, which is made inactive. The
    /// caller clears their wait states and boundary registrations and
    /// records their activities as ended.
    pub interrupted: Vec<String>,
    /// The scope whose event-subprocess subscriptions the caller deletes
    /// (after an interrupting activation).
    pub cleared_scope: Option<String>,
    /// Whether the caller deletes the activated subscription itself.
    pub consumed: bool,
}

/// How an interrupting activation of `sub` keeps its scope row.
pub open spec fn scope_row_mode(sub: EventSubprocessEventSubscription) -> KeptRow {
    KeptRow::Deactivate { clear_activity: scope_of(sub) == sub.process_instance_id@ }
}

/// The executions an activation of `sub` ends.
pub open spec fn activation_ends(store: RuntimeStore, sub: EventSubprocessEventSubscription) -> Set<Seq<char>> {
    if sub.interrupting {
        in_scope_ids(store, sub)
    } else {
        Set::empty()
    }
}

/// `x` is the execution started at `sub`'s start event in instance `pi`,
/// under the parent `parent`.
pub open spec fn started_at(x: Execution, sub: EventSubprocessEventSubscription, pi: ProcessInstance, parent: Seq<char>) -> bool {
    &&& x.parent_id is Some && x.parent_id->0@ == parent
    &&& x.process_instance_id is Some && x.process_instance_id->0@ == pi.id@
    &&& x.process_definition_id is Some && x.process_definition_id->0@ == pi.process_definition_id@
    &&& x.activity_id is Some && x.activity_id->0@ == sub.start_event_id@
    &&& !x.is_suspended
    &&& x.is_active
    &&& x.is_scope
    &&& !x.is_ended
}

/// `after` and `a` are what activating `sub` in `before` gives.
pub open spec fn activation_done(before: RuntimeStore, after: RuntimeStore, sub: EventSubprocessEventSubscription,
    a: EventSubprocessActivation) -> bool {
    let ids = activation_ends(before, sub);
    let scope = scope_of(sub);
    let kept = after_interrupt(before.executions@, ids, scope, scope_row_mode(sub));
    let pid = sub.process_instance_id@;
    &&& a.subscription_id == sub.subscription_id
    &&& id_set(string_views(a.interrupted@)) == ids
    &&& opt_view(a.cleared_scope) == (if sub.interrupting { Some(scope) } else { None })
    &&& a.consumed == (sub.interrupting && sub.event_kind != EventSubscriptionKind::Error
        && sub.event_kind != EventSubscriptionKind::Escalation)
    &&& frame(before, after, set![StoreTable::Tasks, StoreTable::Executions, StoreTable::TimerJobs, StoreTable::JobTypes])
    &&& after.tasks@ == before.tasks@.remove_keys(tasks_of(before, ids))
    &&& after.timer_jobs@ == before.timer_jobs@.remove_keys(jobs_of(before, ids))
    &&& after.job_types@ == before.job_types@.remove_keys(jobs_of(before, ids))
    &&& if before.process_instances@.contains_key(pid) {
        let pi = before.process_instances@[pid];
        let parent = if sub.interrupting && sub.scope_execution_id is Some && kept.contains_key(scope) {
            scope
        } else {
            pi.id@
        };
        &&& a.execution is Some
        &&& started_at(a.execution->0, sub, pi, parent)
        &&& after.executions@ == kept.insert(a.execution->0.id@, a.execution->0)
    } else {
        &&& a.execution is None
        &&& after.executions@ == kept
    }
}

/// Activates the event subprocess of `sub`: an interrupting one first ends
/// everything running in its scope (the scope row is kept, inactive); then
/// an active execution is started at its start event.
pub fn activate_event_subprocess(store: &mut RuntimeStore, sub: &EventSubprocessEventSubscription) -> (r: EventSubprocessActivation)
    requires
        old(store).wf(),
    ensures
        final(store).wf(),
        activation_done(*old(store), *final(store), *sub, r),
{
    let ghost before = *store;
    let scope: String = match &sub.scope_execution_id {
        Some(s) => s.clone(),
        None => sub.process_instance_id.clone(),
    };
    let mut ended: Vec<String> = Vec::new();
    let mut cleared: Option<String> = None;
    if sub.interrupting {
        ended = collect_scope_executions(store, sub);
        let clear_activity = str_eq(scope.as_str(), sub.process_instance_id.as_str());
        end_executions(store, &ended, &scope, KeptRow::Deactivate { clear_activity });
        cleared = Some(scope.clone());
    } else {
        proof {
            let none = Set::<Seq<char>>::empty();
            assert(id_set(string_views(ended@)) =~= none);
            assert(tasks_of(before, none) =~= none);
            assert(jobs_of(before, none) =~= none);
            assert(before.tasks@.remove_keys(none) =~= before.tasks@);
            assert(before.timer_jobs@.remove_keys(none) =~= before.timer_jobs@);
            assert(before.job_types@.remove_keys(none) =~= before.job_types@);
            assert(after_interrupt(before.executions@, none, scope@, scope_row_mode(*sub)) =~= before.executions@);
        }
    }
    let consumed = sub.interrupting && sub.event_kind != EventSubscriptionKind::Error
        && sub.event_kind != EventSubscriptionKind::Escalation;
    let pi = match store.find_process_instance(&sub.process_instance_id) {
        Some(pi) => pi,
        None => {
            return EventSubprocessActivation {
                subscription_id: sub.subscription_id.clone(),
                execution: None,
                interrupted: ended,
                cleared_scope: cleared,
                consumed,
            };
        },
    };
    let parent: String = if sub.interrupting && sub.scope_execution_id.is_some() && store.find_execution(&scope).is_some() {
        scope
    } else {
        pi.id.clone()
    };
    let execution = Execution {
        id: new_uuid(),
        parent_id: Some(parent),
        process_instance_id: Some(pi.id.clone()),
        process_definition_id: Some(pi.process_definition_id.clone()),
        activity_id: Some(sub.start_event_id.clone()),
        is_suspended: false,
        is_active: true,
        is_scope: true,
        is_ended: false,
    };
    store.insert_execution(execution.duplicate());
    EventSubprocessActivation {
        subscription_id: sub.subscription_id.clone(),
        execution: Some(execution),
        interrupted: ended,
        cleared_scope: cleared,
        consumed,
    }
}

/// What triggering event subprocesses did: the ids of the activations and
/// whether any interrupted.
#[derive(Debug)]
pub struct EventSubprocessTriggerResult {
    pub triggered_ids: Vec<String>,
    pub interrupting: bool,
}

/// The subscriptions the command activates: for errors and escalations the
/// one that catches the throw, otherwise every subscription the event
/// reaches.
pub open spec fn selected_subscriptions(store: RuntimeStore, models: Seq<DeployedModel>, subs: Seq<EventSubprocessEventSubscription>,
    cmd: TriggerEventSubprocessByEventCmd) -> Seq<EventSubprocessEventSubscription> {
    let m = matching_subscriptions(store, models, subs, cmd.event_kind, cmd.event_ref@, cmd.process_instance_id@, subs.len() as int);
    if cmd.event_kind == EventSubscriptionKind::Escalation || cmd.event_kind == EventSubscriptionKind::Error {
        match catching_subscription(store, models, m, opt_view(cmd.source_execution_id), cmd.event_ref@,
            cmd.event_kind == EventSubscriptionKind::Escalation) {
            Some(i) => seq![m[i]],
            None => Seq::empty(),
        }
    } else {
        m
    }
}

/// The id reported for activating `sub` on an event of `kind`.
pub open spec fn triggered_id(kind: EventSubscriptionKind, sub: EventSubprocessEventSubscription) -> Seq<char> {
    "event_subprocess_"@ + kind_label_spec(kind) + ":"@ + sub.process_instance_id@ + ":"@ + sub.start_event_id@
}

impl TriggerEventSubprocessByEventCmd {
    /// Activates the event subprocesses of the instance (subscribed in
    /// `subscriptions`) that the event reaches (see
    /// `selected_subscriptions`), one after another, and reports them.
    pub fn run(
        &self,
        store: &mut RuntimeStore,
        subscriptions: &Vec<EventSubprocessEventSubscription>,
        models: &Vec<DeployedModel>,
    ) -> (r: (EventSubprocessTriggerResult, Vec<EventSubprocessActivation>))
        requires
            old(store).wf(),
        ensures
            final(store).wf(),
            ({
                let sel = selected_subscriptions(*old(store), models@, subscriptions@, *self);
                &&& r.1@.len() == sel.len()
                &&& string_views(r.0.triggered_ids@) == Seq::new(sel.len(), |i: int| triggered_id(self.event_kind, sel[i]))
                &&& r.0.interrupting == exists|i: int| 0 <= i < sel.len() && (#[trigger] sel[i]).interrupting
                &&& exists|chain: Seq<RuntimeStore>| {
                    &&& chain.len() == sel.len() + 1
                    &&& chain[0] == *old(store)
                    &&& chain[sel.len() as int] == *final(store)
                    &&& forall|i: int| 0 <= i < sel.len() ==> activation_done(#[trigger] chain[i], chain[i + 1], sel[i], r.1@[i])
                }
            }),
    {
        let ghost before = *store;
        let matching = find_matching_subscriptions(
            store,
            models,
            subscriptions,
            self.event_kind,
            self.event_ref.as_str(),
            &self.process_instance_id,
        );
        let esc = self.event_kind == EventSubscriptionKind::Escalation;
        let selected: Vec<EventSubprocessEventSubscription> = if esc || self.event_kind == EventSubscriptionKind::Error {
            let source = self.source_execution_id.as_ref();
            assert(opt_string_view(source) == opt_view(self.source_execution_id));
            let ghost m = matching@;
            match select_nearest_event_subprocess_subscription(store, models, matching, source, self.event_ref.as_str(), esc) {
                Some(sub) => {
                    let mut one: Vec<EventSubprocessEventSubscription> = Vec::new();
                    one.push(sub);
                    assert(one@ =~= seq![sub]);
                    one
                },
                None => Vec::new(),
            }
        } else {
            matching
        };
        let ghost sel = selected@;
        assert(sel =~= selected_subscriptions(before, models@, subscriptions@, *self));
        let label = subscription_kind_label(self.event_kind);
        let mut ids: Vec<String> = Vec::new();
        let mut acts: Vec<EventSubprocessActivation> = Vec::new();
        let mut interrupting = false;
        let ghost mut chain: Seq<RuntimeStore> = seq![before];
        let mut i: usize = 0;
        while i < selected.len()
            invariant
                store.wf(),
                sel == selected@,
                label@ == kind_label_spec(self.event_kind),
                0 <= i <= sel.len(),
                chain.len() == i + 1,
                chain[0] == before,
                chain[i as int] == *store,
                acts@.len() == i,
                forall|j: int| 0 <= j < i ==> activation_done(#[trigger] chain[j], chain[j + 1], sel[j], acts@[j]),
                string_views(ids@) == Seq::new(i as nat, |j: int| triggered_id(self.event_kind, sel[j])),
                interrupting == exists|j: int| 0 <= j < i && (#[trigger] sel[j]).interrupting,
            decreases sel.len() - i,
        {
            let sub = &selected[i];
            let a = activate_event_subprocess(store, sub);
            proof {
                chain = chain.push(*store);
            }
            interrupting = interrupting || sub.interrupting;
            let head = crate::text::cat("event_subprocess_", label);
            let with_pi = crate::text::cat3(head.as_str(), ":", sub.process_instance_id.as_str());
            let id = crate::text::cat3(with_pi.as_str(), ":", sub.start_event_id.as_str());
            assert(id@ == triggered_id(self.event_kind, sel[i as int]));
            let ghost prev = ids@;
            ids.push(id);
            assert(string_views(ids@) =~= string_views(prev).push(id@));
            acts.push(a);
            proof {
                assert(string_views(ids@) =~= Seq::new((i + 1) as nat, |j: int| triggered_id(self.event_kind, sel[j])));
                assert forall|j: int| 0 <= j < i + 1 implies activation_done(#[trigger] chain[j], chain[j + 1], sel[j], acts@[j]) by {
                    if j < i {
                        assert(chain[j] == chain.drop_last()[j]);
                    }
                }
            }
            i = i + 1;
        }
        (EventSubprocessTriggerResult { triggered_ids: ids, interrupting }, acts)
    }
}

} // verus!
