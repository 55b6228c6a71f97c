//! Message correlation: which waiting execution a message is delivered to,
//! and which process instances are tried when none waits for it.
use vstd::prelude::*;
use crate::boundary::RuntimeBoundaryEventState;
use crate::boundary_catch::DeployedModel;
use crate::boundary_firing::{boundary_fired, caught_by, matching_boundaries, BoundaryFiring};
use crate::catch_events::{event_catch_result, CatchEventExit, DeployedFlowElement};
use crate::command::CommandContext;
use crate::event_start::{no_start_subscription_message, selected_start, start_request};
use crate::event_subprocesses::{
    activation_done, matching_subscriptions, selected_subscriptions, EventSubprocessActivation, EventSubprocessEventSubscription,
};
use crate::start::start_outcome;
use crate::start_subscriptions::ProcessEventStartSubscription;
use crate::execution_tree::string_views;
use crate::entities::{clone_opt, opt_view, ProcessInstance};
use crate::error::FlowableError;
use crate::triggers::{
    opt_wait, TriggerBoundaryEventByEventRefCmd, TriggerEventIntermediateCatchCmd, TriggerEventSubprocessByEventCmd,
    TriggerProcessStartByEventCmd,
};
use crate::events::{EventSubscriptionKind, RuntimeEventWaitKind, RuntimeEventWaitState};
use crate::ordering::{seq_le, str_le, str_eq, lemma_seq_le_transitive, lemma_seq_le_total,
    lemma_seq_le_reflexive};
use crate::store::RuntimeStore;

verus! {

pub open spec fn message_wait_kind(k: RuntimeEventWaitKind) -> bool {
    k == RuntimeEventWaitKind::MessageIntermediateCatchEvent || k == RuntimeEventWaitKind::ReceiveTask
}

/// Whether executions waiting in this kind of element receive messages.
pub fn is_message_wait_kind(kind: &RuntimeEventWaitKind) -> (r: bool)
    ensures
        r == message_wait_kind(*kind),
{
    match kind {
        RuntimeEventWaitKind::MessageIntermediateCatchEvent => true,
        RuntimeEventWaitKind::ReceiveTask => true,
        _ => false,
    }
}

pub open spec fn message_ref_spec(ws: RuntimeEventWaitState, name: Seq<char>) -> bool {
    ws.event_subscription matches Some(sub) && sub.kind == EventSubscriptionKind::Message && sub.event_ref@ == name
}

/// Whether the wait state is subscribed to the message `message_name`.
pub fn matches_message_ref(wait_state: &RuntimeEventWaitState, message_name: &str) -> (r: bool)
    ensures
        r == message_ref_spec(*wait_state, message_name@),
{
    match &wait_state.event_subscription {
        Some(sub) => sub.kind == EventSubscriptionKind::Message && str_eq(sub.event_ref.as_str(), message_name),
        None => false,
    }
}

/// The execution a correlated message is delivered to.
#[derive(Debug)]
pub struct CorrelateMessageTarget {
    pub execution_id: String,
    pub process_instance_id: String,
}

/// Whether `pi` passes the business key and tenant filters.
pub open spec fn instance_passes(pi: ProcessInstance, business_key: Option<Seq<char>>, tenant_id: Option<Seq<char>>) -> bool {
    &&& (business_key matches Some(bk) ==> opt_view(pi.business_key) == Some(bk))
    &&& (tenant_id matches Some(t) ==> opt_view(pi.tenant_id) == Some(t))
}

/// Whether a wait state can take the message: a message wait subscribed to
/// it, in the given instance when one is named, and, when a business key or
/// tenant is given, in a stored instance that has them.
pub open spec fn eligible_wait(
    store: RuntimeStore,
    ws: RuntimeEventWaitState,
    message_name: Seq<char>,
    process_instance_id: Option<Seq<char>>,
    business_key: Option<Seq<char>>,
    tenant_id: Option<Seq<char>>,
) -> bool {
    &&& message_wait_kind(ws.wait_kind)
    &&& message_ref_spec(ws, message_name)
    &&& (process_instance_id matches Some(p) ==> ws.process_instance_id@ == p)
    &&& ((business_key is Some || tenant_id is Some) ==> {
        &&& store.process_instances@.contains_key(ws.process_instance_id@)
        &&& instance_passes(store.process_instances@[ws.process_instance_id@], business_key, tenant_id)
    })
}

fn instance_filter_ok(pi: &ProcessInstance, business_key: Option<&str>, tenant_id: Option<&str>) -> (r: bool)
    ensures
        r == instance_passes(*pi, opt_str(business_key), opt_str(tenant_id)),
{
    if let Some(bk) = business_key {
        match &pi.business_key {
            Some(b) => {
                if !str_eq(b.as_str(), bk) {
                    return false;
                }
            },
            None => return false,
        }
    }
    if let Some(t) = tenant_id {
        match &pi.tenant_id {
            Some(x) => {
                if !str_eq(x.as_str(), t) {
                    return false;
                }
            },
            None => return false,
        }
    }
    true
}

pub open spec fn opt_str(o: Option<&str>) -> Option<Seq<char>> {
    match o {
        Some(s) => Some(s@),
        None => None,
    }
}

/// The waiting execution a message goes to: among the eligible wait states,
/// the one with the smallest execution id (the first such one on ties);
/// `None` when no wait state is eligible.
pub fn find_wait_state_target(
    store: &RuntimeStore,
    wait_states: &Vec<RuntimeEventWaitState>,
    message_name: &str,
    process_instance_id: Option<&str>,
    business_key: Option<&str>,
    tenant_id: Option<&str>,
) -> (r: Option<CorrelateMessageTarget>)
    requires
        store.wf(),
    ensures
        r is None <==> !(exists|i: int| 0 <= i < wait_states@.len() && eligible_wait(*store,
            #[trigger] wait_states@[i], message_name@, opt_str(process_instance_id), opt_str(business_key),
            opt_str(tenant_id))),
        r matches Some(t) ==> exists|i: int| 0 <= i < wait_states@.len() && {
            let w = #[trigger] wait_states@[i];
            &&& eligible_wait(*store, w, message_name@, opt_str(process_instance_id), opt_str(business_key), opt_str(tenant_id))
            &&& t.execution_id@ == w.execution_id@
            &&& t.process_instance_id@ == w.process_instance_id@
            &&& forall|j: int| 0 <= j < wait_states@.len() && eligible_wait(*store, #[trigger] wait_states@[j],
                message_name@, opt_str(process_instance_id), opt_str(business_key), opt_str(tenant_id))
                ==> seq_le(w.execution_id@, wait_states@[j].execution_id@)
        },
{
    let ghost pid = opt_str(process_instance_id);
    let ghost bk = opt_str(business_key);
    let ghost tid = opt_str(tenant_id);
    let mut best: Option<usize> = None;
    let mut i: usize = 0;
    while i < wait_states.len()
        invariant
            0 <= i <= wait_states.len(),
            store.wf(),
            pid == opt_str(process_instance_id),
            bk == opt_str(business_key),
            tid == opt_str(tenant_id),
            best is None <==> !(exists|k: int| 0 <= k < i && eligible_wait(*store, #[trigger] wait_states@[k],
                message_name@, pid, bk, tid)),
            best matches Some(b) ==> b < i && eligible_wait(*store, wait_states@[b as int], message_name@, pid, bk, tid)
                && forall|k: int| 0 <= k < i && eligible_wait(*store, #[trigger] wait_states@[k], message_name@, pid, bk, tid)
                ==> seq_le(wait_states@[b as int].execution_id@, wait_states@[k].execution_id@),
        decreases wait_states.len() - i,
    {
        let ws = &wait_states[i];
        let mut ok = is_message_wait_kind(&ws.wait_kind) && matches_message_ref(ws, message_name);
        if ok {
            if let Some(p) = process_instance_id {
                ok = str_eq(ws.process_instance_id.as_str(), p);
            }
        }
        if ok && (business_key.is_some() || tenant_id.is_some()) {
            ok = match store.find_process_instance(&ws.process_instance_id) {
                Some(pi) => instance_filter_ok(&pi, business_key, tenant_id),
                None => false,
            };
        }
        proof {
            assert(ok == eligible_wait(*store, wait_states@[i as int], message_name@, pid, bk, tid));
        }
        if ok {
            match best {
                None => {
                    best = Some(i);
                    proof {
                        lemma_seq_le_reflexive(wait_states@[i as int].execution_id@);
                    }
                },
                Some(b) => {
                    if !str_le(wait_states[b].execution_id.as_str(), ws.execution_id.as_str()) {
                        proof {
                            lemma_seq_le_total(wait_states@[b as int].execution_id@, ws.execution_id@);
                            assert forall|k: int| 0 <= k < i + 1 && eligible_wait(*store, #[trigger] wait_states@[k],
                                message_name@, pid, bk, tid) implies seq_le(ws.execution_id@, wait_states@[k].execution_id@) by {
                                if k < i {
                                    lemma_seq_le_transitive(ws.execution_id@, wait_states@[b as int].execution_id@,
                                        wait_states@[k].execution_id@);
                                } else {
                                    lemma_seq_le_reflexive(ws.execution_id@);
                                }
                            }
                        }
                        best = Some(i);
                    }
                },
            }
        }
        i = i + 1;
    }
    match best {
        Some(b) => Some(CorrelateMessageTarget {
            execution_id: wait_states[b].execution_id.clone(),
            process_instance_id: wait_states[b].process_instance_id.clone(),
        }),
        None => None,
    }
}

/// What correlating a message did.
#[derive(Debug)]
pub enum CorrelateMessageResult {
    /// A waiting execution was triggered (the id is empty when a boundary
    /// event or event subprocess of the instance took the message).
    MatchedExecution { execution_id: String, process_instance_id: String },
    /// Nothing waited; a new process instance was started.
    StartedProcess(ProcessInstance),
    /// Nothing waited and no instance was to be started.
    NoMatch,
}

/// Filters of a correlation.
#[derive(Debug)]
pub struct CorrelateMessageOptions {
    pub process_instance_id: Option<String>,
    pub business_key: Option<String>,
    pub tenant_id: Option<String>,
    /// Whether a new process instance is started when nothing waits.
    pub start_new_if_no_match: bool,
}

/// Whether a stored instance is tried for boundary events and event
/// subprocesses: running and passing the options' filters.
pub open spec fn fallback_instance(pi: ProcessInstance, options: CorrelateMessageOptions) -> bool {
    &&& !pi.is_ended
    &&& (options.process_instance_id matches Some(p) ==> pi.id@ == p@)
    &&& instance_passes(pi, opt_view(options.business_key), opt_view(options.tenant_id))
}

pub open spec fn fallback_ids(rows: Seq<ProcessInstance>, options: CorrelateMessageOptions) -> Seq<Seq<char>>
    decreases rows.len(),
{
    if rows.len() == 0 {
        Seq::empty()
    } else {
        let rest = fallback_ids(rows.drop_last(), options);
        if fallback_instance(rows.last(), options) {
            rest.push(rows.last().id@)
        } else {
            rest
        }
    }
}

fn opt_as_str(o: &Option<String>) -> (r: Option<&str>)
    ensures
        opt_str(r) == opt_view(*o),
{
    match o {
        Some(s) => Some(s.as_str()),
        None => None,
    }
}

/// The instances tried, in store order, when no execution waits for the message.
pub fn fallback_process_instances(store: &RuntimeStore, options: &CorrelateMessageOptions) -> (r: Vec<String>)
    ensures
        r@.map_values(|s: String| s@) == fallback_ids(store.process_instances.rows@, *options),
{
    let rows = &store.process_instances.rows;
    let mut out: Vec<String> = Vec::new();
    let mut i: usize = 0;
    while i < rows.len()
        invariant
            0 <= i <= rows.len(),
            out@.map_values(|s: String| s@) == fallback_ids(rows@.take(i as int), *options),
        decreases rows.len() - i,
    {
        let pi = &rows[i];
        assert(rows@.take(i + 1).drop_last() =~= rows@.take(i as int));
        assert(rows@.take(i + 1).last() == rows@[i as int]);
        let mut ok = !pi.is_ended;
        if ok {
            if let Some(p) = &options.process_instance_id {
                ok = pi.id.eq(p);
            }
        }
        if ok {
            ok = instance_filter_ok(pi, opt_as_str(&options.business_key), opt_as_str(&options.tenant_id));
        }
        if ok {
            out.push(pi.id.clone());
        }
        assert(out@.map_values(|s: String| s@) =~= fallback_ids(rows@.take(i + 1), *options));
        i = i + 1;
    }
    assert(rows@.take(rows.len() as int) =~= rows@);
    out
}

/// `t` is where the message goes: an eligible wait state with the least
/// execution id.
pub open spec fn correlation_target(
    store: RuntimeStore,
    wait_states: Seq<RuntimeEventWaitState>,
    message_name: Seq<char>,
    options: CorrelateMessageOptions,
    t: CorrelateMessageTarget,
) -> bool {
    let pid = opt_view(options.process_instance_id);
    let bk = opt_view(options.business_key);
    let tid = opt_view(options.tenant_id);
    exists|i: int| 0 <= i < wait_states.len() && {
        let w = #[trigger] wait_states[i];
        &&& eligible_wait(store, w, message_name, pid, bk, tid)
        &&& t.execution_id@ == w.execution_id@
        &&& t.process_instance_id@ == w.process_instance_id@
        &&& forall|j: int| 0 <= j < wait_states.len() && eligible_wait(store, #[trigger] wait_states[j],
            message_name, pid, bk, tid) ==> seq_le(w.execution_id@, wait_states[j].execution_id@)
    }
}

/// Whether some wait state can take the message.
pub open spec fn some_wait_eligible(
    store: RuntimeStore,
    wait_states: Seq<RuntimeEventWaitState>,
    message_name: Seq<char>,
    options: CorrelateMessageOptions,
) -> bool {
    exists|i: int| 0 <= i < wait_states.len() && eligible_wait(store, #[trigger] wait_states[i], message_name,
        opt_view(options.process_instance_id), opt_view(options.business_key), opt_view(options.tenant_id))
}

/// The first of the first `n` wait states of execution `eid`.
pub open spec fn wait_of(wait_states: Seq<RuntimeEventWaitState>, eid: Seq<char>, n: int) -> Option<RuntimeEventWaitState>
    decreases n,
{
    if n <= 0 {
        None
    } else {
        match wait_of(wait_states, eid, n - 1) {
            Some(w) => Some(w),
            None => if wait_states[n - 1].execution_id@ == eid {
                Some(wait_states[n - 1])
            } else {
                None
            },
        }
    }
}

/// The wait state of execution `eid`.
pub open spec fn wait_state_of(wait_states: Seq<RuntimeEventWaitState>, eid: Seq<char>) -> Option<RuntimeEventWaitState> {
    wait_of(wait_states, eid, wait_states.len() as int)
}

proof fn lemma_wait_of_grows(wait_states: Seq<RuntimeEventWaitState>, eid: Seq<char>, n: int, m: int)
    requires
        0 <= n <= m,
        wait_of(wait_states, eid, n) is Some,
    ensures
        wait_of(wait_states, eid, m) == wait_of(wait_states, eid, n),
    decreases m - n,
{
    if m > n {
        lemma_wait_of_grows(wait_states, eid, n, m - 1);
    }
}

/// The wait state of the execution `execution_id`, if it waits.
pub fn find_event_wait_state_by_execution_id<'a>(wait_states: &'a Vec<RuntimeEventWaitState>, execution_id: &String) -> (r: Option<
    &'a RuntimeEventWaitState,
>)
    ensures
        opt_wait(r) == wait_state_of(wait_states@, execution_id@),
{
    let mut i: usize = 0;
    while i < wait_states.len()
        invariant
            0 <= i <= wait_states.len(),
            wait_of(wait_states@, execution_id@, i as int) is None,
        decreases wait_states.len() - i,
    {
        if str_eq(wait_states[i].execution_id.as_str(), execution_id.as_str()) {
            proof {
                lemma_wait_of_grows(wait_states@, execution_id@, i + 1, wait_states@.len() as int);
            }
            return Some(&wait_states[i]);
        }
        i = i + 1;
    }
    None
}

/// Correlates a message with what waits for it.
#[derive(Debug)]
pub struct CorrelateMessageCmd {
    pub message_name: String,
    pub options: CorrelateMessageOptions,
}

/// What a correlation did with a waiting execution, or what it leaves to
/// try.
#[derive(Debug)]
pub enum CorrelationAction {
    /// The message reached a waiting receive task: its task, if it has one,
    /// is to be completed.
    CompleteReceiveTask { target: CorrelateMessageTarget, task_id: Option<String> },
    /// The message was delivered to an intermediate catch event (`None`
    /// when the execution no longer waited for it).
    LeftCatchEvent { target: CorrelateMessageTarget, exit: Option<CatchEventExit> },
    /// Nothing waits for the message: the boundary events, then the event
    /// subprocesses, of these instances are tried next, and then, if the
    /// options allow it, a new instance is started.
    TryInstances { process_instance_ids: Vec<String> },
}

/// Whether `w` is a waiting receive task.
pub open spec fn receive_task_wait(w: Option<RuntimeEventWaitState>) -> bool {
    w matches Some(x) && x.wait_kind == RuntimeEventWaitKind::ReceiveTask
}

impl CorrelateMessageCmd {
    pub fn new(message_name: String, options: CorrelateMessageOptions) -> (r: Self)
        ensures
            r.message_name == message_name,
            r.options == options,
    {
        CorrelateMessageCmd { message_name, options }
    }

    /// Delivers the message to the execution that waits for it (see
    /// `find_wait_state_target`), or, when none does, lists the instances
    /// to try next. `wait_states` are the stored event wait states.
    pub fn run(&self, store: &mut RuntimeStore, wait_states: &Vec<RuntimeEventWaitState>, elements: &Vec<DeployedFlowElement>) -> (r:
        Result<CorrelationAction, FlowableError>)
        requires
            old(store).wf(),
        ensures
            final(store).wf(),
            !some_wait_eligible(*old(store), wait_states@, self.message_name@, self.options) ==> {
                &&& r matches Ok(CorrelationAction::TryInstances { process_instance_ids })
                    && string_views(process_instance_ids@) == fallback_ids(old(store).process_instances.rows@, self.options)
                &&& *final(store) == *old(store)
            },
            some_wait_eligible(*old(store), wait_states@, self.message_name@, self.options) ==> match r {
                Ok(CorrelationAction::CompleteReceiveTask { target, task_id }) => {
                    &&& correlation_target(*old(store), wait_states@, self.message_name@, self.options, target)
                    &&& receive_task_wait(wait_state_of(wait_states@, target.execution_id@))
                    &&& task_id == wait_state_of(wait_states@, target.execution_id@)->0.task_id
                    &&& *final(store) == *old(store)
                },
                Ok(CorrelationAction::LeftCatchEvent { target, exit }) => {
                    &&& correlation_target(*old(store), wait_states@, self.message_name@, self.options, target)
                    &&& !receive_task_wait(wait_state_of(wait_states@, target.execution_id@))
                    &&& event_catch_result(*old(store), *final(store), wait_state_of(wait_states@, target.execution_id@),
                        target.execution_id@, EventSubscriptionKind::Message, self.message_name@, None, elements@, true,
                        Ok(exit))
                },
                Ok(CorrelationAction::TryInstances { .. }) => false,
                Err(e) => exists|t: CorrelateMessageTarget| {
                    &&& #[trigger] correlation_target(*old(store), wait_states@, self.message_name@, self.options, t)
                    &&& !receive_task_wait(wait_state_of(wait_states@, t.execution_id@))
                    &&& event_catch_result(*old(store), *final(store), wait_state_of(wait_states@, t.execution_id@),
                        t.execution_id@, EventSubscriptionKind::Message, self.message_name@, None, elements@, true,
                        Err(e))
                },
            },
    {
        let target = match find_wait_state_target(
            store,
            wait_states,
            self.message_name.as_str(),
            opt_as_str(&self.options.process_instance_id),
            opt_as_str(&self.options.business_key),
            opt_as_str(&self.options.tenant_id),
        ) {
            Some(t) => t,
            None => {
                let ids = fallback_process_instances(store, &self.options);
                return Ok(CorrelationAction::TryInstances { process_instance_ids: ids });
            },
        };
        assert(correlation_target(*store, wait_states@, self.message_name@, self.options, target));
        let wait = find_event_wait_state_by_execution_id(wait_states, &target.execution_id);
        if let Some(w) = wait {
            if w.wait_kind == RuntimeEventWaitKind::ReceiveTask {
                let task_id = clone_opt(&w.task_id);
                return Ok(CorrelationAction::CompleteReceiveTask { target, task_id });
            }
        }
        let cmd = TriggerEventIntermediateCatchCmd::new(
            EventSubscriptionKind::Message,
            self.message_name.clone(),
            target.execution_id.clone(),
        );
        match cmd.run(store, wait, None, elements) {
            Ok(exit) => Ok(CorrelationAction::LeftCatchEvent { target, exit }),
            Err(e) => {
                assert(correlation_target(*old(store), wait_states@, self.message_name@, self.options, target));
                Err(e)
            },
        }
    }
}

/// The boundary event of instance `pid` that catches the message, if any.
pub open spec fn boundary_catch_in(store: RuntimeStore, models: Seq<DeployedModel>, states: Seq<RuntimeBoundaryEventState>,
    message_name: Seq<char>, pid: Seq<char>) -> Option<RuntimeBoundaryEventState> {
    caught_by(
        store,
        models,
        matching_boundaries(store, models, states, EventSubscriptionKind::Message, message_name, pid, states.len() as int),
        EventSubscriptionKind::Message,
        message_name,
        None,
    )
}

/// The first of the first `n` instances with a boundary event catching the
/// message.
pub open spec fn first_with_boundary(store: RuntimeStore, models: Seq<DeployedModel>, states: Seq<RuntimeBoundaryEventState>,
    message_name: Seq<char>, pis: Seq<Seq<char>>, n: int) -> Option<int>
    decreases n,
{
    if n <= 0 {
        None
    } else {
        match first_with_boundary(store, models, states, message_name, pis, n - 1) {
            Some(i) => Some(i),
            None => if boundary_catch_in(store, models, states, message_name, pis[n - 1]) is Some {
                Some(n - 1)
            } else {
                None
            },
        }
    }
}

/// Whether the message starts an event subprocess of instance `pid`.
pub open spec fn starts_subprocess_in(store: RuntimeStore, models: Seq<DeployedModel>, subs: Seq<EventSubprocessEventSubscription>,
    message_name: Seq<char>, pid: Seq<char>) -> bool {
    matching_subscriptions(store, models, subs, EventSubscriptionKind::Message, message_name, pid, subs.len() as int).len() > 0
}

/// The first of the first `n` instances with an event subprocess the
/// message starts.
pub open spec fn first_with_subprocess(store: RuntimeStore, models: Seq<DeployedModel>, subs: Seq<EventSubprocessEventSubscription>,
    message_name: Seq<char>, pis: Seq<Seq<char>>, n: int) -> Option<int>
    decreases n,
{
    if n <= 0 {
        None
    } else {
        match first_with_subprocess(store, models, subs, message_name, pis, n - 1) {
            Some(i) => Some(i),
            None => if starts_subprocess_in(store, models, subs, message_name, pis[n - 1]) {
                Some(n - 1)
            } else {
                None
            },
        }
    }
}

/// The start the correlation falls back to.
pub open spec fn fallback_start(message_name: String, options: CorrelateMessageOptions) -> TriggerProcessStartByEventCmd {
    TriggerProcessStartByEventCmd {
        event_kind: EventSubscriptionKind::Message,
        event_ref: message_name,
        tenant_id: options.tenant_id,
        process_definition_id: None,
        business_key: options.business_key,
        start_user_id: None,
    }
}

proof fn lemma_first_with_boundary_grows(store: RuntimeStore, models: Seq<DeployedModel>, states: Seq<RuntimeBoundaryEventState>,
    message_name: Seq<char>, pis: Seq<Seq<char>>, n: int, m: int)
    requires
        0 <= n <= m,
        first_with_boundary(store, models, states, message_name, pis, n) is Some,
    ensures
        first_with_boundary(store, models, states, message_name, pis, m) == first_with_boundary(store, models, states,
            message_name, pis, n),
    decreases m - n,
{
    if m > n {
        lemma_first_with_boundary_grows(store, models, states, message_name, pis, n, m - 1);
    }
}

proof fn lemma_first_with_subprocess_grows(store: RuntimeStore, models: Seq<DeployedModel>, subs: Seq<EventSubprocessEventSubscription>,
    message_name: Seq<char>, pis: Seq<Seq<char>>, n: int, m: int)
    requires
        0 <= n <= m,
        first_with_subprocess(store, models, subs, message_name, pis, n) is Some,
    ensures
        first_with_subprocess(store, models, subs, message_name, pis, m) == first_with_subprocess(store, models, subs,
            message_name, pis, n),
    decreases m - n,
{
    if m > n {
        lemma_first_with_subprocess_grows(store, models, subs, message_name, pis, n, m - 1);
    }
}

/// The index of the first of the instances `ids` with a boundary event
/// catching the message, which is fired.
fn fire_first_boundary(
    store: &mut RuntimeStore,
    ids: &Vec<String>,
    boundary_states: &Vec<RuntimeBoundaryEventState>,
    models: &Vec<DeployedModel>,
    message_name: &String,
) -> (r: Option<usize>)
    requires
        old(store).wf(),
    ensures
        final(store).wf(),
        match r {
            Some(k) => {
                let st = boundary_catch_in(*old(store), models@, boundary_states@, message_name@, ids@[k as int]@)->0;
                &&& k < ids@.len()
                &&& first_with_boundary(*old(store), models@, boundary_states@, message_name@, string_views(ids@),
                    ids@.len() as int) == Some(k as int)
                &&& exists|f: Option<BoundaryFiring>| boundary_fired(*old(store), *final(store), st.host_execution_id@,
                    st.boundary_event_id@, st.cancel_activity, ids@[k as int]@, true, f)
            },
            None => {
                &&& first_with_boundary(*old(store), models@, boundary_states@, message_name@, string_views(ids@),
                    ids@.len() as int) is None
                &&& *final(store) == *old(store)
            },
        },
{
    let ghost before = *store;
    let ghost pis = string_views(ids@);
    let mut i: usize = 0;
    while i < ids.len()
        invariant
            store.wf(),
            *store == before,
            before == *old(store),
            pis == string_views(ids@),
            0 <= i <= ids.len(),
            first_with_boundary(before, models@, boundary_states@, message_name@, pis, i as int) is None,
        decreases ids.len() - i,
    {
        let cmd = TriggerBoundaryEventByEventRefCmd::new(EventSubscriptionKind::Message, message_name.clone(), ids[i].clone());
        assert(pis[i as int] == ids@[i as int]@);
        assert(boundary_catch_in(before, models@, boundary_states@, message_name@, pis[i as int]) == caught_by(
            before,
            models@,
            matching_boundaries(before, models@, boundary_states@, cmd.subscription_kind, cmd.event_ref@,
                cmd.process_instance_id@, boundary_states@.len() as int),
            cmd.subscription_kind,
            cmd.event_ref@,
            opt_view(cmd.source_execution_id),
        ));
        let (result, firing) = cmd.run(store, boundary_states, models);
        if result.triggered {
            proof {
                assert(first_with_boundary(before, models@, boundary_states@, message_name@, pis, i + 1) == Some(i as int));
                lemma_first_with_boundary_grows(before, models@, boundary_states@, message_name@, pis, i + 1, pis.len() as int);
                let st = boundary_catch_in(before, models@, boundary_states@, message_name@, ids@[i as int]@)->0;
                assert(boundary_fired(before, *store, st.host_execution_id@, st.boundary_event_id@, st.cancel_activity,
                    ids@[i as int]@, true, firing));
            }
            return Some(i);
        }
        i = i + 1;
    }
    None
}

/// The index of the first of the instances `ids` with event subprocesses
/// the message starts, which are activated.
fn start_first_subprocesses(
    store: &mut RuntimeStore,
    ids: &Vec<String>,
    subscriptions: &Vec<EventSubprocessEventSubscription>,
    models: &Vec<DeployedModel>,
    message_name: &String,
) -> (r: Option<usize>)
    requires
        old(store).wf(),
    ensures
        final(store).wf(),
        match r {
            Some(k) => {
                &&& k < ids@.len()
                &&& first_with_subprocess(*old(store), models@, subscriptions@, message_name@, string_views(ids@),
                    ids@.len() as int) == Some(k as int)
                &&& exists|acts: Seq<EventSubprocessActivation>, chain: Seq<RuntimeStore>| {
                    let sel = matching_subscriptions(*old(store), models@, subscriptions@, EventSubscriptionKind::Message,
                        message_name@, string_views(ids@)[k as int], subscriptions@.len() as int);
                    &&& #[trigger] chain.len() == sel.len() + 1
                    &&& #[trigger] acts.len() == sel.len()
                    &&& chain[0] == *old(store)
                    &&& chain[sel.len() as int] == *final(store)
                    &&& forall|i: int| 0 <= i < sel.len() ==> activation_done(#[trigger] chain[i], chain[i + 1], sel[i], acts[i])
                }
            },
            None => {
                &&& first_with_subprocess(*old(store), models@, subscriptions@, message_name@, string_views(ids@),
                    ids@.len() as int) is None
                &&& *final(store) == *old(store)
            },
        },
{
    let ghost before = *store;
    let ghost pis = string_views(ids@);
    let mut j: usize = 0;
    while j < ids.len()
        invariant
            store.wf(),
            *store == before,
            before == *old(store),
            pis == string_views(ids@),
            0 <= j <= ids.len(),
            first_with_subprocess(before, models@, subscriptions@, message_name@, pis, j as int) is None,
        decreases ids.len() - j,
    {
        let cmd = TriggerEventSubprocessByEventCmd::new(EventSubscriptionKind::Message, message_name.clone(), ids[j].clone());
        assert(pis[j as int] == ids@[j as int]@);
        let ghost sel = selected_subscriptions(before, models@, subscriptions@, cmd);
        assert(sel == matching_subscriptions(before, models@, subscriptions@, EventSubscriptionKind::Message, message_name@,
            pis[j as int], subscriptions@.len() as int));
        let (result, activations) = cmd.run(store, subscriptions, models);
        if result.triggered_ids.len() > 0 {
            proof {
                assert(string_views(result.triggered_ids@).len() == result.triggered_ids@.len());
                assert(first_with_subprocess(before, models@, subscriptions@, message_name@, pis, j + 1) == Some(j as int));
                lemma_first_with_subprocess_grows(before, models@, subscriptions@, message_name@, pis, j + 1, pis.len() as int);
                let c = choose|chain: Seq<RuntimeStore>| {
                    &&& chain.len() == sel.len() + 1
                    &&& chain[0] == before
                    &&& chain[sel.len() as int] == *store
                    &&& forall|i: int| 0 <= i < sel.len() ==> activation_done(#[trigger] chain[i], chain[i + 1], sel[i], activations@[i])
                };
                assert(c.len() == sel.len() + 1 && activations@.len() == sel.len());
                assert(ids@[j as int]@ == pis[j as int]);
                assert({
                    &&& c.len() == sel.len() + 1
                    &&& activations@.len() == sel.len()
                    &&& c[0] == before
                    &&& c[sel.len() as int] == *store
                    &&& forall|q: int| 0 <= q < sel.len() ==> activation_done(#[trigger] c[q], c[q + 1], sel[q], activations@[q])
                });
            }
            return Some(j);
        }
        proof {
            assert(string_views(result.triggered_ids@).len() == result.triggered_ids@.len());
            assert(sel.len() == 0);
        }
        j = j + 1;
    }
    None
}

impl CorrelateMessageCmd {
    /// When no execution waits for the message: tries the boundary events
    /// of the running instances the options allow (in store order), then
    /// their event subprocesses, and, failing both, starts a new instance
    /// through a message start event when the options ask for it.
    #[verifier::spinoff_prover]
    #[verifier::rlimit(40)]
    pub fn fallback(
        &self,
        ctx: &mut CommandContext,
        boundary_states: &Vec<RuntimeBoundaryEventState>,
        subscriptions: &Vec<EventSubprocessEventSubscription>,
        start_subscriptions: &Vec<ProcessEventStartSubscription>,
        models: &Vec<DeployedModel>,
    ) -> (r: Result<CorrelateMessageResult, FlowableError>)
        requires
            old(ctx).session.wf(),
        ensures
            final(ctx).session.wf(),
            ({
                let before = old(ctx).session;
                let after = final(ctx).session;
                let name = self.message_name@;
                let pis = fallback_ids(before.process_instances.rows@, self.options);
                match first_with_boundary(before, models@, boundary_states@, name, pis, pis.len() as int) {
                    Some(k) => {
                        let st = boundary_catch_in(before, models@, boundary_states@, name, pis[k])->0;
                        &&& r matches Ok(CorrelateMessageResult::MatchedExecution { execution_id, process_instance_id })
                            && execution_id@.len() == 0 && process_instance_id@ == pis[k]
                        &&& exists|f: Option<BoundaryFiring>| boundary_fired(before, after, st.host_execution_id@,
                            st.boundary_event_id@, st.cancel_activity, pis[k], true, f)
                    },
                    None => match first_with_subprocess(before, models@, subscriptions@, name, pis, pis.len() as int) {
                        Some(k) => {
                            &&& r matches Ok(CorrelateMessageResult::MatchedExecution { execution_id, process_instance_id })
                                && execution_id@.len() == 0 && process_instance_id@ == pis[k]
                            &&& exists|acts: Seq<EventSubprocessActivation>, chain: Seq<RuntimeStore>| {
                                let sel = matching_subscriptions(before, models@, subscriptions@, EventSubscriptionKind::Message,
                                    name, pis[k], subscriptions@.len() as int);
                                &&& #[trigger] chain.len() == sel.len() + 1
                                &&& #[trigger] acts.len() == sel.len()
                                &&& chain[0] == before
                                &&& chain[sel.len() as int] == after
                                &&& forall|i: int| 0 <= i < sel.len() ==> activation_done(#[trigger] chain[i], chain[i + 1], sel[i], acts[i])
                            }
                        },
                        None => if self.options.start_new_if_no_match {
                            let cmd = fallback_start(self.message_name, self.options);
                            match selected_start(start_subscriptions@, cmd) {
                                None => {
                                    &&& r matches Err(e) && e is NotFound && e->NotFound_0@ == no_start_subscription_message(cmd)
                                    &&& after == before
                                },
                                Some(i) => {
                                    let req = start_request(cmd, start_subscriptions@[i]);
                                    let at = Some(start_subscriptions@[i].start_event_id);
                                    match r {
                                        Ok(CorrelateMessageResult::StartedProcess(pi)) => start_outcome(before, after, req, at, None, Ok(pi)),
                                        Err(e) => start_outcome(before, after, req, at, None, Err(e)),
                                        _ => false,
                                    }
                                },
                            }
                        } else {
                            r matches Ok(CorrelateMessageResult::NoMatch) && after == before
                        },
                    },
                }
            }),
    {
        let ids = fallback_process_instances(&ctx.session, &self.options);
        let ghost before = ctx.session;
        assert(string_views(ids@) =~= fallback_ids(before.process_instances.rows@, self.options));
        if let Some(k) = fire_first_boundary(&mut ctx.session, &ids, boundary_states, models, &self.message_name) {
            assert(string_views(ids@)[k as int] == ids@[k as int]@);
            proof {
                let pis = fallback_ids(before.process_instances.rows@, self.options);
                let st = boundary_catch_in(before, models@, boundary_states@, self.message_name@, pis[k as int])->0;
                let f = choose|f: Option<BoundaryFiring>| boundary_fired(before, ctx.session, st.host_execution_id@,
                    st.boundary_event_id@, st.cancel_activity, pis[k as int], true, f);
                assert(boundary_fired(before, ctx.session, st.host_execution_id@, st.boundary_event_id@, st.cancel_activity,
                    pis[k as int], true, f));
                assert(first_with_boundary(before, models@, boundary_states@, self.message_name@, pis, pis.len() as int) == Some(k as int));
            }
            return Ok(CorrelateMessageResult::MatchedExecution { execution_id: String::new(), process_instance_id: ids[k].clone() });
        }
        if let Some(k) = start_first_subprocesses(&mut ctx.session, &ids, subscriptions, models, &self.message_name) {
            assert(string_views(ids@)[k as int] == ids@[k as int]@);
            proof {
                let sel = matching_subscriptions(before, models@, subscriptions@, EventSubscriptionKind::Message,
                    self.message_name@, string_views(ids@)[k as int], subscriptions@.len() as int);
                let (acts, chain) = choose|acts: Seq<EventSubprocessActivation>, chain: Seq<RuntimeStore>| {
                    &&& chain.len() == sel.len() + 1
                    &&& acts.len() == sel.len()
                    &&& chain[0] == before
                    &&& chain[sel.len() as int] == ctx.session
                    &&& forall|i: int| 0 <= i < sel.len() ==> activation_done(#[trigger] chain[i], chain[i + 1], sel[i], acts[i])
                };
                assert(chain.len() == sel.len() + 1);
                assert(acts.len() == sel.len());
                let pis = fallback_ids(before.process_instances.rows@, self.options);
                assert(first_with_subprocess(before, models@, subscriptions@, self.message_name@, pis, pis.len() as int) == Some(k as int));
                assert(first_with_boundary(before, models@, boundary_states@, self.message_name@, pis, pis.len() as int) is None);
                assert(before == old(ctx).session);
                assert(exists|acts: Seq<EventSubprocessActivation>, chain: Seq<RuntimeStore>| {
                    let sel = matching_subscriptions(before, models@, subscriptions@, EventSubscriptionKind::Message,
                        self.message_name@, pis[k as int], subscriptions@.len() as int);
                    &&& #[trigger] chain.len() == sel.len() + 1
                    &&& #[trigger] acts.len() == sel.len()
                    &&& chain[0] == before
                    &&& chain[sel.len() as int] == ctx.session
                    &&& forall|i: int| 0 <= i < sel.len() ==> activation_done(#[trigger] chain[i], chain[i + 1], sel[i], acts[i])
                });
            }
            return Ok(CorrelateMessageResult::MatchedExecution { execution_id: String::new(), process_instance_id: ids[k].clone() });
        }
        if !self.options.start_new_if_no_match {
            return Ok(CorrelateMessageResult::NoMatch);
        }
        let mut start = TriggerProcessStartByEventCmd::new(EventSubscriptionKind::Message, self.message_name.clone());
        if let Some(t) = &self.options.tenant_id {
            start = start.with_tenant_id(t.clone());
        }
        if let Some(bk) = &self.options.business_key {
            start = start.with_business_key(bk.clone());
        }
        match start.run(ctx, start_subscriptions) {
            Ok(pi) => Ok(CorrelateMessageResult::StartedProcess(pi)),
            Err(e) => Err(e),
        }
    }
}
/// With a business key, a wait state takes the message only in a stored
/// process instance whose business key is exactly that key: an instance
/// without a business key, or with another one, never matches.
pub proof fn business_key_filter_is_exact(
    store: RuntimeStore,
    ws: RuntimeEventWaitState,
    message_name: Seq<char>,
    process_instance_id: Option<Seq<char>>,
    business_key: Seq<char>,
    tenant_id: Option<Seq<char>>,
)
    ensures
        eligible_wait(store, ws, message_name, process_instance_id, Some(business_key), tenant_id) ==> {
            &&& store.process_instances@.contains_key(ws.process_instance_id@)
            &&& store.process_instances@[ws.process_instance_id@].business_key matches Some(b)
            &&& b@ == business_key
        },
        forall|pi: ProcessInstance| #[trigger] instance_passes(pi, Some(business_key), None)
            <==> (pi.business_key matches Some(b) && b@ == business_key),
{
}

} // verus!
