//! Commands that deliver an event to a waiting element: boundary events,
//! intermediate catch events and event subprocesses, and the checks they
//! make on the waiting execution.
use vstd::prelude::*;
use crate::boundary::{opt_model, signals_match_in_model, signal_refs_match_in_model,
    EventRefModel, RuntimeBoundaryEventState, escalation_refs_match, error_refs_match,
    signal_refs_match_for_boundary, escalation_code_of, error_code_of, refs_match_spec};
use crate::entities::{opt_view, Duplicate, Execution};
use crate::error::FlowableError;
use crate::events::{EventSubscription, EventSubscriptionKind, RuntimeEventWaitKind, RuntimeEventWaitState};
use crate::ordering::str_eq;
use crate::store::RuntimeStore;

verus! {

/// Fails with an execution error when the execution is suspended.
pub fn require_active_execution(execution: &Execution) -> (r: Result<(), FlowableError>)
    ensures
        r is Ok <==> !execution.is_suspended,
        r matches Err(e) ==> e is ExecutionError && e->ExecutionError_0@
            == "Cannot trigger a suspended execution '"@ + execution.id@ + "'"@,
{
    if execution.is_suspended {
        return Err(FlowableError::ExecutionError(crate::text::cat3(
            "Cannot trigger a suspended execution '",
            execution.id.as_str(),
            "'",
        )));
    }
    Ok(())
}

/// Which subscription kind an element waiting in `wait` accepts.
pub open spec fn wait_accepts(wait: RuntimeEventWaitKind, kind: EventSubscriptionKind) -> bool {
    match wait {
        RuntimeEventWaitKind::MessageIntermediateCatchEvent => kind == EventSubscriptionKind::Message,
        RuntimeEventWaitKind::SignalIntermediateCatchEvent => kind == EventSubscriptionKind::Signal,
        RuntimeEventWaitKind::ConditionalIntermediateCatchEvent => kind == EventSubscriptionKind::Conditional,
        RuntimeEventWaitKind::ErrorIntermediateCatchEvent => kind == EventSubscriptionKind::Error,
        RuntimeEventWaitKind::CancelIntermediateCatchEvent => kind == EventSubscriptionKind::Cancel,
        RuntimeEventWaitKind::CompensateIntermediateCatchEvent => kind == EventSubscriptionKind::Compensate,
        RuntimeEventWaitKind::EscalationIntermediateCatchEvent => kind == EventSubscriptionKind::Escalation,
        RuntimeEventWaitKind::EventRegistryIntermediateCatchEvent => kind == EventSubscriptionKind::EventRegistry,
        RuntimeEventWaitKind::ReceiveTask => kind == EventSubscriptionKind::EventRegistry,
        RuntimeEventWaitKind::SendEventTask => false,
    }
}

pub fn wait_kind_accepts(wait: RuntimeEventWaitKind, kind: EventSubscriptionKind) -> (r: bool)
    ensures
        r == wait_accepts(wait, kind),
{
    match wait {
        RuntimeEventWaitKind::MessageIntermediateCatchEvent => kind == EventSubscriptionKind::Message,
        RuntimeEventWaitKind::SignalIntermediateCatchEvent => kind == EventSubscriptionKind::Signal,
        RuntimeEventWaitKind::ConditionalIntermediateCatchEvent => kind == EventSubscriptionKind::Conditional,
        RuntimeEventWaitKind::ErrorIntermediateCatchEvent => kind == EventSubscriptionKind::Error,
        RuntimeEventWaitKind::CancelIntermediateCatchEvent => kind == EventSubscriptionKind::Cancel,
        RuntimeEventWaitKind::CompensateIntermediateCatchEvent => kind == EventSubscriptionKind::Compensate,
        RuntimeEventWaitKind::EscalationIntermediateCatchEvent => kind == EventSubscriptionKind::Escalation,
        RuntimeEventWaitKind::EventRegistryIntermediateCatchEvent => kind == EventSubscriptionKind::EventRegistry,
        RuntimeEventWaitKind::ReceiveTask => kind == EventSubscriptionKind::EventRegistry,
        RuntimeEventWaitKind::SendEventTask => false,
    }
}

pub open spec fn event_ref_matches_spec(
    sub: EventSubscription,
    kind: EventSubscriptionKind,
    trigger_ref: Seq<char>,
    model: Option<EventRefModel>,
) -> bool {
    sub.event_ref@ == trigger_ref || (kind == EventSubscriptionKind::Signal && signals_match_in_model(
        model,
        sub.event_ref@,
        trigger_ref,
    ))
}

/// Whether a subscription's reference names the trigger: equal, or for
/// signals, naming the same declared signal.
pub fn event_ref_matches(
    subscription: &EventSubscription,
    expected_kind: EventSubscriptionKind,
    trigger_ref: &str,
    model: Option<&EventRefModel>,
) -> (r: bool)
    ensures
        r == event_ref_matches_spec(*subscription, expected_kind, trigger_ref@, opt_model(model)),
{
    if str_eq(subscription.event_ref.as_str(), trigger_ref) {
        return true;
    }
    expected_kind == EventSubscriptionKind::Signal && signal_refs_match_in_model(
        model,
        subscription.event_ref.as_str(),
        trigger_ref,
    )
}

/// The execution an event goes to when `wait_state` is where it waits: the
/// element must accept the kind, be subscribed to the reference, and the
/// stored execution must be waiting (not active).
pub open spec fn waiting_catch_spec(
    store: RuntimeStore,
    wait_state: Option<RuntimeEventWaitState>,
    execution_id: Seq<char>,
    kind: EventSubscriptionKind,
    event_ref: Seq<char>,
    model: Option<EventRefModel>,
) -> Option<Execution> {
    match wait_state {
        Some(ws) => if wait_accepts(ws.wait_kind, kind) && (ws.event_subscription matches Some(sub)
            && sub.kind == kind && event_ref_matches_spec(sub, kind, event_ref, model))
            && store.executions@.contains_key(execution_id) && !store.executions@[execution_id].is_active {
            Some(store.executions@[execution_id])
        } else {
            None
        },
        None => None,
    }
}

pub open spec fn opt_wait(o: Option<&RuntimeEventWaitState>) -> Option<RuntimeEventWaitState> {
    match o {
        Some(w) => Some(*w),
        None => None,
    }
}

pub fn find_waiting_event_intermediate_catch_execution(
    store: &RuntimeStore,
    wait_state: Option<&RuntimeEventWaitState>,
    execution_id: &String,
    expected_kind: EventSubscriptionKind,
    event_ref: &str,
    model: Option<&EventRefModel>,
) -> (r: Option<Execution>)
    requires
        store.wf(),
    ensures
        r == waiting_catch_spec(*store, opt_wait(wait_state), execution_id@, expected_kind, event_ref@, opt_model(model)),
{
    let ws = match wait_state {
        Some(ws) => ws,
        None => return None,
    };
    if !wait_kind_accepts(ws.wait_kind, expected_kind) {
        return None;
    }
    let ref_ok = match &ws.event_subscription {
        Some(sub) => sub.kind == expected_kind && event_ref_matches(sub, expected_kind, event_ref, model),
        None => false,
    };
    if !ref_ok {
        return None;
    }
    let execution = match store.find_execution(execution_id) {
        Some(e) => e,
        None => return None,
    };
    if execution.is_active {
        return None;
    }
    Some(execution)
}

/// Whether `scope` is the execution itself or one of its first 256
/// ancestors (walking parent links through `m`).
pub open spec fn within_scope(m: Map<Seq<char>, Execution>, parent: Option<Seq<char>>, scope: Seq<char>, fuel: nat) -> bool
    decreases fuel,
{
    if fuel == 0 {
        false
    } else {
        match parent {
            None => false,
            Some(p) => p == scope || within_scope(
                m,
                if m.contains_key(p) { opt_view(m[p].parent_id) } else { None },
                scope,
                (fuel - 1) as nat,
            ),
        }
    }
}

/// Whether `execution` lies in the scope execution `scope_execution_id`.
pub fn execution_is_descendant_of_scope(store: &RuntimeStore, execution: &Execution, scope_execution_id: &String) -> (r: bool)
    requires
        store.wf(),
    ensures
        r == (execution.id@ == scope_execution_id@ || within_scope(store.executions@, opt_view(execution.parent_id),
            scope_execution_id@, 256)),
{
    if execution.id.eq(scope_execution_id) {
        return true;
    }
    let mut parent: Option<String> = crate::entities::clone_opt(&execution.parent_id);
    let mut k: usize = 0;
    while k < 256
        invariant
            store.wf(),
            0 <= k <= 256,
            execution.id@ != scope_execution_id@,
            within_scope(store.executions@, opt_view(execution.parent_id), scope_execution_id@, 256)
                == within_scope(store.executions@, opt_view(parent), scope_execution_id@, (256 - k) as nat),
        decreases 256 - k,
    {
        let current = match &parent {
            Some(p) => p.clone(),
            None => return false,
        };
        if current.eq(scope_execution_id) {
            return true;
        }
        parent = match store.find_execution(&current) {
            Some(e) => crate::entities::clone_opt(&e.parent_id),
            None => None,
        };
        k = k + 1;
    }
    false
}

/// Triggers a boundary event by its id.
#[derive(Debug)]
pub struct TriggerBoundaryEventCmd {
    pub boundary_event_id: String,
    pub process_instance_id: String,
}

impl TriggerBoundaryEventCmd {
    pub fn new(boundary_event_id: String, process_instance_id: String) -> (r: Self)
        ensures
            r.boundary_event_id == boundary_event_id,
            r.process_instance_id == process_instance_id,
    {
        TriggerBoundaryEventCmd { boundary_event_id, process_instance_id }
    }
}

/// Triggers the boundary event subscribed to an event of a kind and reference.
#[derive(Debug)]
pub struct TriggerBoundaryEventByEventRefCmd {
    pub subscription_kind: EventSubscriptionKind,
    pub event_ref: String,
    pub process_instance_id: String,
    /// The execution that threw the event, whose nearest boundary catches it.
    pub source_execution_id: Option<String>,
}

/// Whether a boundary event was triggered, and whether it interrupted.
#[derive(Debug, Clone, Copy, PartialEq, Eq, Structural)]
pub struct BoundaryEventTriggerResult {
    pub triggered: bool,
    pub interrupting: bool,
}

pub open spec fn boundary_matches_spec(
    kind: EventSubscriptionKind,
    event_ref: Seq<char>,
    state: RuntimeBoundaryEventState,
    model: Option<EventRefModel>,
) -> bool {
    let b = state.event_subscription.event_ref@;
    state.event_subscription.kind == kind && if kind == EventSubscriptionKind::Escalation {
        refs_match_spec(b, event_ref, escalation_code_of(model, b), escalation_code_of(model, event_ref), true)
    } else if kind == EventSubscriptionKind::Error {
        refs_match_spec(b, event_ref, error_code_of(model, b), error_code_of(model, event_ref), true)
    } else if kind == EventSubscriptionKind::Signal {
        b == event_ref || signals_match_in_model(model, b, event_ref)
    } else {
        b == event_ref
    }
}

impl TriggerBoundaryEventByEventRefCmd {
    pub fn new(subscription_kind: EventSubscriptionKind, event_ref: String, process_instance_id: String) -> (r: Self)
        ensures
            r == (TriggerBoundaryEventByEventRefCmd { subscription_kind, event_ref, process_instance_id, source_execution_id: None }),
    {
        TriggerBoundaryEventByEventRefCmd { subscription_kind, event_ref, process_instance_id, source_execution_id: None }
    }

    pub fn with_source_execution(
        subscription_kind: EventSubscriptionKind,
        event_ref: String,
        process_instance_id: String,
        source_execution_id: String,
    ) -> (r: Self)
        ensures
            r == (TriggerBoundaryEventByEventRefCmd {
                subscription_kind,
                event_ref,
                process_instance_id,
                source_execution_id: Some(source_execution_id),
            }),
    {
        TriggerBoundaryEventByEventRefCmd {
            subscription_kind,
            event_ref,
            process_instance_id,
            source_execution_id: Some(source_execution_id),
        }
    }

    /// Whether `state` is subscribed to this command's event; `model` holds
    /// the declarations of the process it belongs to.
    pub fn matches_state(&self, state: &RuntimeBoundaryEventState, model: Option<&EventRefModel>) -> (r: bool)
        ensures
            r == boundary_matches_spec(self.subscription_kind, self.event_ref@, *state, opt_model(model)),
    {
        if state.event_subscription.kind != self.subscription_kind {
            return false;
        }
        match self.subscription_kind {
            EventSubscriptionKind::Escalation => escalation_refs_match(model, state, self.event_ref.as_str()),
            EventSubscriptionKind::Error => error_refs_match(model, state, self.event_ref.as_str()),
            EventSubscriptionKind::Signal => signal_refs_match_for_boundary(model, state, self.event_ref.as_str()),
            _ => str_eq(state.event_subscription.event_ref.as_str(), self.event_ref.as_str()),
        }
    }

    /// The label of the subscription kind in reports.
    pub fn kind_label(&self) -> (r: &'static str)
        ensures
            r@ == kind_label_spec(self.subscription_kind),
    {
        subscription_kind_label(self.subscription_kind)
    }
}

/// The label of a subscription kind in reports and trigger ids.
pub fn subscription_kind_label(kind: EventSubscriptionKind) -> (r: &'static str)
    ensures
        r@ == kind_label_spec(kind),
{
    match kind {
        EventSubscriptionKind::Message => "message",
        EventSubscriptionKind::Signal => "signal",
        EventSubscriptionKind::Conditional => "conditional",
        EventSubscriptionKind::Error => "error",
        EventSubscriptionKind::Cancel => "cancel",
        EventSubscriptionKind::Compensate => "compensate",
        EventSubscriptionKind::Escalation => "escalation",
        EventSubscriptionKind::EventRegistry => "event-registry",
    }
}

pub open spec fn kind_label_spec(k: EventSubscriptionKind) -> Seq<char> {
    match k {
        EventSubscriptionKind::Message => "message"@,
        EventSubscriptionKind::Signal => "signal"@,
        EventSubscriptionKind::Conditional => "conditional"@,
        EventSubscriptionKind::Error => "error"@,
        EventSubscriptionKind::Cancel => "cancel"@,
        EventSubscriptionKind::Compensate => "compensate"@,
        EventSubscriptionKind::Escalation => "escalation"@,
        EventSubscriptionKind::EventRegistry => "event-registry"@,
    }
}

/// Triggers a message boundary event by its message reference.
#[derive(Debug)]
pub struct TriggerBoundaryEventByMessageRefCmd {
    pub inner: TriggerBoundaryEventByEventRefCmd,
}

impl TriggerBoundaryEventByMessageRefCmd {
    pub fn new(message_ref: String, process_instance_id: String) -> (r: Self)
        ensures
            r.inner == (TriggerBoundaryEventByEventRefCmd {
                subscription_kind: EventSubscriptionKind::Message,
                event_ref: message_ref,
                process_instance_id,
                source_execution_id: None,
            }),
    {
        TriggerBoundaryEventByMessageRefCmd {
            inner: TriggerBoundaryEventByEventRefCmd::new(EventSubscriptionKind::Message, message_ref, process_instance_id),
        }
    }
}

/// Triggers a signal boundary event by its signal reference.
#[derive(Debug)]
pub struct TriggerBoundaryEventBySignalRefCmd {
    pub inner: TriggerBoundaryEventByEventRefCmd,
}

impl TriggerBoundaryEventBySignalRefCmd {
    pub fn new(signal_ref: String, process_instance_id: String) -> (r: Self)
        ensures
            r.inner == (TriggerBoundaryEventByEventRefCmd {
                subscription_kind: EventSubscriptionKind::Signal,
                event_ref: signal_ref,
                process_instance_id,
                source_execution_id: None,
            }),
    {
        TriggerBoundaryEventBySignalRefCmd {
            inner: TriggerBoundaryEventByEventRefCmd::new(EventSubscriptionKind::Signal, signal_ref, process_instance_id),
        }
    }
}

/// Fires a timer boundary event.
#[derive(Debug)]
pub struct TriggerTimerBoundaryEventCmd {
    pub boundary_event_id: String,
    pub process_instance_id: String,
}

impl TriggerTimerBoundaryEventCmd {
    pub fn new(boundary_event_id: String, process_instance_id: String) -> (r: Self)
        ensures
            r.boundary_event_id == boundary_event_id,
            r.process_instance_id == process_instance_id,
    {
        TriggerTimerBoundaryEventCmd { boundary_event_id, process_instance_id }
    }
}

/// Triggers the none intermediate catch event an instance waits in.
#[derive(Debug)]
pub struct TriggerIntermediateCatchEventCmd {
    pub process_instance_id: String,
}

impl TriggerIntermediateCatchEventCmd {
    pub fn new(process_instance_id: String) -> (r: Self)
        ensures
            r.process_instance_id == process_instance_id,
    {
        TriggerIntermediateCatchEventCmd { process_instance_id }
    }
}

/// Delivers an event of a kind and reference to the execution waiting in an
/// intermediate catch event.
#[derive(Debug)]
pub struct TriggerEventIntermediateCatchCmd {
    pub kind: EventSubscriptionKind,
    pub event_ref: String,
    pub execution_id: String,
    pub check_suspension: bool,
}

impl TriggerEventIntermediateCatchCmd {
    pub fn new(kind: EventSubscriptionKind, event_ref: String, execution_id: String) -> (r: Self)
        ensures
            r == (TriggerEventIntermediateCatchCmd { kind, event_ref, execution_id, check_suspension: true }),
    {
        TriggerEventIntermediateCatchCmd { kind, event_ref, execution_id, check_suspension: true }
    }

    /// The same delivery without refusing suspended executions.
    pub fn without_suspension_check(self) -> (r: Self)
        ensures
            r == (TriggerEventIntermediateCatchCmd { check_suspension: false, ..self }),
    {
        TriggerEventIntermediateCatchCmd { check_suspension: false, ..self }
    }
}

/// Fires the timer an intermediate catch event waits for.
#[derive(Debug)]
pub struct TriggerTimerIntermediateCatchEventCmd {
    pub execution_id: String,
}

impl TriggerTimerIntermediateCatchEventCmd {
    pub fn new(execution_id: String) -> (r: Self)
        ensures
            r.execution_id == execution_id,
    {
        TriggerTimerIntermediateCatchEventCmd { execution_id }
    }
}

/// Activates the event subprocesses of an instance subscribed to an event.
#[derive(Debug)]
pub struct TriggerEventSubprocessByEventCmd {
    pub event_kind: EventSubscriptionKind,
    pub event_ref: String,
    pub process_instance_id: String,
    pub source_execution_id: Option<String>,
}

impl TriggerEventSubprocessByEventCmd {
    pub fn new(event_kind: EventSubscriptionKind, event_ref: String, process_instance_id: String) -> (r: Self)
        ensures
            r == (TriggerEventSubprocessByEventCmd { event_kind, event_ref, process_instance_id, source_execution_id: None }),
    {
        TriggerEventSubprocessByEventCmd { event_kind, event_ref, process_instance_id, source_execution_id: None }
    }

    pub fn with_source_execution(
        event_kind: EventSubscriptionKind,
        event_ref: String,
        process_instance_id: String,
        source_execution_id: String,
    ) -> (r: Self)
        ensures
            r == (TriggerEventSubprocessByEventCmd {
                event_kind,
                event_ref,
                process_instance_id,
                source_execution_id: Some(source_execution_id),
            }),
    {
        TriggerEventSubprocessByEventCmd {
            event_kind,
            event_ref,
            process_instance_id,
            source_execution_id: Some(source_execution_id),
        }
    }
}

/// Starts a process instance through a message or signal start event.
#[derive(Debug)]
pub struct TriggerProcessStartByEventCmd {
    pub event_kind: EventSubscriptionKind,
    pub event_ref: String,
    pub tenant_id: Option<String>,
    pub process_definition_id: Option<String>,
    pub business_key: Option<String>,
    pub start_user_id: Option<String>,
}

impl TriggerProcessStartByEventCmd {
    pub fn new(event_kind: EventSubscriptionKind, event_ref: String) -> (r: Self)
        ensures
            r == (TriggerProcessStartByEventCmd {
                event_kind,
                event_ref,
                tenant_id: None,
                process_definition_id: None,
                business_key: None,
                start_user_id: None,
            }),
    {
        TriggerProcessStartByEventCmd {
            event_kind,
            event_ref,
            tenant_id: None,
            process_definition_id: None,
            business_key: None,
            start_user_id: None,
        }
    }

    pub fn with_tenant_id(self, tenant_id: String) -> (r: Self)
        ensures
            r == (TriggerProcessStartByEventCmd { tenant_id: Some(tenant_id), ..self }),
    {
        TriggerProcessStartByEventCmd { tenant_id: Some(tenant_id), ..self }
    }

    pub fn with_process_definition_id(self, process_definition_id: String) -> (r: Self)
        ensures
            r == (TriggerProcessStartByEventCmd { process_definition_id: Some(process_definition_id), ..self }),
    {
        TriggerProcessStartByEventCmd { process_definition_id: Some(process_definition_id), ..self }
    }

    pub fn with_business_key(self, business_key: String) -> (r: Self)
        ensures
            r == (TriggerProcessStartByEventCmd { business_key: Some(business_key), ..self }),
    {
        TriggerProcessStartByEventCmd { business_key: Some(business_key), ..self }
    }

    pub fn with_start_user_id(self, start_user_id: String) -> (r: Self)
        ensures
            r == (TriggerProcessStartByEventCmd { start_user_id: Some(start_user_id), ..self }),
    {
        TriggerProcessStartByEventCmd { start_user_id: Some(start_user_id), ..self }
    }
}

} // verus!
