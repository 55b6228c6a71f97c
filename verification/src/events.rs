//! Event subscriptions and the wait states of executions that wait for an
//! event.
use vstd::prelude::*;

verus! {

/// The kind of event a subscription waits for.
#[derive(Clone, Copy, Debug, PartialEq, Eq, Structural)]
pub enum EventSubscriptionKind {
    Message,
    Signal,
    Error,
    Escalation,
    Conditional,
    Compensate,
    Cancel,
    EventRegistry,
}

/// A subscription of a waiting execution to an event.
#[derive(Debug)]
pub struct EventSubscription {
    pub kind: EventSubscriptionKind,
    pub event_ref: String,
}

/// The kind of element an execution waits in.
#[derive(Clone, Copy, Debug, PartialEq, Eq, Structural)]
pub enum RuntimeEventWaitKind {
    MessageIntermediateCatchEvent,
    SignalIntermediateCatchEvent,
    ErrorIntermediateCatchEvent,
    EscalationIntermediateCatchEvent,
    ConditionalIntermediateCatchEvent,
    CompensateIntermediateCatchEvent,
    CancelIntermediateCatchEvent,
    EventRegistryIntermediateCatchEvent,
    ReceiveTask,
    SendEventTask,
}

/// An execution waiting for an event.
#[derive(Debug)]
pub struct RuntimeEventWaitState {
    pub execution_id: String,
    pub process_instance_id: String,
    pub activity_id: String,
    pub wait_kind: RuntimeEventWaitKind,
    pub event_subscription: Option<EventSubscription>,
    pub task_id: Option<String>,
}

} // verus!
