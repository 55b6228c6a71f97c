//! Which behavior executes each kind of process element.
use vstd::prelude::*;
use crate::command::CommandContext;
use crate::entities::Execution;
use crate::error::FlowableError;

verus! {

/// The behavior of an activity when an execution arrives in it.
pub trait ActivityBehavior {
    fn execute(&self, execution: &mut Execution, ctx: &mut CommandContext) -> (r: Result<(), FlowableError>)
        requires
            old(ctx).session.wf(),
        ensures
            final(ctx).session.wf(),
    ;
}

/// The kinds of event definition an event can carry.
#[derive(Clone, Copy, Debug, PartialEq, Eq, Structural)]
pub enum EventDefinitionKind {
    Message,
    Signal,
    Timer,
    Conditional,
    Error,
    Cancel,
    Compensate,
    Escalation,
    Link,
    VariableListener,
    Terminate,
}

/// The kinds of element a process model holds.
#[derive(Clone, Copy, Debug, PartialEq, Eq, Structural)]
pub enum FlowElementKind {
    SequenceFlow,
    Task,
    UserTask,
    ServiceTask,
    CaseServiceTask,
    SendTask,
    ScriptTask,
    ManualTask,
    ReceiveTask,
    BusinessRuleTask,
    StartEvent,
    EndEvent,
    ExclusiveGateway,
    ParallelGateway,
    InclusiveGateway,
    EventBasedGateway,
    IntermediateCatchEvent,
    IntermediateThrowEvent,
    SubProcess,
    Transaction,
    EventSubProcess,
    AdhocSubProcess,
    CallActivity,
    ValuedDataObject,
    BoundaryEvent,
}

/// What behavior selection reads of an element.
#[derive(Debug)]
pub struct FlowElementShape {
    pub kind: FlowElementKind,
    pub event_definitions: Vec<EventDefinitionKind>,
    /// Whether the element names an event registry event type.
    pub has_event_type: bool,
    /// Whether the element has multi-instance loop characteristics.
    pub multi_instance: bool,
}

/// The behaviors the engine has.
#[derive(Clone, Copy, Debug, PartialEq, Eq, Structural)]
pub enum BehaviorKind {
    StartEvent,
    VariableListenerEvent,
    EndEvent,
    CancelEndEvent,
    ExclusiveGateway,
    InclusiveGateway,
    ParallelGateway,
    EventBasedGateway,
    UserTask,
    ReceiveTask,
    BusinessRuleTask,
    IntermediateCatchEvent,
    IntermediateThrowEvent,
    ServiceTask,
    CaseTask,
    SendTask,
    ScriptTask,
    ManualTask,
    Task,
    SubProcess,
    EventSubprocess,
    Transaction,
    AdhocSubProcess,
    BoundaryEvent,
    CallActivity,
    /// An element no behavior executes; it fails when reached.
    Unsupported(FlowElementKind),
}

/// A behavior, wrapped in multi-instance handling when the element loops
/// (with whether the inner element is a sub process, recreated each round).
#[derive(Debug, PartialEq, Eq, Structural)]
pub struct ResolvedBehavior {
    pub behavior: BehaviorKind,
    pub multi_instance: Option<bool>,
}

pub open spec fn single_definition_in(defs: Seq<EventDefinitionKind>, allowed: Seq<EventDefinitionKind>) -> bool {
    defs.len() == 1 && allowed.contains(defs[0])
}

fn single_of(defs: &Vec<EventDefinitionKind>, a: EventDefinitionKind, b: EventDefinitionKind, c: EventDefinitionKind,
    d: EventDefinitionKind, e: EventDefinitionKind) -> (r: bool)
    ensures
        r == single_definition_in(defs@, seq![a, b, c, d, e]),
{
    if defs.len() != 1 {
        return false;
    }
    let x = defs[0];
    let r = x == a || x == b || x == c || x == d || x == e;
    proof {
        let allowed = seq![a, b, c, d, e];
        if r {
            if x == a { assert(allowed[0] == x); }
            else if x == b { assert(allowed[1] == x); }
            else if x == c { assert(allowed[2] == x); }
            else if x == d { assert(allowed[3] == x); }
            else { assert(allowed[4] == x); }
        } else {
            assert forall|i: int| 0 <= i < 5 implies allowed[i] != x by {}
        }
    }
    r
}

/// A catch event that waits: no definition, or one message, signal, timer,
/// conditional or link definition.
pub open spec fn wait_state_catch(defs: Seq<EventDefinitionKind>) -> bool {
    defs.len() == 0 || single_definition_in(defs, seq![EventDefinitionKind::Message, EventDefinitionKind::Signal,
        EventDefinitionKind::Timer, EventDefinitionKind::Conditional, EventDefinitionKind::Link])
}

/// A throw event the engine runs: no definition, or one link, message,
/// signal, compensate or escalation definition.
pub open spec fn supported_throw(defs: Seq<EventDefinitionKind>) -> bool {
    defs.len() == 0 || single_definition_in(defs, seq![EventDefinitionKind::Link, EventDefinitionKind::Message,
        EventDefinitionKind::Signal, EventDefinitionKind::Compensate, EventDefinitionKind::Escalation])
}

/// A boundary event the engine runs: without definitions only when it names
/// an event type; else one message, signal, timer, conditional, error,
/// cancel, compensate or escalation definition.
pub open spec fn supported_boundary(defs: Seq<EventDefinitionKind>, has_event_type: bool) -> bool {
    if defs.len() == 0 {
        has_event_type
    } else {
        single_definition_in(defs, seq![EventDefinitionKind::Message, EventDefinitionKind::Signal,
            EventDefinitionKind::Timer, EventDefinitionKind::Conditional, EventDefinitionKind::Error])
        || single_definition_in(defs, seq![EventDefinitionKind::Cancel, EventDefinitionKind::Compensate,
            EventDefinitionKind::Escalation, EventDefinitionKind::Escalation, EventDefinitionKind::Escalation])
    }
}

pub fn is_wait_state_intermediate_catch_event(element: &FlowElementShape) -> (r: bool)
    ensures
        r == (element.kind == FlowElementKind::IntermediateCatchEvent && wait_state_catch(element.event_definitions@)),
{
    element.kind == FlowElementKind::IntermediateCatchEvent && (element.event_definitions.len() == 0 || single_of(
        &element.event_definitions,
        EventDefinitionKind::Message,
        EventDefinitionKind::Signal,
        EventDefinitionKind::Timer,
        EventDefinitionKind::Conditional,
        EventDefinitionKind::Link,
    ))
}

pub fn is_supported_intermediate_throw_event(element: &FlowElementShape) -> (r: bool)
    ensures
        r == (element.kind == FlowElementKind::IntermediateThrowEvent && supported_throw(element.event_definitions@)),
{
    element.kind == FlowElementKind::IntermediateThrowEvent && (element.event_definitions.len() == 0 || single_of(
        &element.event_definitions,
        EventDefinitionKind::Link,
        EventDefinitionKind::Message,
        EventDefinitionKind::Signal,
        EventDefinitionKind::Compensate,
        EventDefinitionKind::Escalation,
    ))
}

pub fn is_supported_boundary_event(element: &FlowElementShape) -> (r: bool)
    ensures
        r == supported_boundary(element.event_definitions@, element.has_event_type),
{
    if element.event_definitions.len() == 0 {
        return element.has_event_type;
    }
    single_of(
        &element.event_definitions,
        EventDefinitionKind::Message,
        EventDefinitionKind::Signal,
        EventDefinitionKind::Timer,
        EventDefinitionKind::Conditional,
        EventDefinitionKind::Error,
    ) || single_of(
        &element.event_definitions,
        EventDefinitionKind::Cancel,
        EventDefinitionKind::Compensate,
        EventDefinitionKind::Escalation,
        EventDefinitionKind::Escalation,
        EventDefinitionKind::Escalation,
    )
}

/// The behavior an element gets (before multi-instance wrapping).
pub open spec fn behavior_spec(e: FlowElementShape) -> BehaviorKind {
    let defs = e.event_definitions@;
    match e.kind {
        FlowElementKind::StartEvent => if defs.contains(EventDefinitionKind::VariableListener) {
            BehaviorKind::VariableListenerEvent
        } else {
            BehaviorKind::StartEvent
        },
        FlowElementKind::EndEvent => if defs.len() > 0 && defs[0] == EventDefinitionKind::Cancel {
            BehaviorKind::CancelEndEvent
        } else {
            BehaviorKind::EndEvent
        },
        FlowElementKind::ExclusiveGateway => BehaviorKind::ExclusiveGateway,
        FlowElementKind::InclusiveGateway => BehaviorKind::InclusiveGateway,
        FlowElementKind::ParallelGateway => BehaviorKind::ParallelGateway,
        FlowElementKind::EventBasedGateway => BehaviorKind::EventBasedGateway,
        FlowElementKind::UserTask => BehaviorKind::UserTask,
        FlowElementKind::ReceiveTask => BehaviorKind::ReceiveTask,
        FlowElementKind::BusinessRuleTask => BehaviorKind::BusinessRuleTask,
        FlowElementKind::IntermediateCatchEvent => if wait_state_catch(defs) {
            BehaviorKind::IntermediateCatchEvent
        } else {
            BehaviorKind::Unsupported(FlowElementKind::IntermediateCatchEvent)
        },
        FlowElementKind::IntermediateThrowEvent => if supported_throw(defs) {
            BehaviorKind::IntermediateThrowEvent
        } else {
            BehaviorKind::Unsupported(FlowElementKind::IntermediateThrowEvent)
        },
        FlowElementKind::ServiceTask => BehaviorKind::ServiceTask,
        FlowElementKind::CaseServiceTask => BehaviorKind::CaseTask,
        FlowElementKind::SendTask => BehaviorKind::SendTask,
        FlowElementKind::ScriptTask => BehaviorKind::ScriptTask,
        FlowElementKind::ManualTask => BehaviorKind::ManualTask,
        FlowElementKind::Task => BehaviorKind::Task,
        FlowElementKind::SubProcess => BehaviorKind::SubProcess,
        FlowElementKind::EventSubProcess => BehaviorKind::EventSubprocess,
        FlowElementKind::Transaction => BehaviorKind::Transaction,
        FlowElementKind::AdhocSubProcess => BehaviorKind::AdhocSubProcess,
        FlowElementKind::BoundaryEvent => if supported_boundary(defs, e.has_event_type) {
            BehaviorKind::BoundaryEvent
        } else {
            BehaviorKind::Unsupported(FlowElementKind::BoundaryEvent)
        },
        FlowElementKind::CallActivity => BehaviorKind::CallActivity,
        FlowElementKind::SequenceFlow => BehaviorKind::Unsupported(FlowElementKind::SequenceFlow),
        FlowElementKind::ValuedDataObject => BehaviorKind::Unsupported(FlowElementKind::ValuedDataObject),
    }
}

/// Which kinds can loop as multi-instance activities.
pub open spec fn loops(k: FlowElementKind) -> bool {
    match k {
        FlowElementKind::Task | FlowElementKind::UserTask | FlowElementKind::ServiceTask
        | FlowElementKind::CaseServiceTask | FlowElementKind::SendTask | FlowElementKind::ScriptTask
        | FlowElementKind::ManualTask | FlowElementKind::ReceiveTask | FlowElementKind::BusinessRuleTask
        | FlowElementKind::SubProcess | FlowElementKind::Transaction | FlowElementKind::AdhocSubProcess
        | FlowElementKind::CallActivity => true,
        _ => false,
    }
}

pub open spec fn is_sub_process_kind(k: FlowElementKind) -> bool {
    k == FlowElementKind::SubProcess || k == FlowElementKind::Transaction || k == FlowElementKind::AdhocSubProcess
}

fn contains_definition(defs: &Vec<EventDefinitionKind>, d: EventDefinitionKind) -> (r: bool)
    ensures
        r == defs@.contains(d),
{
    let mut i: usize = 0;
    while i < defs.len()
        invariant
            0 <= i <= defs.len(),
            forall|j: int| 0 <= j < i ==> defs@[j] != d,
        decreases defs.len() - i,
    {
        if defs[i] == d {
            proof {
                assert(defs@[i as int] == d);
            }
            return true;
        }
        i = i + 1;
    }
    false
}

/// The engine's behavior factory.
#[derive(Debug)]
pub struct DefaultActivityBehaviorFactory {}

impl DefaultActivityBehaviorFactory {
    pub fn new() -> (r: Self) {
        DefaultActivityBehaviorFactory {}
    }

    /// The behavior of `element`, wrapped in multi-instance handling when it
    /// loops and its kind can.
    pub fn resolve_behavior(&self, element: &FlowElementShape) -> (r: Option<ResolvedBehavior>)
        ensures
            r == Some(ResolvedBehavior {
                behavior: behavior_spec(*element),
                multi_instance: if element.multi_instance && loops(element.kind) {
                    Some(is_sub_process_kind(element.kind))
                } else {
                    None
                },
            }),
    {
        let defs = &element.event_definitions;
        let behavior = match element.kind {
            FlowElementKind::StartEvent => if contains_definition(defs, EventDefinitionKind::VariableListener) {
                BehaviorKind::VariableListenerEvent
            } else {
                BehaviorKind::StartEvent
            },
            FlowElementKind::EndEvent => if defs.len() > 0 && defs[0] == EventDefinitionKind::Cancel {
                BehaviorKind::CancelEndEvent
            } else {
                BehaviorKind::EndEvent
            },
            FlowElementKind::ExclusiveGateway => BehaviorKind::ExclusiveGateway,
            FlowElementKind::InclusiveGateway => BehaviorKind::InclusiveGateway,
            FlowElementKind::ParallelGateway => BehaviorKind::ParallelGateway,
            FlowElementKind::EventBasedGateway => BehaviorKind::EventBasedGateway,
            FlowElementKind::UserTask => BehaviorKind::UserTask,
            FlowElementKind::ReceiveTask => BehaviorKind::ReceiveTask,
            FlowElementKind::BusinessRuleTask => BehaviorKind::BusinessRuleTask,
            FlowElementKind::IntermediateCatchEvent => if is_wait_state_intermediate_catch_event(element) {
                BehaviorKind::IntermediateCatchEvent
            } else {
                BehaviorKind::Unsupported(FlowElementKind::IntermediateCatchEvent)
            },
            FlowElementKind::IntermediateThrowEvent => if is_supported_intermediate_throw_event(element) {
                BehaviorKind::IntermediateThrowEvent
            } else {
                BehaviorKind::Unsupported(FlowElementKind::IntermediateThrowEvent)
            },
            FlowElementKind::ServiceTask => BehaviorKind::ServiceTask,
            FlowElementKind::CaseServiceTask => BehaviorKind::CaseTask,
            FlowElementKind::SendTask => BehaviorKind::SendTask,
            FlowElementKind::ScriptTask => BehaviorKind::ScriptTask,
            FlowElementKind::ManualTask => BehaviorKind::ManualTask,
            FlowElementKind::Task => BehaviorKind::Task,
            FlowElementKind::SubProcess => BehaviorKind::SubProcess,
            FlowElementKind::EventSubProcess => BehaviorKind::EventSubprocess,
            FlowElementKind::Transaction => BehaviorKind::Transaction,
            FlowElementKind::AdhocSubProcess => BehaviorKind::AdhocSubProcess,
            FlowElementKind::BoundaryEvent => if is_supported_boundary_event(element) {
                BehaviorKind::BoundaryEvent
            } else {
                BehaviorKind::Unsupported(FlowElementKind::BoundaryEvent)
            },
            FlowElementKind::CallActivity => BehaviorKind::CallActivity,
            FlowElementKind::SequenceFlow => BehaviorKind::Unsupported(FlowElementKind::SequenceFlow),
            FlowElementKind::ValuedDataObject => BehaviorKind::Unsupported(FlowElementKind::ValuedDataObject),
        };
        let can_loop = match element.kind {
            FlowElementKind::Task | FlowElementKind::UserTask | FlowElementKind::ServiceTask
            | FlowElementKind::CaseServiceTask | FlowElementKind::SendTask | FlowElementKind::ScriptTask
            | FlowElementKind::ManualTask | FlowElementKind::ReceiveTask | FlowElementKind::BusinessRuleTask
            | FlowElementKind::SubProcess | FlowElementKind::Transaction | FlowElementKind::AdhocSubProcess
            | FlowElementKind::CallActivity => true,
            _ => false,
        };
        let multi_instance = if element.multi_instance && can_loop {
            Some(element.kind == FlowElementKind::SubProcess || element.kind == FlowElementKind::Transaction
                || element.kind == FlowElementKind::AdhocSubProcess)
        } else {
            None
        };
        Some(ResolvedBehavior { behavior, multi_instance })
    }
}

} // verus!
