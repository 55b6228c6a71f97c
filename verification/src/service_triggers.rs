//! Triggering a service task that waits for an event it sent out: the
//! checks made before the task's behaviour takes the inbound event.
use vstd::prelude::*;
use crate::catch_events::refuses_suspended;
use crate::correlate::{find_event_wait_state_by_execution_id, wait_state_of};
use crate::entities::Execution;
use crate::error::FlowableError;
use crate::events::{EventSubscriptionKind, RuntimeEventWaitKind, RuntimeEventWaitState};
use crate::ordering::str_eq;
use crate::store::RuntimeStore;
use crate::triggers::require_active_execution;

verus! {

/// Triggers a send-event service task that waits for its reply, with the
/// inbound payload (JSON text).
#[derive(Debug)]
pub struct TriggerSendEventServiceTaskCmd {
    pub execution_id: String,
    pub event_key: String,
    pub payload: String,
    /// The inbound delivery this trigger answers, when a pipeline delivered it.
    pub inbound_delivery_id: Option<String>,
}

/// Whether `w` is a send-event task waiting for the event `key` of the
/// event registry.
pub open spec fn waits_for_reply(w: RuntimeEventWaitState, key: Seq<char>) -> bool {
    &&& w.wait_kind == RuntimeEventWaitKind::SendEventTask
    &&& w.event_subscription is Some
    &&& w.event_subscription->0.kind == EventSubscriptionKind::EventRegistry
    &&& w.event_subscription->0.event_ref@ == key
}

impl TriggerSendEventServiceTaskCmd {
    pub fn new(execution_id: String, event_key: String, payload: String) -> (r: Self)
        ensures
            r == (TriggerSendEventServiceTaskCmd { execution_id, event_key, payload, inbound_delivery_id: None }),
    {
        TriggerSendEventServiceTaskCmd { execution_id, event_key, payload, inbound_delivery_id: None }
    }

    /// The same trigger, answering the given inbound delivery.
    pub fn with_inbound_delivery_id(self, delivery_id: String) -> (r: Self)
        ensures
            r == (TriggerSendEventServiceTaskCmd { inbound_delivery_id: Some(delivery_id), ..self }),
    {
        TriggerSendEventServiceTaskCmd { inbound_delivery_id: Some(delivery_id), ..self }
    }

    /// The execution whose service task is to take the event: `Ok(None)`
    /// when the execution does not wait (in `wait_states`) as a send-event
    /// task for this event key; an error when it is not stored or is
    /// suspended.
    pub fn run(&self, store: &RuntimeStore, wait_states: &Vec<RuntimeEventWaitState>) -> (r: Result<Option<Execution>, FlowableError>)
        requires
            store.wf(),
        ensures
            ({
                let eid = self.execution_id@;
                match wait_state_of(wait_states@, eid) {
                    None => r matches Ok(None),
                    Some(w) => if !waits_for_reply(w, self.event_key@) {
                        r matches Ok(None)
                    } else if !store.executions@.contains_key(eid) {
                        r matches Err(e) && e is NotFound && e->NotFound_0@ == "No execution could be found for id "@ + eid
                    } else if store.executions@[eid].is_suspended {
                        r matches Err(e) && refuses_suspended(e, store.executions@[eid])
                    } else {
                        r == Ok::<Option<Execution>, FlowableError>(Some(store.executions@[eid]))
                    }
                }
            }),
    {
        let wait = match find_event_wait_state_by_execution_id(wait_states, &self.execution_id) {
            Some(w) => w,
            None => return Ok(None),
        };
        if wait.wait_kind != RuntimeEventWaitKind::SendEventTask {
            return Ok(None);
        }
        let subscription_ok = match &wait.event_subscription {
            Some(sub) => sub.kind == EventSubscriptionKind::EventRegistry && str_eq(sub.event_ref.as_str(), self.event_key.as_str()),
            None => false,
        };
        if !subscription_ok {
            return Ok(None);
        }
        let execution = match store.find_execution(&self.execution_id) {
            Some(e) => e,
            None => {
                return Err(FlowableError::NotFound(crate::text::cat("No execution could be found for id ", self.execution_id.as_str())));
            },
        };
        match require_active_execution(&execution) {
            Err(e) => return Err(e),
            Ok(()) => {},
        }
        Ok(Some(execution))
    }
}

} // verus!
