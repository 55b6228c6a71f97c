//! Starting a process instance through a message or signal start event:
//! which deployed start subscription the event selects.
use vstd::prelude::*;
use crate::command::CommandContext;
use crate::entities::{clone_opt, opt_view, ProcessInstance};
use crate::error::FlowableError;
use crate::events::EventSubscriptionKind;
use crate::ordering::str_eq;
use crate::outside::{debug_quoted, debug_text};
use crate::start::{start_outcome, ProcessInstanceBuilder, StartProcessInstanceCmd};
use crate::start_subscriptions::ProcessEventStartSubscription;
use crate::triggers::TriggerProcessStartByEventCmd;

verus! {

/// Whether the start subscription listens for the event.
pub open spec fn listens(sub: ProcessEventStartSubscription, kind: EventSubscriptionKind, event_ref: Seq<char>) -> bool {
    sub.event_kind == kind && sub.event_ref@ == event_ref
}

/// The first of the first `n` subscriptions listening for the event in
/// definition `pd`.
pub open spec fn first_in_definition(subs: Seq<ProcessEventStartSubscription>, kind: EventSubscriptionKind, event_ref: Seq<char>,
    pd: Seq<char>, n: int) -> Option<int>
    decreases n,
{
    if n <= 0 {
        None
    } else {
        match first_in_definition(subs, kind, event_ref, pd, n - 1) {
            Some(i) => Some(i),
            None => if listens(subs[n - 1], kind, event_ref) && subs[n - 1].process_definition_id@ == pd {
                Some(n - 1)
            } else {
                None
            },
        }
    }
}

/// The last of the first `n` subscriptions listening for the event (of
/// tenant `tenant`, when `by_tenant`).
pub open spec fn last_listening(subs: Seq<ProcessEventStartSubscription>, kind: EventSubscriptionKind, event_ref: Seq<char>,
    by_tenant: bool, tenant: Option<Seq<char>>, n: int) -> Option<int>
    decreases n,
{
    if n <= 0 {
        None
    } else if listens(subs[n - 1], kind, event_ref) && (!by_tenant || opt_view(subs[n - 1].tenant_id) == tenant) {
        Some(n - 1)
    } else {
        last_listening(subs, kind, event_ref, by_tenant, tenant, n - 1)
    }
}

/// The subscription the event starts an instance of: with a definition
/// pinned, the first of that definition; else the last deployed one of the
/// tenant, or, without a tenant, the last deployed at all.
pub open spec fn selected_start(subs: Seq<ProcessEventStartSubscription>, cmd: TriggerProcessStartByEventCmd) -> Option<int> {
    let n = subs.len() as int;
    match cmd.process_definition_id {
        Some(pd) => first_in_definition(subs, cmd.event_kind, cmd.event_ref@, pd@, n),
        None => match last_listening(subs, cmd.event_kind, cmd.event_ref@, true, opt_view(cmd.tenant_id), n) {
            Some(i) => Some(i),
            None => if cmd.tenant_id is None {
                last_listening(subs, cmd.event_kind, cmd.event_ref@, false, None, n)
            } else {
                None
            },
        },
    }
}

proof fn lemma_first_in_definition_grows(subs: Seq<ProcessEventStartSubscription>, kind: EventSubscriptionKind, event_ref: Seq<char>,
    pd: Seq<char>, n: int, m: int)
    requires
        0 <= n <= m,
        first_in_definition(subs, kind, event_ref, pd, n) is Some,
    ensures
        first_in_definition(subs, kind, event_ref, pd, m) == first_in_definition(subs, kind, event_ref, pd, n),
    decreases m - n,
{
    if m > n {
        lemma_first_in_definition_grows(subs, kind, event_ref, pd, n, m - 1);
    }
}

proof fn lemma_last_listening_range(subs: Seq<ProcessEventStartSubscription>, kind: EventSubscriptionKind, event_ref: Seq<char>,
    by_tenant: bool, tenant: Option<Seq<char>>, n: int)
    ensures
        last_listening(subs, kind, event_ref, by_tenant, tenant, n) matches Some(i) ==> 0 <= i < n,
    decreases n,
{
    if n > 0 {
        lemma_last_listening_range(subs, kind, event_ref, by_tenant, tenant, n - 1);
    }
}

proof fn lemma_first_in_definition_range(subs: Seq<ProcessEventStartSubscription>, kind: EventSubscriptionKind, event_ref: Seq<char>,
    pd: Seq<char>, n: int)
    ensures
        first_in_definition(subs, kind, event_ref, pd, n) matches Some(i) ==> 0 <= i < n,
    decreases n,
{
    if n > 0 {
        lemma_first_in_definition_range(subs, kind, event_ref, pd, n - 1);
    }
}

fn last_listening_index(subs: &Vec<ProcessEventStartSubscription>, kind: EventSubscriptionKind, event_ref: &str, by_tenant: bool,
    tenant: &Option<String>) -> (r: Option<usize>)
    ensures
        match r {
            Some(i) => last_listening(subs@, kind, event_ref@, by_tenant, opt_view(*tenant), subs@.len() as int) == Some(i as int),
            None => last_listening(subs@, kind, event_ref@, by_tenant, opt_view(*tenant), subs@.len() as int) is None,
        },
{
    let mut k: usize = subs.len();
    while k > 0
        invariant
            0 <= k <= subs@.len(),
            last_listening(subs@, kind, event_ref@, by_tenant, opt_view(*tenant), subs@.len() as int) == last_listening(
                subs@,
                kind,
                event_ref@,
                by_tenant,
                opt_view(*tenant),
                k as int,
            ),
        decreases k,
    {
        let s = &subs[k - 1];
        let tenant_ok = !by_tenant || match (&s.tenant_id, tenant) {
            (Some(a), Some(b)) => str_eq(a.as_str(), b.as_str()),
            (None, None) => true,
            _ => false,
        };
        if s.event_kind == kind && str_eq(s.event_ref.as_str(), event_ref) && tenant_ok {
            return Some(k - 1);
        }
        k = k - 1;
    }
    None
}

/// The index of the subscription the command selects (see
/// `selected_start`).
pub fn select_start_subscription(subs: &Vec<ProcessEventStartSubscription>, cmd: &TriggerProcessStartByEventCmd) -> (r: Option<usize>)
    ensures
        match r {
            Some(i) => selected_start(subs@, *cmd) == Some(i as int) && i < subs@.len(),
            None => selected_start(subs@, *cmd) is None,
        },
{
    match &cmd.process_definition_id {
        Some(pd) => {
            let mut i: usize = 0;
            while i < subs.len()
                invariant
                    0 <= i <= subs@.len(),
                    cmd.process_definition_id == Some(*pd),
                    first_in_definition(subs@, cmd.event_kind, cmd.event_ref@, pd@, i as int) is None,
                decreases subs.len() - i,
            {
                let s = &subs[i];
                if s.event_kind == cmd.event_kind && str_eq(s.event_ref.as_str(), cmd.event_ref.as_str()) && str_eq(
                    s.process_definition_id.as_str(),
                    pd.as_str(),
                ) {
                    proof {
                        lemma_first_in_definition_grows(subs@, cmd.event_kind, cmd.event_ref@, pd@, i + 1, subs@.len() as int);
                    }
                    return Some(i);
                }
                i = i + 1;
            }
            None
        },
        None => {
            let by_tenant = last_listening_index(subs, cmd.event_kind, cmd.event_ref.as_str(), true, &cmd.tenant_id);
            proof {
                lemma_last_listening_range(subs@, cmd.event_kind, cmd.event_ref@, true, opt_view(cmd.tenant_id), subs@.len() as int);
                lemma_last_listening_range(subs@, cmd.event_kind, cmd.event_ref@, false, None, subs@.len() as int);
            }
            match by_tenant {
                Some(i) => Some(i),
                None => if cmd.tenant_id.is_none() {
                    last_listening_index(subs, cmd.event_kind, cmd.event_ref.as_str(), false, &None)
                } else {
                    None
                },
            }
        },
    }
}

/// How std's `Debug` shows a subscription kind.
pub open spec fn kind_debug(k: EventSubscriptionKind) -> Seq<char> {
    match k {
        EventSubscriptionKind::Message => "Message"@,
        EventSubscriptionKind::Signal => "Signal"@,
        EventSubscriptionKind::Conditional => "Conditional"@,
        EventSubscriptionKind::Error => "Error"@,
        EventSubscriptionKind::Cancel => "Cancel"@,
        EventSubscriptionKind::Compensate => "Compensate"@,
        EventSubscriptionKind::Escalation => "Escalation"@,
        EventSubscriptionKind::EventRegistry => "EventRegistry"@,
    }
}

fn kind_debug_text(k: EventSubscriptionKind) -> (r: &'static str)
    ensures
        r@ == kind_debug(k),
{
    match k {
        EventSubscriptionKind::Message => "Message",
        EventSubscriptionKind::Signal => "Signal",
        EventSubscriptionKind::Conditional => "Conditional",
        EventSubscriptionKind::Error => "Error",
        EventSubscriptionKind::Cancel => "Cancel",
        EventSubscriptionKind::Compensate => "Compensate",
        EventSubscriptionKind::Escalation => "Escalation",
        EventSubscriptionKind::EventRegistry => "EventRegistry",
    }
}

/// How std's `Debug` shows an optional tenant.
pub open spec fn tenant_debug(t: Option<Seq<char>>) -> Seq<char> {
    match t {
        Some(s) => "Some("@ + debug_text(s) + ")"@,
        None => "None"@,
    }
}

/// The message of the error for an event no start subscription listens for.
pub open spec fn no_start_subscription_message(cmd: TriggerProcessStartByEventCmd) -> Seq<char> {
    "No "@ + kind_debug(cmd.event_kind) + " start event subscription found for event_ref '"@ + cmd.event_ref@
        + "' and tenant "@ + tenant_debug(opt_view(cmd.tenant_id))
}

/// The start request the command makes for subscription `sub`.
pub open spec fn start_request(cmd: TriggerProcessStartByEventCmd, sub: ProcessEventStartSubscription) -> ProcessInstanceBuilder {
    ProcessInstanceBuilder {
        process_definition_id: Some(sub.process_definition_id),
        process_definition_key: None,
        tenant_id: cmd.tenant_id,
        name: None,
        business_key: cmd.business_key,
        business_status: None,
        start_user_id: cmd.start_user_id,
        callback_id: None,
        callback_type: None,
        reference_id: None,
        reference_type: None,
        super_execution_id: None,
    }
}

impl TriggerProcessStartByEventCmd {
    /// Starts an instance of the process whose start event listens for the
    /// event (among the deployed start subscriptions `subs`; see
    /// `selected_start`), in that start event; fails when none listens.
    pub fn run(&self, ctx: &mut CommandContext, subs: &Vec<ProcessEventStartSubscription>) -> (r: Result<ProcessInstance, FlowableError>)
        requires
            old(ctx).session.wf(),
        ensures
            final(ctx).session.wf(),
            match selected_start(subs@, *self) {
                None => {
                    &&& r matches Err(e) && e is NotFound && e->NotFound_0@ == no_start_subscription_message(*self)
                    &&& final(ctx).session == old(ctx).session
                },
                Some(i) => start_outcome(old(ctx).session, final(ctx).session, start_request(*self, subs@[i]),
                    Some(subs@[i].start_event_id), None, r),
            },
    {
        let i = match select_start_subscription(subs, self) {
            Some(i) => i,
            None => {
                let mut m = crate::text::cat3("No ", kind_debug_text(self.event_kind), " start event subscription found for event_ref '");
                m.append(self.event_ref.as_str());
                m.append("' and tenant ");
                match &self.tenant_id {
                    Some(t) => {
                        m.append("Some(");
                        let q = debug_quoted(t.as_str());
                        m.append(q.as_str());
                        m.append(")");
                    },
                    None => {
                        m.append("None");
                    },
                }
                return Err(FlowableError::NotFound(m));
            },
        };
        let sub = &subs[i];
        let builder = ProcessInstanceBuilder {
            process_definition_id: Some(sub.process_definition_id.clone()),
            process_definition_key: None,
            tenant_id: clone_opt(&self.tenant_id),
            name: None,
            business_key: clone_opt(&self.business_key),
            business_status: None,
            start_user_id: clone_opt(&self.start_user_id),
            callback_id: None,
            callback_type: None,
            reference_id: None,
            reference_type: None,
            super_execution_id: None,
        };
        let cmd = StartProcessInstanceCmd::with_start_event_id(builder, sub.start_event_id.clone());
        cmd.start(ctx, None)
    }
}

} // verus!
