//! The event subscriptions a deployed process definition registers for its
//! start events: message and signal starts, and event registry starts.
use vstd::prelude::*;
use crate::boundary::first_where;
use crate::entities::{clone_opt, opt_view};
use crate::events::EventSubscriptionKind;

verus! {

/// An event definition of a start event, with what registration reads of it.
#[derive(Debug)]
pub enum StartEventDefinition {
    Message { message_ref: Option<String> },
    Signal { signal_ref: Option<String> },
    Timer,
    Other,
}

/// A top-level start event of a process model, with its extension values:
/// the event registry type it declares (`event_type`), whether its start
/// correlation is manual, the text of its `eventType` extension element,
/// whether that subscription is manual, and its correlation configuration.
#[derive(Debug)]
pub struct StartEventModel {
    pub id: String,
    pub name: Option<String>,
    pub definitions: Vec<StartEventDefinition>,
    pub event_type: Option<String>,
    pub manual_start_correlation: bool,
    pub event_type_text: Option<String>,
    pub manual_subscription: bool,
    pub configuration: Option<String>,
}

/// A message declared in a process model.
#[derive(Debug)]
pub struct MessageDeclaration {
    pub id: Option<String>,
    pub name: Option<String>,
}

/// A subscription that starts a process definition when its event arrives.
#[derive(Debug)]
pub struct ProcessEventStartSubscription {
    pub process_definition_id: String,
    pub process_definition_key: String,
    pub tenant_id: Option<String>,
    pub start_event_id: String,
    pub start_event_name: Option<String>,
    pub event_kind: EventSubscriptionKind,
    pub event_ref: String,
    pub configuration: Option<String>,
}

/// The name a message reference stands for: that of the first message
/// declared with this id, when it has one; else the reference itself.
pub open spec fn message_name(messages: Seq<MessageDeclaration>, r: Seq<char>) -> Seq<char> {
    match first_where(messages.len() as int, |i: int| opt_view(messages[i].id) == Some(r)) {
        Some(i) => match messages[i].name {
            Some(n) => n@,
            None => r,
        },
        None => r,
    }
}

/// The message and signal references the definitions register, in order.
pub open spec fn definition_refs(defs: Seq<StartEventDefinition>, messages: Seq<MessageDeclaration>) -> Seq<
    (EventSubscriptionKind, Seq<char>),
>
    decreases defs.len(),
{
    if defs.len() == 0 {
        Seq::empty()
    } else {
        let rest = definition_refs(defs.drop_last(), messages);
        match defs.last() {
            StartEventDefinition::Message { message_ref: Some(r) } => rest.push(
                (EventSubscriptionKind::Message, message_name(messages, r@)),
            ),
            StartEventDefinition::Signal { signal_ref: Some(r) } => rest.push((EventSubscriptionKind::Signal, r@)),
            _ => rest,
        }
    }
}

/// What a start event registers: without event definitions, its event
/// registry type unless its start correlation is manual; with them, its
/// message and signal references, or, when there are none, the type of its
/// `eventType` extension unless that subscription is manual.
pub open spec fn start_refs(s: StartEventModel, messages: Seq<MessageDeclaration>) -> Seq<(EventSubscriptionKind, Seq<char>)> {
    if s.definitions@.len() == 0 {
        match s.event_type {
            Some(t) => if !s.manual_start_correlation {
                seq![(EventSubscriptionKind::EventRegistry, t@)]
            } else {
                Seq::empty()
            },
            None => Seq::empty(),
        }
    } else {
        let standard = definition_refs(s.definitions@, messages);
        if standard.len() == 0 && s.event_type_text is Some && !s.manual_subscription {
            seq![(EventSubscriptionKind::EventRegistry, s.event_type_text->0@)]
        } else {
            standard
        }
    }
}

/// A subscription as a value: start event id and name, kind, reference and
/// configuration.
pub type SubscriptionView = (Seq<char>, Option<Seq<char>>, EventSubscriptionKind, Seq<char>, Option<Seq<char>>);

pub open spec fn subscription_view(s: ProcessEventStartSubscription) -> SubscriptionView {
    (s.start_event_id@, opt_view(s.start_event_name), s.event_kind, s.event_ref@, opt_view(s.configuration))
}

pub open spec fn start_views(s: StartEventModel, messages: Seq<MessageDeclaration>) -> Seq<SubscriptionView> {
    start_refs(s, messages).map_values(|r: (EventSubscriptionKind, Seq<char>)| (s.id@, opt_view(s.name), r.0, r.1,
        opt_view(s.configuration)))
}

/// The subscriptions of all start events, in order.
pub open spec fn all_start_views(starts: Seq<StartEventModel>, messages: Seq<MessageDeclaration>) -> Seq<SubscriptionView>
    decreases starts.len(),
{
    if starts.len() == 0 {
        Seq::empty()
    } else {
        all_start_views(starts.drop_last(), messages) + start_views(starts.last(), messages)
    }
}

fn message_name_of(messages: &Vec<MessageDeclaration>, r: &String) -> (n: String)
    ensures
        n@ == message_name(messages@, r@),
{
    let ghost f = |i: int| opt_view(messages@[i].id) == Some(r@);
    let mut i: usize = 0;
    while i < messages.len()
        invariant
            0 <= i <= messages.len(),
            f == (|i: int| opt_view(messages@[i].id) == Some(r@)),
            first_where(i as int, f) is None,
        decreases messages.len() - i,
    {
        let hit = match &messages[i].id {
            Some(id) => id.eq(r),
            None => false,
        };
        if hit {
            proof {
                assert(first_where(i + 1, f) == Some(i as int));
                lemma_first_where_stays(i + 1, messages@.len() as int, f);
            }
            return match &messages[i].name {
                Some(n) => n.clone(),
                None => r.clone(),
            };
        }
        i = i + 1;
    }
    r.clone()
}

proof fn lemma_first_where_stays(n: int, m: int, f: spec_fn(int) -> bool)
    requires
        0 <= n <= m,
        first_where(n, f) is Some,
    ensures
        first_where(m, f) == first_where(n, f),
    decreases m - n,
{
    if m > n {
        lemma_first_where_stays(n, m - 1, f);
    }
}

fn refs_of(start: &StartEventModel, messages: &Vec<MessageDeclaration>) -> (r: Vec<(EventSubscriptionKind, String)>)
    ensures
        r@.map_values(|x: (EventSubscriptionKind, String)| (x.0, x.1@)) == start_refs(*start, messages@),
{
    let mut out: Vec<(EventSubscriptionKind, String)> = Vec::new();
    if start.definitions.len() == 0 {
        if let Some(t) = &start.event_type {
            if !start.manual_start_correlation {
                out.push((EventSubscriptionKind::EventRegistry, t.clone()));
            }
        }
        proof {
            assert(out@.map_values(|x: (EventSubscriptionKind, String)| (x.0, x.1@)) =~= start_refs(*start, messages@));
        }
        return out;
    }
    let defs = &start.definitions;
    let mut i: usize = 0;
    while i < defs.len()
        invariant
            0 <= i <= defs.len(),
            out@.map_values(|x: (EventSubscriptionKind, String)| (x.0, x.1@)) == definition_refs(defs@.take(i as int),
                messages@),
        decreases defs.len() - i,
    {
        proof {
            assert(defs@.take(i + 1).drop_last() =~= defs@.take(i as int));
            assert(defs@.take(i + 1).last() == defs@[i as int]);
        }
        let ghost prev = out@;
        match &defs[i] {
            StartEventDefinition::Message { message_ref: Some(r) } => {
                out.push((EventSubscriptionKind::Message, message_name_of(messages, r)));
            },
            StartEventDefinition::Signal { signal_ref: Some(r) } => {
                out.push((EventSubscriptionKind::Signal, r.clone()));
            },
            _ => {},
        }
        proof {
            if out@.len() > prev.len() {
                assert(out@ == prev.push(out@.last()));
                assert(out@.map_values(|x: (EventSubscriptionKind, String)| (x.0, x.1@)) =~= prev.map_values(
                    |x: (EventSubscriptionKind, String)| (x.0, x.1@)).push((out@.last().0, out@.last().1@)));
            }
        }
        i = i + 1;
    }
    proof {
        assert(defs@.take(defs.len() as int) =~= defs@);
    }
    if out.len() == 0 {
        if let Some(t) = &start.event_type_text {
            if !start.manual_subscription {
                out.push((EventSubscriptionKind::EventRegistry, t.clone()));
            }
        }
        proof {
            assert(out@.map_values(|x: (EventSubscriptionKind, String)| (x.0, x.1@)) =~= start_refs(*start, messages@));
        }
    }
    out
}

/// The event start subscriptions of a deployed definition: for each
/// top-level start event in order, one per reference it registers (see
/// [`start_refs`]), all carrying the definition's id, key and tenant.
pub fn extract_event_start_subscriptions(
    process_definition_id: &str,
    process_definition_key: &str,
    tenant_id: Option<&str>,
    starts: &Vec<StartEventModel>,
    messages: &Vec<MessageDeclaration>,
) -> (r: Vec<ProcessEventStartSubscription>)
    ensures
        r@.map_values(|s: ProcessEventStartSubscription| subscription_view(s)) == all_start_views(starts@, messages@),
        forall|i: int| 0 <= i < r@.len() ==> (#[trigger] r@[i]).process_definition_id@ == process_definition_id@
            && r@[i].process_definition_key@ == process_definition_key@
            && opt_view(r@[i].tenant_id) == crate::correlate::opt_str(tenant_id),
{
    let mut out: Vec<ProcessEventStartSubscription> = Vec::new();
    let mut i: usize = 0;
    while i < starts.len()
        invariant
            0 <= i <= starts.len(),
            out@.map_values(|s: ProcessEventStartSubscription| subscription_view(s)) == all_start_views(
                starts@.take(i as int), messages@),
            forall|k: int| 0 <= k < out@.len() ==> (#[trigger] out@[k]).process_definition_id@ == process_definition_id@
                && out@[k].process_definition_key@ == process_definition_key@
                && opt_view(out@[k].tenant_id) == crate::correlate::opt_str(tenant_id),
        decreases starts.len() - i,
    {
        let start = &starts[i];
        let refs = refs_of(start, messages);
        let ghost base = out@;
        let ghost base_views = base.map_values(|s: ProcessEventStartSubscription| subscription_view(s));
        let ghost want = start_views(*start, messages@);
        let mut j: usize = 0;
        while j < refs.len()
            invariant
                0 <= j <= refs.len(),
                refs@.map_values(|x: (EventSubscriptionKind, String)| (x.0, x.1@)) == start_refs(*start, messages@),
                want == start_views(*start, messages@),
                out@.len() == base.len() + j,
                out@.map_values(|s: ProcessEventStartSubscription| subscription_view(s)) == base_views + want.take(j as int),
                forall|k: int| 0 <= k < out@.len() ==> (#[trigger] out@[k]).process_definition_id@ == process_definition_id@
                    && out@[k].process_definition_key@ == process_definition_key@
                    && opt_view(out@[k].tenant_id) == crate::correlate::opt_str(tenant_id),
            decreases refs.len() - j,
        {
            let ghost prev = out@;
            let tenant: Option<String> = match tenant_id {
                Some(t) => Some(String::from_str(t)),
                None => None,
            };
            out.push(ProcessEventStartSubscription {
                process_definition_id: String::from_str(process_definition_id),
                process_definition_key: String::from_str(process_definition_key),
                tenant_id: tenant,
                start_event_id: start.id.clone(),
                start_event_name: clone_opt(&start.name),
                event_kind: refs[j].0,
                event_ref: refs[j].1.clone(),
                configuration: clone_opt(&start.configuration),
            });
            proof {
                assert(out@ == prev.push(out@.last()));
                assert(refs@.map_values(|x: (EventSubscriptionKind, String)| (x.0, x.1@))[j as int] == (refs@[j as int].0,
                    refs@[j as int].1@));
                assert(want[j as int] == subscription_view(out@.last()));
                assert(want.take(j + 1) =~= want.take(j as int).push(want[j as int]));
                assert(out@.map_values(|s: ProcessEventStartSubscription| subscription_view(s)) =~= prev.map_values(
                    |s: ProcessEventStartSubscription| subscription_view(s)).push(subscription_view(out@.last())));
                assert forall|k: int| 0 <= k < out@.len() implies (#[trigger] out@[k]).process_definition_id@
                    == process_definition_id@ && out@[k].process_definition_key@ == process_definition_key@
                    && opt_view(out@[k].tenant_id) == crate::correlate::opt_str(tenant_id) by {
                    if k < prev.len() {
                        assert(out@[k] == prev[k]);
                    }
                }
            }
            j = j + 1;
        }
        proof {
            assert(want.take(refs.len() as int) =~= want);
            assert(starts@.take(i + 1).drop_last() =~= starts@.take(i as int));
            assert(starts@.take(i + 1).last() == starts@[i as int]);
        }
        i = i + 1;
    }
    proof {
        assert(starts@.take(starts.len() as int) =~= starts@);
    }
    out
}

} // verus!
