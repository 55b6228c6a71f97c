//! Deploying: turning a builder into a deployment, storing its parsed
//! process definitions, replacing the start subscriptions of earlier
//! versions, and recognising a repeated deployment.
use vstd::prelude::*;
use crate::command::CommandContext;
use crate::deployments::{
    copy_resources, is_latest, resource_views, same_deployment_content, DeployCmd, Deployment, DeploymentBuilder,
};
use crate::entities::{clone_opt, opt_eq, opt_view, Duplicate, ProcessDefinition};
use crate::error::FlowableError;
use crate::outside::{current_time_millis, new_uuid};
use crate::start_subscriptions::ProcessEventStartSubscription;
use crate::store::{frame, RuntimeStore, StoreTable, Table};
use crate::timer_work::TimerStartSubscription;

verus! {

impl DeploymentBuilder {
    /// The deployment this builder makes: a fresh random id, the current
    /// time, and the builder's name, tenant and resources.
    pub fn deploy(&self) -> (r: Deployment)
        ensures
            r.name == self.name,
            r.tenant_id == self.tenant_id,
            resource_views(r.resources@) == resource_views(self.resources@),
            r.is_new,
    {
        Deployment {
            id: new_uuid(),
            name: clone_opt(&self.name),
            tenant_id: clone_opt(&self.tenant_id),
            deployment_time: current_time_millis(),
            resources: copy_resources(&self.resources),
            is_new: true,
        }
    }
}

/// Whether a start subscription of definition key `key` under `tenant`
/// belongs to an earlier version of one of `defs` (same key and tenant).
pub open spec fn replaced_by(key: Seq<char>, tenant: Option<Seq<char>>, defs: Seq<ProcessDefinition>) -> bool {
    exists|i: int| 0 <= i < defs.len() && (#[trigger] defs[i]).key@ == key && opt_view(defs[i].tenant_id) == tenant
}

/// The tenant of a timer start subscription: that of its stored definition.
pub open spec fn timer_start_tenant(stored: Map<Seq<char>, ProcessDefinition>, s: TimerStartSubscription) -> Option<
    Seq<char>,
> {
    if stored.contains_key(s.process_definition_id@) {
        opt_view(stored[s.process_definition_id@].tenant_id)
    } else {
        None
    }
}

/// The timer start subscriptions that stay, in order.
pub open spec fn kept_timer_starts(
    subs: Seq<TimerStartSubscription>,
    stored: Map<Seq<char>, ProcessDefinition>,
    defs: Seq<ProcessDefinition>,
) -> Seq<TimerStartSubscription>
    decreases subs.len(),
{
    if subs.len() == 0 {
        seq![]
    } else {
        let rest = kept_timer_starts(subs.drop_last(), stored, defs);
        if replaced_by(subs.last().process_definition_key@, timer_start_tenant(stored, subs.last()), defs) {
            rest
        } else {
            rest.push(subs.last())
        }
    }
}

/// The event start subscriptions that stay, in order.
pub open spec fn kept_event_starts(subs: Seq<ProcessEventStartSubscription>, defs: Seq<ProcessDefinition>) -> Seq<
    ProcessEventStartSubscription,
>
    decreases subs.len(),
{
    if subs.len() == 0 {
        seq![]
    } else {
        let rest = kept_event_starts(subs.drop_last(), defs);
        if replaced_by(subs.last().process_definition_key@, opt_view(subs.last().tenant_id), defs) {
            rest
        } else {
            rest.push(subs.last())
        }
    }
}

/// The stored definitions after storing each of `defs` in turn.
pub open spec fn definitions_added(m: Map<Seq<char>, ProcessDefinition>, defs: Seq<ProcessDefinition>) -> Map<
    Seq<char>,
    ProcessDefinition,
>
    decreases defs.len(),
{
    if defs.len() == 0 {
        m
    } else {
        definitions_added(m, defs.drop_last()).insert(defs.last().id@, defs.last())
    }
}

/// Whether the builder's deployment repeats the latest of its series.
pub open spec fn repeats_latest(b: DeploymentBuilder, rows: Seq<Deployment>) -> bool {
    b.enable_duplicate_filtering && exists|i: int|
        is_latest(rows, i, opt_view(b.name), opt_view(b.tenant_id)) && resource_views(rows[i].resources@)
            == resource_views(b.resources@)
}

fn is_replaced(key: &String, tenant: &Option<String>, defs: &Vec<ProcessDefinition>) -> (r: bool)
    ensures
        r == replaced_by(key@, opt_view(*tenant), defs@),
{
    let mut i: usize = 0;
    while i < defs.len()
        invariant
            0 <= i <= defs.len(),
            forall|j: int| 0 <= j < i ==> !((#[trigger] defs@[j]).key@ == key@ && opt_view(defs@[j].tenant_id) == opt_view(*tenant)),
        decreases defs.len() - i,
    {
        if defs[i].key.eq(key) && opt_eq(&defs[i].tenant_id, tenant) {
            assert(defs@[i as int].key@ == key@ && opt_view(defs@[i as int].tenant_id) == opt_view(*tenant));
            return true;
        }
        i = i + 1;
    }
    false
}

fn definition_tenant(store: &RuntimeStore, id: &String) -> (r: Option<String>)
    requires
        store.wf(),
    ensures
        opt_view(r) == (if store.process_definitions@.contains_key(id@) {
            opt_view(store.process_definitions@[id@].tenant_id)
        } else {
            None
        }),
{
    match store.get_process_definition(id) {
        Some(d) => d.tenant_id,
        None => None,
    }
}

fn retain_timer_starts(subs: &mut Vec<TimerStartSubscription>, store: &RuntimeStore, defs: &Vec<ProcessDefinition>)
    requires
        store.wf(),
    ensures
        final(subs)@ == kept_timer_starts(old(subs)@, store.process_definitions@, defs@),
{
    let ghost all = subs@;
    let n0 = subs.len();
    assert(all.len() == n0);
    let mut rest: Vec<TimerStartSubscription> = Vec::new();
    std::mem::swap(&mut rest, subs);
    let ghost stored = store.process_definitions@;
    let mut k: usize = 0;
    while rest.len() > 0
        invariant
            store.wf(),
            stored == store.process_definitions@,
            k + rest@.len() == all.len(),
            all.len() <= usize::MAX,
            rest@ == all.skip(k as int),
            subs@ == kept_timer_starts(all.take(k as int), stored, defs@),
        decreases rest@.len(),
    {
        let s = rest.remove(0);
        proof {
            assert(all.take(k + 1).drop_last() =~= all.take(k as int));
            assert(all.take(k + 1).last() == s);
            assert(rest@ =~= all.skip(k + 1));
        }
        let tenant = definition_tenant(store, &s.process_definition_id);
        if !is_replaced(&s.process_definition_key, &tenant, defs) {
            subs.push(s);
        }
        k = k + 1;
    }
    proof {
        assert(all.take(k as int) =~= all);
    }
}

fn retain_event_starts(subs: &mut Vec<ProcessEventStartSubscription>, defs: &Vec<ProcessDefinition>)
    ensures
        final(subs)@ == kept_event_starts(old(subs)@, defs@),
{
    let ghost all = subs@;
    let n0 = subs.len();
    assert(all.len() == n0);
    let mut rest: Vec<ProcessEventStartSubscription> = Vec::new();
    std::mem::swap(&mut rest, subs);
    let mut k: usize = 0;
    while rest.len() > 0
        invariant
            k + rest@.len() == all.len(),
            all.len() <= usize::MAX,
            rest@ == all.skip(k as int),
            subs@ == kept_event_starts(all.take(k as int), defs@),
        decreases rest@.len(),
    {
        let s = rest.remove(0);
        proof {
            assert(all.take(k + 1).drop_last() =~= all.take(k as int));
            assert(all.take(k + 1).last() == s);
            assert(rest@ =~= all.skip(k + 1));
        }
        if !is_replaced(&s.process_definition_key, &s.tenant_id, defs) {
            subs.push(s);
        }
        k = k + 1;
    }
    proof {
        assert(all.take(k as int) =~= all);
    }
}

fn store_definitions(ctx: &mut CommandContext, defs: &Vec<ProcessDefinition>)
    requires
        old(ctx).session.wf(),
    ensures
        final(ctx).session.wf(),
        frame(old(ctx).session, final(ctx).session, set![StoreTable::ProcessDefinitions]),
        final(ctx).session.process_definitions@ == definitions_added(old(ctx).session.process_definitions@, defs@),
        final(ctx).config == old(ctx).config,
        final(ctx).now_ms == old(ctx).now_ms,
        final(ctx).events == old(ctx).events,
        final(ctx).coordinator == old(ctx).coordinator,
        final(ctx).pending_async_hints == old(ctx).pending_async_hints,
{
    let ghost start = ctx.session;
    let mut i: usize = 0;
    while i < defs.len()
        invariant
            0 <= i <= defs.len(),
            ctx.session.wf(),
            frame(start, ctx.session, set![StoreTable::ProcessDefinitions]),
            ctx.session.process_definitions@ == definitions_added(start.process_definitions@, defs@.take(i as int)),
            ctx.config == old(ctx).config,
            ctx.now_ms == old(ctx).now_ms,
            ctx.events == old(ctx).events,
            ctx.coordinator == old(ctx).coordinator,
            ctx.pending_async_hints == old(ctx).pending_async_hints,
        decreases defs.len() - i,
    {
        proof {
            assert(defs@.take(i + 1).drop_last() =~= defs@.take(i as int));
            assert(defs@.take(i + 1).last() == defs@[i as int]);
        }
        ctx.session.insert_process_definition(defs[i].duplicate());
        i = i + 1;
    }
    proof {
        assert(defs@.take(defs@.len() as int) =~= defs@);
    }
}

impl DeployCmd {
    /// Deploys the builder's resources, whose process definitions
    /// (`definitions`) and start subscriptions (`new_timer_starts`,
    /// `new_event_starts`) were parsed from them. With duplicate filtering,
    /// a deployment that repeats the latest one of its series (same name and
    /// tenant, same resources) is answered with that one and nothing changes.
    /// Otherwise each definition is stored, the timer and event start
    /// subscriptions of the same key and tenant are replaced by the new ones,
    /// and the new deployment is registered and returned.
    pub fn execute(
        &self,
        ctx: &mut CommandContext,
        deployments: &mut Table<Deployment>,
        definitions: Vec<ProcessDefinition>,
        timer_starts: &mut Vec<TimerStartSubscription>,
        new_timer_starts: Vec<TimerStartSubscription>,
        event_starts: &mut Vec<ProcessEventStartSubscription>,
        new_event_starts: Vec<ProcessEventStartSubscription>,
    ) -> (r: Result<Deployment, FlowableError>)
        requires
            old(ctx).session.wf(),
            old(deployments).wf(),
        ensures
            final(ctx).session.wf(),
            final(deployments).wf(),
            final(ctx).config == old(ctx).config,
            final(ctx).now_ms == old(ctx).now_ms,
            final(ctx).events == old(ctx).events,
            repeats_latest(self.deployment_builder, old(deployments).rows@) ==> {
                let b = self.deployment_builder;
                &&& r is Ok
                &&& exists|i: int| is_latest(old(deployments).rows@, i, opt_view(b.name), opt_view(b.tenant_id))
                    && same_deployment_content(r->Ok_0, old(deployments).rows@[i]) && !r->Ok_0.is_new
                &&& *final(ctx) == *old(ctx)
                &&& *final(deployments) == *old(deployments)
                &&& final(timer_starts)@ == old(timer_starts)@
                &&& final(event_starts)@ == old(event_starts)@
            },
            !repeats_latest(self.deployment_builder, old(deployments).rows@) ==> {
                let b = self.deployment_builder;
                let d = r->Ok_0;
                &&& r is Ok
                &&& d.name == b.name
                &&& d.tenant_id == b.tenant_id
                &&& resource_views(d.resources@) == resource_views(b.resources@)
                &&& d.is_new
                &&& frame(old(ctx).session, final(ctx).session, set![StoreTable::ProcessDefinitions])
                &&& final(ctx).session.process_definitions@ == definitions_added(
                    old(ctx).session.process_definitions@,
                    definitions@,
                )
                &&& final(timer_starts)@ == kept_timer_starts(
                    old(timer_starts)@,
                    old(ctx).session.process_definitions@,
                    definitions@,
                ) + new_timer_starts@
                &&& final(event_starts)@ == kept_event_starts(old(event_starts)@, definitions@) + new_event_starts@
                &&& final(deployments)@.dom() == old(deployments)@.dom().insert(d.id@)
                &&& same_deployment_content(final(deployments)@[d.id@], d)
                &&& final(deployments)@[d.id@].is_new
                &&& forall|k: Seq<char>| k != d.id@ && #[trigger] old(deployments)@.contains_key(k)
                    ==> final(deployments)@[k] == old(deployments)@[k]
            },
    {
        let deployment = self.deployment_builder.deploy();
        if self.deployment_builder.enable_duplicate_filtering {
            if let Some(existing) = self.find_duplicate_deployment(&deployment, deployments) {
                return Ok(existing);
            }
        }
        retain_timer_starts(timer_starts, &ctx.session, &definitions);
        retain_event_starts(event_starts, &definitions);
        store_definitions(ctx, &definitions);
        let mut added_timers = new_timer_starts;
        timer_starts.append(&mut added_timers);
        let mut added_events = new_event_starts;
        event_starts.append(&mut added_events);
        let result = Deployment {
            id: deployment.id.clone(),
            name: clone_opt(&deployment.name),
            tenant_id: clone_opt(&deployment.tenant_id),
            deployment_time: deployment.deployment_time,
            resources: copy_resources(&deployment.resources),
            is_new: deployment.is_new,
        };
        deployments.upsert(deployment);
        Ok(result)
    }
}

/// After a deploy, no timer start subscription remains whose stored
/// definition has the key and the tenant (whatever it is) of a deployed
/// definition; the others stay, in their order.
pub proof fn deploy_drops_timer_starts_of_earlier_versions(
    subs: Seq<TimerStartSubscription>,
    stored: Map<Seq<char>, ProcessDefinition>,
    defs: Seq<ProcessDefinition>,
)
    ensures
        forall|k: int| 0 <= k < kept_timer_starts(subs, stored, defs).len() ==> {
            let s = #[trigger] kept_timer_starts(subs, stored, defs)[k];
            &&& subs.contains(s)
            &&& !(stored.contains_key(s.process_definition_id@) && exists|i: int| 0 <= i < defs.len()
                && (#[trigger] defs[i]).key@ == s.process_definition_key@
                && opt_view(defs[i].tenant_id) == opt_view(stored[s.process_definition_id@].tenant_id))
        },
        forall|s: TimerStartSubscription| subs.contains(s) && !stored.contains_key(s.process_definition_id@)
            && !(exists|i: int| 0 <= i < defs.len() && (#[trigger] defs[i]).key@ == s.process_definition_key@
                && defs[i].tenant_id is None) ==> #[trigger] kept_timer_starts(subs, stored, defs).contains(s),
    decreases subs.len(),
{
    if subs.len() > 0 {
        deploy_drops_timer_starts_of_earlier_versions(subs.drop_last(), stored, defs);
        let rest = kept_timer_starts(subs.drop_last(), stored, defs);
        let kept = kept_timer_starts(subs, stored, defs);
        assert forall|k: int| 0 <= k < kept.len() implies {
            let s = #[trigger] kept[k];
            &&& subs.contains(s)
            &&& !(stored.contains_key(s.process_definition_id@) && exists|i: int| 0 <= i < defs.len()
                && (#[trigger] defs[i]).key@ == s.process_definition_key@
                && opt_view(defs[i].tenant_id) == opt_view(stored[s.process_definition_id@].tenant_id))
        } by {
            if k < rest.len() {
                assert(kept[k] == rest[k]);
                let s = rest[k];
                let w = choose|w: int| 0 <= w < subs.drop_last().len() && subs.drop_last()[w] == s;
                assert(subs[w] == s);
            } else {
                assert(kept[k] == subs.last());
                assert(subs[subs.len() - 1] == subs.last());
            }
        }
        assert forall|s: TimerStartSubscription| subs.contains(s) && !stored.contains_key(s.process_definition_id@)
            && !(exists|i: int| 0 <= i < defs.len() && (#[trigger] defs[i]).key@ == s.process_definition_key@
                && defs[i].tenant_id is None) implies #[trigger] kept.contains(s) by {
            let w = choose|w: int| 0 <= w < subs.len() && subs[w] == s;
            if w < subs.len() - 1 {
                assert(subs.drop_last()[w] == s);
                assert(subs.drop_last().contains(s));
                assert(rest.contains(s));
                let k = choose|k: int| 0 <= k < rest.len() && rest[k] == s;
                assert(kept[k] == s);
            } else {
                assert(!replaced_by(s.process_definition_key@, timer_start_tenant(stored, s), defs));
                assert(kept[kept.len() - 1] == s);
            }
        }
    }
}

} // verus!
