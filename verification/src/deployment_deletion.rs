//! What deleting a deployment decides: which instances a cascade removes,
//! and which earlier definition versions get their start events back.
use vstd::prelude::*;
use crate::deployments::{DeleteDeploymentCmd, Deployment};
use crate::entities::{clone_opt, opt_eq, opt_view, ProcessInstance};
use crate::error::FlowableError;
use crate::store::Table;

verus! {

/// A deployed process definition as deployment deletion reads it.
#[derive(Debug)]
pub struct DeployedDefinition {
    pub id: String,
    pub key: String,
    pub tenant_id: Option<String>,
    pub version: i32,
    pub deployment_id: Option<String>,
}

pub open spec fn in_deployment(d: DeployedDefinition, deployment_id: Seq<char>) -> bool {
    opt_view(d.deployment_id) == Some(deployment_id)
}

/// Whether two definitions share key and tenant.
pub open spec fn same_series(a: DeployedDefinition, b: DeployedDefinition) -> bool {
    a.key@ == b.key@ && opt_view(a.tenant_id) == opt_view(b.tenant_id)
}

/// Whether definition `i` is the latest of its series.
pub open spec fn latest_of_series(defs: Seq<DeployedDefinition>, i: int) -> bool {
    forall|j: int| 0 <= j < defs.len() && same_series(#[trigger] defs[j], defs[i]) ==> defs[j].version < defs[i].version
        || defs[j].id@ == defs[i].id@
}

/// Among the first `n` definitions, the one of `defs[i]`'s series with the
/// highest version below it (the last such on ties).
pub open spec fn previous_version(defs: Seq<DeployedDefinition>, i: int, n: int) -> Option<int>
    decreases n,
{
    if n <= 0 {
        None
    } else {
        let best = previous_version(defs, i, n - 1);
        let d = defs[n - 1];
        if same_series(d, defs[i]) && d.version < defs[i].version && (best is None || d.version
            >= defs[best->0].version) {
            Some(n - 1)
        } else {
            best
        }
    }
}

/// The definitions whose start events come back, as `(id, key, tenant)`:
/// for each definition of the deployment (among the first `n`) that is the
/// latest of its series, its previous version, when there is one.
pub open spec fn restore_plan(defs: Seq<DeployedDefinition>, deployment_id: Seq<char>, n: int) -> Seq<
    (Seq<char>, Seq<char>, Option<Seq<char>>),
>
    decreases n,
{
    if n <= 0 {
        Seq::empty()
    } else {
        let rest = restore_plan(defs, deployment_id, n - 1);
        let d = defs[n - 1];
        if in_deployment(d, deployment_id) && latest_of_series(defs, n - 1) {
            match previous_version(defs, n - 1, defs.len() as int) {
                Some(p) => rest.push((defs[p].id@, defs[p].key@, opt_view(defs[p].tenant_id))),
                None => rest,
            }
        } else {
            rest
        }
    }
}

fn series_match(a: &DeployedDefinition, b: &DeployedDefinition) -> (r: bool)
    ensures
        r == same_series(*a, *b),
{
    a.key.eq(&b.key) && opt_eq(&a.tenant_id, &b.tenant_id)
}

fn is_latest(defs: &Vec<DeployedDefinition>, i: usize) -> (r: bool)
    requires
        i < defs@.len(),
    ensures
        r == latest_of_series(defs@, i as int),
{
    let mut j: usize = 0;
    while j < defs.len()
        invariant
            0 <= j <= defs.len(),
            i < defs@.len(),
            forall|q: int| 0 <= q < j && same_series(#[trigger] defs@[q], defs@[i as int]) ==> defs@[q].version
                < defs@[i as int].version || defs@[q].id@ == defs@[i as int].id@,
        decreases defs.len() - j,
    {
        if series_match(&defs[j], &defs[i]) && !(defs[j].version < defs[i].version || defs[j].id.eq(&defs[i].id)) {
            return false;
        }
        j = j + 1;
    }
    true
}

fn previous_of(defs: &Vec<DeployedDefinition>, i: usize) -> (r: Option<usize>)
    requires
        i < defs@.len(),
    ensures
        match r {
            Some(p) => previous_version(defs@, i as int, defs@.len() as int) == Some(p as int) && p < defs@.len(),
            None => previous_version(defs@, i as int, defs@.len() as int) is None,
        },
{
    let mut best: Option<usize> = None;
    let mut n: usize = 0;
    while n < defs.len()
        invariant
            0 <= n <= defs.len(),
            i < defs@.len(),
            match best {
                Some(p) => previous_version(defs@, i as int, n as int) == Some(p as int) && p < n,
                None => previous_version(defs@, i as int, n as int) is None,
            },
        decreases defs.len() - n,
    {
        let d = &defs[n];
        let take = series_match(d, &defs[i]) && d.version < defs[i].version && match best {
            None => true,
            Some(p) => d.version >= defs[p].version,
        };
        if take {
            best = Some(n);
        }
        n = n + 1;
    }
    best
}

/// The definitions whose start events come back once the deployment is
/// gone (see [`restore_plan`]).
pub fn plan_start_event_restores(defs: &Vec<DeployedDefinition>, deployment_id: &String) -> (r: Vec<(String, String, Option<String>)>)
    ensures
        r@.map_values(|x: (String, String, Option<String>)| (x.0@, x.1@, opt_view(x.2))) == restore_plan(defs@,
            deployment_id@, defs@.len() as int),
{
    let mut out: Vec<(String, String, Option<String>)> = Vec::new();
    let mut k: usize = 0;
    while k < defs.len()
        invariant
            0 <= k <= defs.len(),
            out@.map_values(|x: (String, String, Option<String>)| (x.0@, x.1@, opt_view(x.2))) == restore_plan(defs@,
                deployment_id@, k as int),
        decreases defs.len() - k,
    {
        let d = &defs[k];
        let mine = match &d.deployment_id {
            Some(dep) => dep.eq(deployment_id),
            None => false,
        };
        if mine && is_latest(defs, k) {
            if let Some(p) = previous_of(defs, k) {
                let ghost prev = out@;
                let prev_def = &defs[p];
                out.push((prev_def.id.clone(), prev_def.key.clone(), clone_opt(&prev_def.tenant_id)));
                proof {
                    assert(out@ == prev.push(out@.last()));
                    assert(out@.map_values(|x: (String, String, Option<String>)| (x.0@, x.1@, opt_view(x.2))) =~= prev.map_values(
                        |x: (String, String, Option<String>)| (x.0@, x.1@, opt_view(x.2))).push((out@.last().0@,
                        out@.last().1@, opt_view(out@.last().2))));
                }
            }
        }
        k = k + 1;
    }
    out
}

/// The ids of the stored instances of the deployment's definitions, in
/// store order.
pub open spec fn cascade_ids(instances: Seq<ProcessInstance>, defs: Seq<DeployedDefinition>, deployment_id: Seq<char>) -> Seq<
    Seq<char>,
>
    decreases instances.len(),
{
    if instances.len() == 0 {
        Seq::empty()
    } else {
        let rest = cascade_ids(instances.drop_last(), defs, deployment_id);
        let pi = instances.last();
        if exists|j: int| 0 <= j < defs.len() && in_deployment(#[trigger] defs[j], deployment_id) && defs[j].id@
            == pi.process_definition_id@ {
            rest.push(pi.id@)
        } else {
            rest
        }
    }
}

fn definition_of_deployment(defs: &Vec<DeployedDefinition>, deployment_id: &String, definition_id: &String) -> (r: bool)
    ensures
        r == exists|j: int| 0 <= j < defs@.len() && in_deployment(#[trigger] defs@[j], deployment_id@) && defs@[j].id@
            == definition_id@,
{
    let mut j: usize = 0;
    while j < defs.len()
        invariant
            0 <= j <= defs.len(),
            forall|q: int| 0 <= q < j ==> !(in_deployment(#[trigger] defs@[q], deployment_id@) && defs@[q].id@
                == definition_id@),
        decreases defs.len() - j,
    {
        let mine = match &defs[j].deployment_id {
            Some(dep) => dep.eq(deployment_id),
            None => false,
        };
        if mine && defs[j].id.eq(definition_id) {
            return true;
        }
        j = j + 1;
    }
    false
}

impl DeleteDeploymentCmd {
    /// Checks that the deployment exists (`NotFound` otherwise) and plans
    /// the deletion: with cascade, the instances of its definitions to
    /// delete (none without); and the earlier versions whose start events
    /// are registered again.
    pub fn plan(
        &self,
        deployments: &Table<Deployment>,
        defs: &Vec<DeployedDefinition>,
        instances: &Vec<ProcessInstance>,
    ) -> (r: Result<(Vec<String>, Vec<(String, String, Option<String>)>), FlowableError>)
        requires
            deployments.wf(),
        ensures
            r is Ok <==> deployments@.contains_key(self.deployment_id@),
            r matches Err(e) ==> e is NotFound && e->NotFound_0@ == "Deployment '"@ + self.deployment_id@
                + "' was not found"@,
            r matches Ok((ids, restores)) ==> {
                &&& ids@.map_values(|s: String| s@) == (if self.cascade {
                    cascade_ids(instances@, defs@, self.deployment_id@)
                } else {
                    Seq::empty()
                })
                &&& restores@.map_values(|x: (String, String, Option<String>)| (x.0@, x.1@, opt_view(x.2)))
                    == restore_plan(defs@, self.deployment_id@, defs@.len() as int)
            },
    {
        if !deployments.contains(&self.deployment_id) {
            return Err(FlowableError::NotFound(crate::text::cat3(
                "Deployment '",
                self.deployment_id.as_str(),
                "' was not found",
            )));
        }
        let mut ids: Vec<String> = Vec::new();
        if self.cascade {
            let mut k: usize = 0;
            while k < instances.len()
                invariant
                    0 <= k <= instances.len(),
                    ids@.map_values(|s: String| s@) == cascade_ids(instances@.take(k as int), defs@, self.deployment_id@),
                decreases instances.len() - k,
            {
                proof {
                    assert(instances@.take(k + 1).drop_last() =~= instances@.take(k as int));
                    assert(instances@.take(k + 1).last() == instances@[k as int]);
                }
                let pi = &instances[k];
                if definition_of_deployment(defs, &self.deployment_id, &pi.process_definition_id) {
                    let ghost prev = ids@;
                    ids.push(pi.id.clone());
                    proof {
                        assert(ids@ == prev.push(ids@.last()));
                        assert(ids@.map_values(|s: String| s@) =~= prev.map_values(|s: String| s@).push(ids@.last()@));
                    }
                }
                k = k + 1;
            }
            proof {
                assert(instances@.take(instances.len() as int) =~= instances@);
            }
        }
        let restores = plan_start_event_restores(defs, &self.deployment_id);
        Ok((ids, restores))
    }
}

} // verus!
