//! Deployments and their resources: reading them, and recognising a new
//! deployment that repeats the latest one of its series.
use vstd::prelude::*;
use crate::entities::{opt_view, opt_eq, clone_opt, Keyed};
use crate::error::FlowableError;
use crate::ordering::{seq_le, str_le, str_eq, lemma_seq_le_total, lemma_seq_le_transitive,
    lemma_seq_le_antisymmetric, lemma_seq_le_reflexive};
use crate::store::Table;

verus! {

/// A named resource of a deployment.
#[derive(Debug)]
pub struct DeploymentResource {
    pub name: String,
    pub bytes: Vec<u8>,
}

/// A deployment of process resources.
#[derive(Debug)]
pub struct Deployment {
    pub id: String,
    pub name: Option<String>,
    pub tenant_id: Option<String>,
    pub deployment_time: i64,
    pub resources: Vec<DeploymentResource>,
    /// Whether the deployment was made by this call (not found as a duplicate).
    pub is_new: bool,
}

impl Keyed for Deployment {
    open spec fn key(&self) -> Seq<char> {
        self.id@
    }

    fn key_ref(&self) -> (r: &String) {
        &self.id
    }
}

pub open spec fn resource_views(v: Seq<DeploymentResource>) -> Seq<(Seq<char>, Seq<u8>)> {
    v.map_values(|r: DeploymentResource| (r.name@, r.bytes@))
}

fn copy_bytes(b: &Vec<u8>) -> (r: Vec<u8>)
    ensures
        r@ == b@,
{
    let mut out: Vec<u8> = Vec::new();
    let mut i: usize = 0;
    while i < b.len()
        invariant
            0 <= i <= b.len(),
            out@ == b@.take(i as int),
        decreases b.len() - i,
    {
        out.push(b[i]);
        assert(b@.take(i + 1) =~= b@.take(i as int).push(b@[i as int]));
        i = i + 1;
    }
    assert(b@.take(b.len() as int) =~= b@);
    out
}

pub(crate) fn copy_resources(v: &Vec<DeploymentResource>) -> (r: Vec<DeploymentResource>)
    ensures
        resource_views(r@) == resource_views(v@),
{
    let mut out: Vec<DeploymentResource> = Vec::new();
    let mut i: usize = 0;
    while i < v.len()
        invariant
            0 <= i <= v.len(),
            resource_views(out@) == resource_views(v@.take(i as int)),
        decreases v.len() - i,
    {
        let ghost prev = out@;
        out.push(DeploymentResource { name: v[i].name.clone(), bytes: copy_bytes(&v[i].bytes) });
        proof {
            assert(out@ == prev.push(out@.last()));
            assert(resource_views(out@) =~= resource_views(prev).push((v@[i as int].name@, v@[i as int].bytes@)));
            assert(v@.take(i + 1) =~= v@.take(i as int).push(v@[i as int]));
            assert(resource_views(v@.take(i + 1)) =~= resource_views(v@.take(i as int)).push((v@[i as int].name@, v@[i as int].bytes@)));
        }
        i = i + 1;
    }
    assert(v@.take(v.len() as int) =~= v@);
    out
}

fn same_bytes(a: &Vec<u8>, b: &Vec<u8>) -> (r: bool)
    ensures
        r == (a@ == b@),
{
    if a.len() != b.len() {
        return false;
    }
    let mut i: usize = 0;
    while i < a.len()
        invariant
            0 <= i <= a.len(),
            a.len() == b.len(),
            forall|j: int| 0 <= j < i ==> a@[j] == b@[j],
        decreases a.len() - i,
    {
        if a[i] != b[i] {
            return false;
        }
        i = i + 1;
    }
    assert(a@ =~= b@);
    true
}

/// Whether two resource lists hold the same names and bytes in the same order.
pub fn same_resources(a: &Vec<DeploymentResource>, b: &Vec<DeploymentResource>) -> (r: bool)
    ensures
        r == (resource_views(a@) == resource_views(b@)),
{
    if a.len() != b.len() {
        proof {
            assert(resource_views(a@).len() != resource_views(b@).len());
        }
        return false;
    }
    let mut i: usize = 0;
    while i < a.len()
        invariant
            0 <= i <= a.len(),
            a.len() == b.len(),
            forall|j: int| 0 <= j < i ==> resource_views(a@)[j] == resource_views(b@)[j],
        decreases a.len() - i,
    {
        if !a[i].name.eq(&b[i].name) || !same_bytes(&a[i].bytes, &b[i].bytes) {
            proof {
                assert(resource_views(a@)[i as int] != resource_views(b@)[i as int]);
            }
            return false;
        }
        i = i + 1;
    }
    assert(resource_views(a@) =~= resource_views(b@));
    true
}

/// `a` holds what `b` holds: the same id, name, tenant, time and resources.
pub open spec fn same_deployment_content(a: Deployment, b: Deployment) -> bool {
    &&& a.id == b.id
    &&& a.name == b.name
    &&& a.tenant_id == b.tenant_id
    &&& a.deployment_time == b.deployment_time
    &&& resource_views(a.resources@) == resource_views(b.resources@)
}

/// Whether a deployment belongs to the candidate's series: same name, same tenant.
pub open spec fn same_series(d: Deployment, name: Option<Seq<char>>, tenant: Option<Seq<char>>) -> bool {
    opt_view(d.name) == name && opt_view(d.tenant_id) == tenant
}

/// Whether `a` is at least as late as `b`: a later time, or the same time
/// and an id that is not smaller.
pub open spec fn not_earlier(a: Deployment, b: Deployment) -> bool {
    a.deployment_time > b.deployment_time || (a.deployment_time == b.deployment_time && seq_le(b.id@, a.id@))
}

/// The index of the latest deployment of the series among `rows`.
pub open spec fn is_latest(rows: Seq<Deployment>, i: int, name: Option<Seq<char>>, tenant: Option<Seq<char>>) -> bool {
    &&& 0 <= i < rows.len()
    &&& same_series(rows[i], name, tenant)
    &&& forall|j: int| 0 <= j < rows.len() && same_series(#[trigger] rows[j], name, tenant) ==> not_earlier(rows[i], rows[j])
}

/// Creates a deployment from its builder's resources.
#[derive(Debug)]
pub struct DeploymentBuilder {
    pub name: Option<String>,
    pub tenant_id: Option<String>,
    pub category: Option<String>,
    pub resources: Vec<DeploymentResource>,
    pub enable_duplicate_filtering: bool,
}

/// Deploys the resources of a builder.
#[derive(Debug)]
pub struct DeployCmd {
    pub deployment_builder: DeploymentBuilder,
}

impl DeployCmd {
    pub fn new(deployment_builder: DeploymentBuilder) -> (r: Self)
        ensures
            r.deployment_builder == deployment_builder,
    {
        DeployCmd { deployment_builder }
    }

    /// The latest stored deployment of the candidate's series (name and
    /// tenant) when it holds exactly the candidate's resources, marked as not
    /// new; `None` when the series is empty or its latest deployment differs.
    pub fn find_duplicate_deployment(&self, candidate: &Deployment, deployments: &Table<Deployment>) -> (r: Option<Deployment>)
        requires
            deployments.wf(),
        ensures
            r is Some <==> exists|i: int| is_latest(deployments.rows@, i, opt_view(candidate.name), opt_view(candidate.tenant_id))
                && resource_views(deployments.rows@[i].resources@) == resource_views(candidate.resources@),
            r matches Some(d) ==> exists|i: int| is_latest(deployments.rows@, i, opt_view(candidate.name), opt_view(candidate.tenant_id))
                && same_deployment_content(d, deployments.rows@[i]) && !d.is_new,
    {
        let rows = &deployments.rows;
        let ghost name = opt_view(candidate.name);
        let ghost tenant = opt_view(candidate.tenant_id);
        let mut best: Option<usize> = None;
        let mut i: usize = 0;
        while i < rows.len()
            invariant
                0 <= i <= rows.len(),
                name == opt_view(candidate.name),
                tenant == opt_view(candidate.tenant_id),
                best is None ==> forall|j: int| 0 <= j < i ==> !same_series(#[trigger] rows@[j], name, tenant),
                best matches Some(b) ==> b < i && same_series(rows@[b as int], name, tenant)
                    && forall|j: int| 0 <= j < i && same_series(#[trigger] rows@[j], name, tenant)
                    ==> not_earlier(rows@[b as int], rows@[j]),
            decreases rows.len() - i,
        {
            let d = &rows[i];
            if opt_eq(&d.name, &candidate.name) && opt_eq(&d.tenant_id, &candidate.tenant_id) {
                let take = match best {
                    None => true,
                    Some(b) => {
                        let cur = &rows[b];
                        d.deployment_time > cur.deployment_time || (d.deployment_time == cur.deployment_time
                            && str_le(cur.id.as_str(), d.id.as_str()))
                    },
                };
                proof {
                    lemma_seq_le_reflexive(d.id@);
                    if let Some(b) = best {
                        lemma_seq_le_total(rows@[b as int].id@, d.id@);
                        if take {
                            assert forall|j: int| 0 <= j < i + 1 && same_series(#[trigger] rows@[j], name, tenant)
                                implies not_earlier(rows@[i as int], rows@[j]) by {
                                if j < i && rows@[j].deployment_time == d.deployment_time
                                    && rows@[b as int].deployment_time == d.deployment_time {
                                    lemma_seq_le_transitive(rows@[j].id@, rows@[b as int].id@, d.id@);
                                }
                            }
                        }
                    }
                }
                if take {
                    best = Some(i);
                }
            }
            i = i + 1;
        }
        match best {
            None => None,
            Some(b) => {
                let latest = &rows[b];
                if !same_resources(&latest.resources, &candidate.resources) {
                    proof {
                        assert forall|k: int| is_latest(rows@, k, name, tenant) implies k == b as int by {
                            assert(not_earlier(rows@[k], rows@[b as int]));
                            assert(not_earlier(rows@[b as int], rows@[k]));
                            if rows@[k].deployment_time == rows@[b as int].deployment_time {
                                lemma_seq_le_antisymmetric(rows@[k].id@, rows@[b as int].id@);
                                assert(rows@[k].key() == rows@[b as int].key());
                            }
                        }
                    }
                    return None;
                }
                let d = Deployment {
                    id: latest.id.clone(),
                    name: clone_opt(&latest.name),
                    tenant_id: clone_opt(&latest.tenant_id),
                    deployment_time: latest.deployment_time,
                    resources: copy_resources(&latest.resources),
                    is_new: false,
                };
                proof {
                    assert(is_latest(rows@, b as int, name, tenant));
                }
                Some(d)
            },
        }
    }
}

/// Deletes a deployment (and, with cascade, the instances of its definitions).
#[derive(Debug)]
pub struct DeleteDeploymentCmd {
    pub deployment_id: String,
    pub cascade: bool,
}

impl DeleteDeploymentCmd {
    pub fn new(deployment_id: String) -> (r: Self)
        ensures
            r.deployment_id == deployment_id,
            !r.cascade,
    {
        DeleteDeploymentCmd { deployment_id, cascade: false }
    }

    pub fn new_with_cascade(deployment_id: String, cascade: bool) -> (r: Self)
        ensures
            r.deployment_id == deployment_id,
            r.cascade == cascade,
    {
        DeleteDeploymentCmd { deployment_id, cascade }
    }
}

fn lookup<'a>(deployments: &'a Table<Deployment>, id: &String) -> (r: Option<&'a Deployment>)
    requires
        deployments.wf(),
    ensures
        r is Some <==> deployments@.contains_key(id@),
        r matches Some(d) ==> *d == deployments@[id@],
{
    match deployments.position(id) {
        Some(i) => Some(&deployments.rows[i]),
        None => None,
    }
}

fn not_found(deployment_id: &String) -> (r: FlowableError)
    ensures
        r is NotFound && r->NotFound_0@ == "Deployment '"@ + deployment_id@ + "' was not found"@,
{
    FlowableError::NotFound(crate::text::cat3("Deployment '", deployment_id.as_str(), "' was not found"))
}

/// Reads one deployment.
#[derive(Debug)]
pub struct GetDeploymentCmd {
    pub deployment_id: String,
}

impl GetDeploymentCmd {
    pub fn new(deployment_id: String) -> (r: Self)
        ensures
            r.deployment_id == deployment_id,
    {
        GetDeploymentCmd { deployment_id }
    }

    /// The stored deployment, or `NotFound`.
    pub fn run(&self, deployments: &Table<Deployment>) -> (r: Result<Deployment, FlowableError>)
        requires
            deployments.wf(),
        ensures
            r is Ok <==> deployments@.contains_key(self.deployment_id@),
            r matches Ok(d) ==> same_deployment_content(d, deployments@[self.deployment_id@])
                && d.is_new == deployments@[self.deployment_id@].is_new,
            r matches Err(e) ==> e is NotFound,
    {
        match lookup(deployments, &self.deployment_id) {
            Some(d) => Ok(Deployment {
                id: d.id.clone(),
                name: clone_opt(&d.name),
                tenant_id: clone_opt(&d.tenant_id),
                deployment_time: d.deployment_time,
                resources: copy_resources(&d.resources),
                is_new: d.is_new,
            }),
            None => Err(not_found(&self.deployment_id)),
        }
    }
}

/// Lists the resource names of a deployment.
#[derive(Debug)]
pub struct GetDeploymentResourceNamesCmd {
    pub deployment_id: String,
}

impl GetDeploymentResourceNamesCmd {
    pub fn new(deployment_id: String) -> (r: Self)
        ensures
            r.deployment_id == deployment_id,
    {
        GetDeploymentResourceNamesCmd { deployment_id }
    }

    /// The names of the deployment's resources in order; none for an unknown deployment.
    pub fn run(&self, deployments: &Table<Deployment>) -> (r: Vec<String>)
        requires
            deployments.wf(),
        ensures
            !deployments@.contains_key(self.deployment_id@) ==> r@.len() == 0,
            deployments@.contains_key(self.deployment_id@) ==> r@.map_values(|s: String| s@)
                == deployments@[self.deployment_id@].resources@.map_values(|x: DeploymentResource| x.name@),
    {
        let mut out: Vec<String> = Vec::new();
        match lookup(deployments, &self.deployment_id) {
            None => out,
            Some(d) => {
                let mut i: usize = 0;
                while i < d.resources.len()
                    invariant
                        0 <= i <= d.resources.len(),
                        out@.map_values(|s: String| s@) == d.resources@.take(i as int).map_values(|x: DeploymentResource| x.name@),
                    decreases d.resources.len() - i,
                {
                    let ghost prev = out@;
                    out.push(d.resources[i].name.clone());
                    proof {
                        assert(out@ == prev.push(out@.last()));
                        assert(out@.map_values(|s: String| s@) =~= prev.map_values(|s: String| s@).push(d.resources@[i as int].name@));
                        assert(d.resources@.take(i + 1) =~= d.resources@.take(i as int).push(d.resources@[i as int]));
                        assert(d.resources@.take(i + 1).map_values(|x: DeploymentResource| x.name@) =~= d.resources@.take(i as int).map_values(|x: DeploymentResource| x.name@).push(d.resources@[i as int].name@));
                    }
                    i = i + 1;
                }
                assert(d.resources@.take(d.resources.len() as int) =~= d.resources@);
                out
            },
        }
    }
}

/// Reads all resources of a deployment.
#[derive(Debug)]
pub struct GetDeploymentResourcesCmd {
    pub deployment_id: String,
}

impl GetDeploymentResourcesCmd {
    pub fn new(deployment_id: String) -> (r: Self)
        ensures
            r.deployment_id == deployment_id,
    {
        GetDeploymentResourcesCmd { deployment_id }
    }

    /// The deployment's resources, or `NotFound`.
    pub fn run(&self, deployments: &Table<Deployment>) -> (r: Result<Vec<DeploymentResource>, FlowableError>)
        requires
            deployments.wf(),
        ensures
            r is Ok <==> deployments@.contains_key(self.deployment_id@),
            r matches Ok(v) ==> resource_views(v@) == resource_views(deployments@[self.deployment_id@].resources@),
            r matches Err(e) ==> e is NotFound,
    {
        match lookup(deployments, &self.deployment_id) {
            Some(d) => Ok(copy_resources(&d.resources)),
            None => Err(not_found(&self.deployment_id)),
        }
    }
}

/// Reads one named resource of a deployment.
#[derive(Debug)]
pub struct GetDeploymentResourceCmd {
    pub deployment_id: String,
    pub resource_name: String,
}

impl GetDeploymentResourceCmd {
    pub fn new(deployment_id: String, resource_name: String) -> (r: Self)
        ensures
            r.deployment_id == deployment_id,
            r.resource_name == resource_name,
    {
        GetDeploymentResourceCmd { deployment_id, resource_name }
    }

    /// The first resource of that name; `NotFound` for an unknown deployment
    /// or resource.
    pub fn run(&self, deployments: &Table<Deployment>) -> (r: Result<DeploymentResource, FlowableError>)
        requires
            deployments.wf(),
        ensures
            r is Ok <==> deployments@.contains_key(self.deployment_id@) && exists|i: int| 0 <= i
                < deployments@[self.deployment_id@].resources@.len()
                && (#[trigger] deployments@[self.deployment_id@].resources@[i]).name@ == self.resource_name@,
            r matches Ok(x) ==> x.name@ == self.resource_name@ && exists|i: int| 0 <= i
                < deployments@[self.deployment_id@].resources@.len()
                && x.bytes@ == (#[trigger] deployments@[self.deployment_id@].resources@[i]).bytes@
                && deployments@[self.deployment_id@].resources@[i].name@ == self.resource_name@
                && forall|j: int| 0 <= j < i ==> (#[trigger] deployments@[self.deployment_id@].resources@[j]).name@ != self.resource_name@,
            r matches Err(e) ==> e is NotFound,
    {
        let d = match lookup(deployments, &self.deployment_id) {
            Some(d) => d,
            None => return Err(not_found(&self.deployment_id)),
        };
        let mut i: usize = 0;
        while i < d.resources.len()
            invariant
                0 <= i <= d.resources.len(),
                deployments@.contains_key(self.deployment_id@),
                *d == deployments@[self.deployment_id@],
                forall|j: int| 0 <= j < i ==> (#[trigger] d.resources@[j]).name@ != self.resource_name@,
            decreases d.resources.len() - i,
        {
            if d.resources[i].name.eq(&self.resource_name) {
                return Ok(DeploymentResource { name: d.resources[i].name.clone(), bytes: copy_bytes(&d.resources[i].bytes) });
            }
            i = i + 1;
        }
        let mut m = crate::text::cat3("Resource '", self.resource_name.as_str(), "' was not found in deployment '");
        m.append(self.deployment_id.as_str());
        m.append("'");
        Err(FlowableError::NotFound(m))
    }
}

} // verus!
