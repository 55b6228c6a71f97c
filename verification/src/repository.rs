//! Editor models kept in the repository, with their source and extra
//! source, and the commands that create, read, update and delete them.
use vstd::prelude::*;
use crate::entities::{clone_opt, opt_view};
use crate::error::FlowableError;

verus! {

/// A model kept in the repository.
#[derive(Debug)]
pub struct RepositoryModel {
    pub id: String,
    pub name: Option<String>,
    pub key: Option<String>,
    pub category: Option<String>,
    pub tenant_id: Option<String>,
    pub create_time: i64,
    pub last_update_time: i64,
    pub source_content_type: String,
    pub source_extra_content_type: String,
}

/// Bytes stored for a model, with their content type.
#[derive(Debug)]
pub struct RepositoryModelBytes {
    pub content_type: String,
    pub bytes: Vec<u8>,
}

/// A model with its source and extra source.
#[derive(Debug)]
pub struct RepositoryModelEntry {
    pub model: RepositoryModel,
    pub source: Vec<u8>,
    pub source_extra: Vec<u8>,
}

/// The models of the repository, in insertion order.
#[derive(Debug)]
pub struct ModelRepository {
    pub entries: Vec<RepositoryModelEntry>,
}

/// The position of the first model with this id.
pub open spec fn model_index(entries: Seq<RepositoryModelEntry>, id: Seq<char>) -> Option<int>
    decreases entries.len(),
{
    if entries.len() == 0 {
        None
    } else {
        match model_index(entries.drop_last(), id) {
            Some(i) => Some(i),
            None => if entries.last().model.id@ == id { Some(entries.len() - 1) } else { None },
        }
    }
}

proof fn lemma_model_index_props(entries: Seq<RepositoryModelEntry>, id: Seq<char>)
    ensures
        model_index(entries, id) matches Some(i) ==> 0 <= i < entries.len() && entries[i].model.id@ == id,
    decreases entries.len(),
{
    if entries.len() > 0 {
        lemma_model_index_props(entries.drop_last(), id);
    }
}

fn find_index(entries: &Vec<RepositoryModelEntry>, id: &String) -> (r: Option<usize>)
    ensures
        match r {
            Some(i) => model_index(entries@, id@) == Some(i as int) && i < entries@.len(),
            None => model_index(entries@, id@) is None,
        },
{
    let mut i: usize = 0;
    while i < entries.len()
        invariant
            0 <= i <= entries.len(),
            model_index(entries@.take(i as int), id@) is None,
        decreases entries.len() - i,
    {
        proof {
            assert(entries@.take(i + 1).drop_last() =~= entries@.take(i as int));
            assert(entries@.take(i + 1).last() == entries@[i as int]);
        }
        if entries[i].model.id.eq(id) {
            proof {
                lemma_index_extend(entries@, id@, i + 1);
            }
            return Some(i);
        }
        i = i + 1;
    }
    proof {
        assert(entries@.take(entries.len() as int) =~= entries@);
    }
    None
}

proof fn lemma_index_extend(entries: Seq<RepositoryModelEntry>, id: Seq<char>, n: int)
    requires
        0 <= n <= entries.len(),
        model_index(entries.take(n), id) is Some,
    ensures
        model_index(entries, id) == model_index(entries.take(n), id),
    decreases entries.len() - n,
{
    if n < entries.len() {
        assert(entries.take(n + 1).drop_last() =~= entries.take(n));
        lemma_index_extend(entries, id, n + 1);
    } else {
        assert(entries.take(n) =~= entries);
    }
}

fn copy_bytes(b: &Vec<u8>) -> (r: Vec<u8>)
    ensures
        r@ == b@,
{
    let mut out: Vec<u8> = Vec::new();
    let mut i: usize = 0;
    while i < b.len()
        invariant
            0 <= i <= b.len(),
            out@ == b@.take(i as int),
        decreases b.len() - i,
    {
        out.push(b[i]);
        assert(b@.take(i + 1) =~= b@.take(i as int).push(b@[i as int]));
        i = i + 1;
    }
    assert(b@.take(b.len() as int) =~= b@);
    out
}

/// `a` holds what `b` holds.
pub open spec fn same_model(a: RepositoryModel, b: RepositoryModel) -> bool {
    &&& a.id@ == b.id@
    &&& opt_view(a.name) == opt_view(b.name)
    &&& opt_view(a.key) == opt_view(b.key)
    &&& opt_view(a.category) == opt_view(b.category)
    &&& opt_view(a.tenant_id) == opt_view(b.tenant_id)
    &&& a.create_time == b.create_time
    &&& a.last_update_time == b.last_update_time
    &&& a.source_content_type@ == b.source_content_type@
    &&& a.source_extra_content_type@ == b.source_extra_content_type@
}

fn copy_model(m: &RepositoryModel) -> (r: RepositoryModel)
    ensures
        same_model(r, *m),
{
    RepositoryModel {
        id: m.id.clone(),
        name: clone_opt(&m.name),
        key: clone_opt(&m.key),
        category: clone_opt(&m.category),
        tenant_id: clone_opt(&m.tenant_id),
        create_time: m.create_time,
        last_update_time: m.last_update_time,
        source_content_type: m.source_content_type.clone(),
        source_extra_content_type: m.source_extra_content_type.clone(),
    }
}

fn model_not_found(id: &String) -> (r: FlowableError)
    ensures
        r is NotFound && r->NotFound_0@ == "Model '"@ + id@ + "' was not found"@,
{
    FlowableError::NotFound(crate::text::cat3("Model '", id.as_str(), "' was not found"))
}

/// The update time of a model changed at `now`: `now`, but always after the
/// previous update.
pub open spec fn next_update_time(now: i64, previous: i64) -> int {
    if now >= previous + 1 { now as int } else { previous + 1 }
}

/// Creates a model (with a fresh random id when it has none).
#[derive(Debug)]
pub struct CreateRepositoryModelCmd {
    pub model: RepositoryModel,
}

impl CreateRepositoryModelCmd {
    pub fn new(model: RepositoryModel) -> (r: Self)
        ensures
            model.id@.len() > 0 ==> r.model == model,
            model.id@.len() == 0 ==> r.model == (RepositoryModel { id: r.model.id, ..model }),
    {
        let mut model = model;
        if model.id.unicode_len() == 0 {
            model.id = crate::outside::new_uuid();
        }
        CreateRepositoryModelCmd { model }
    }

    /// Stores the model, created and updated at `now`, with empty sources.
    pub fn run(&self, repository: &mut ModelRepository, now: i64) -> (r: RepositoryModel)
        ensures
            same_model(r, RepositoryModel { create_time: now, last_update_time: now, ..self.model }),
            final(repository).entries@.len() == old(repository).entries@.len() + 1,
            final(repository).entries@.drop_last() == old(repository).entries@,
            same_model(final(repository).entries@.last().model, r),
            final(repository).entries@.last().source@.len() == 0,
            final(repository).entries@.last().source_extra@.len() == 0,
    {
        let mut stored = copy_model(&self.model);
        stored.create_time = now;
        stored.last_update_time = now;
        let out = copy_model(&stored);
        repository.entries.push(RepositoryModelEntry { model: stored, source: Vec::new(), source_extra: Vec::new() });
        proof {
            assert(repository.entries@.drop_last() =~= old(repository).entries@);
        }
        out
    }
}

/// Replaces a model's fields.
#[derive(Debug)]
pub struct UpdateRepositoryModelCmd {
    pub model: RepositoryModel,
}

impl UpdateRepositoryModelCmd {
    pub fn new(model: RepositoryModel) -> (r: Self)
        ensures
            r.model == model,
    {
        UpdateRepositoryModelCmd { model }
    }

    /// The stored model takes the command's fields and an update time after
    /// the previous one; `NotFound` for an unknown model.
    pub fn run(&self, repository: &mut ModelRepository, now: i64) -> (r: Result<RepositoryModel, FlowableError>)
        requires
            forall|i: int| 0 <= i < old(repository).entries@.len() ==> (#[trigger] old(repository).entries@[i]).model.last_update_time < i64::MAX,
        ensures
            r is Ok <==> model_index(old(repository).entries@, self.model.id@) is Some,
            r matches Err(e) ==> e is NotFound && *final(repository) == *old(repository),
            r matches Ok(m) ==> {
                let i = model_index(old(repository).entries@, self.model.id@)->0;
                let prev = old(repository).entries@[i].model.last_update_time;
                &&& same_model(m, RepositoryModel { last_update_time: next_update_time(now, prev) as i64, ..self.model })
                &&& final(repository).entries@.len() == old(repository).entries@.len()
                &&& same_model(final(repository).entries@[i].model, m)
                &&& final(repository).entries@[i].source == old(repository).entries@[i].source
                &&& final(repository).entries@[i].source_extra == old(repository).entries@[i].source_extra
                &&& forall|j: int| 0 <= j < old(repository).entries@.len() && j != i ==> final(repository).entries@[j]
                    == old(repository).entries@[j]
            },
    {
        let i = match find_index(&repository.entries, &self.model.id) {
            Some(i) => i,
            None => return Err(model_not_found(&self.model.id)),
        };
        proof {
            lemma_model_index_props(repository.entries@, self.model.id@);
        }
        let prev = repository.entries[i].model.last_update_time;
        let next = if now >= prev + 1 { now } else { prev + 1 };
        let mut m = copy_model(&self.model);
        m.last_update_time = next;
        let out = copy_model(&m);
        repository.entries[i].model = m;
        Ok(out)
    }
}

/// Deletes a model.
#[derive(Debug)]
pub struct DeleteRepositoryModelCmd {
    pub model_id: String,
}

impl DeleteRepositoryModelCmd {
    pub fn new(model_id: String) -> (r: Self)
        ensures
            r.model_id == model_id,
    {
        DeleteRepositoryModelCmd { model_id }
    }

    /// Removes the model; `NotFound` for an unknown model.
    pub fn run(&self, repository: &mut ModelRepository) -> (r: Result<(), FlowableError>)
        ensures
            r is Ok <==> model_index(old(repository).entries@, self.model_id@) is Some,
            r matches Err(e) ==> e is NotFound && *final(repository) == *old(repository),
            r is Ok ==> final(repository).entries@ == old(repository).entries@.remove(
                model_index(old(repository).entries@, self.model_id@)->0,
            ),
    {
        match find_index(&repository.entries, &self.model_id) {
            Some(i) => {
                let _ = repository.entries.remove(i);
                Ok(())
            },
            None => Err(model_not_found(&self.model_id)),
        }
    }
}

/// Lists all models.
#[derive(Debug)]
pub struct GetRepositoryModelsCmd {}

impl GetRepositoryModelsCmd {
    /// The stored models, in order.
    pub fn run(&self, repository: &ModelRepository) -> (r: Vec<RepositoryModel>)
        ensures
            r@.len() == repository.entries@.len(),
            forall|i: int| 0 <= i < r@.len() ==> same_model(#[trigger] r@[i], repository.entries@[i].model),
    {
        let mut out: Vec<RepositoryModel> = Vec::new();
        let mut i: usize = 0;
        while i < repository.entries.len()
            invariant
                0 <= i <= repository.entries.len(),
                out@.len() == i,
                forall|j: int| 0 <= j < i ==> same_model(#[trigger] out@[j], repository.entries@[j].model),
            decreases repository.entries.len() - i,
        {
            out.push(copy_model(&repository.entries[i].model));
            i = i + 1;
        }
        out
    }
}

/// Reads one model.
#[derive(Debug)]
pub struct GetRepositoryModelCmd {
    pub model_id: String,
}

impl GetRepositoryModelCmd {
    pub fn new(model_id: String) -> (r: Self)
        ensures
            r.model_id == model_id,
    {
        GetRepositoryModelCmd { model_id }
    }

    pub fn run(&self, repository: &ModelRepository) -> (r: Result<RepositoryModel, FlowableError>)
        ensures
            r is Ok <==> model_index(repository.entries@, self.model_id@) is Some,
            r matches Ok(m) ==> same_model(m, repository.entries@[model_index(repository.entries@, self.model_id@)->0].model),
            r matches Err(e) ==> e is NotFound,
    {
        match find_index(&repository.entries, &self.model_id) {
            Some(i) => Ok(copy_model(&repository.entries[i].model)),
            None => Err(model_not_found(&self.model_id)),
        }
    }
}

/// Reads a model's source.
#[derive(Debug)]
pub struct GetRepositoryModelSourceCmd {
    pub model_id: String,
}

impl GetRepositoryModelSourceCmd {
    pub fn new(model_id: String) -> (r: Self)
        ensures
            r.model_id == model_id,
    {
        GetRepositoryModelSourceCmd { model_id }
    }

    /// The source bytes with their content type; `NotFound` for an unknown model.
    pub fn run(&self, repository: &ModelRepository) -> (r: Result<RepositoryModelBytes, FlowableError>)
        ensures
            r is Ok <==> model_index(repository.entries@, self.model_id@) is Some,
            r matches Ok(b) ==> {
                let e = repository.entries@[model_index(repository.entries@, self.model_id@)->0];
                b.bytes@ == e.source@ && b.content_type@ == e.model.source_content_type@
            },
            r matches Err(e) ==> e is NotFound,
    {
        match find_index(&repository.entries, &self.model_id) {
            Some(i) => Ok(RepositoryModelBytes {
                content_type: repository.entries[i].model.source_content_type.clone(),
                bytes: copy_bytes(&repository.entries[i].source),
            }),
            None => Err(FlowableError::NotFound(crate::text::cat3(
                "Source for model '",
                self.model_id.as_str(),
                "' was not found",
            ))),
        }
    }
}

/// Replaces a model's source.
#[derive(Debug)]
pub struct UpdateRepositoryModelSourceCmd {
    pub model_id: String,
    pub content_type: String,
    pub bytes: Vec<u8>,
}

impl UpdateRepositoryModelSourceCmd {
    pub fn new(model_id: String, content_type: String, bytes: Vec<u8>) -> (r: Self)
        ensures
            r.model_id == model_id,
            r.content_type == content_type,
            r.bytes == bytes,
    {
        UpdateRepositoryModelSourceCmd { model_id, content_type, bytes }
    }

    /// Stores the new source and its content type, moving the update time on.
    pub fn run(&self, repository: &mut ModelRepository, now: i64) -> (r: Result<(), FlowableError>)
        requires
            forall|i: int| 0 <= i < old(repository).entries@.len() ==> (#[trigger] old(repository).entries@[i]).model.last_update_time < i64::MAX,
        ensures
            r is Ok <==> model_index(old(repository).entries@, self.model_id@) is Some,
            r matches Err(e) ==> e is NotFound && *final(repository) == *old(repository),
            r is Ok ==> {
                let i = model_index(old(repository).entries@, self.model_id@)->0;
                let before = old(repository).entries@[i];
                let after = final(repository).entries@[i];
                &&& final(repository).entries@.len() == old(repository).entries@.len()
                &&& after.source@ == self.bytes@
                &&& after.source_extra == before.source_extra
                &&& same_model(after.model, RepositoryModel {
                    last_update_time: next_update_time(now, before.model.last_update_time) as i64,
                    source_content_type: self.content_type,
                    ..before.model
                })
                &&& forall|j: int| 0 <= j < old(repository).entries@.len() && j != i ==> final(repository).entries@[j]
                    == old(repository).entries@[j]
            },
    {
        let i = match find_index(&repository.entries, &self.model_id) {
            Some(i) => i,
            None => return Err(model_not_found(&self.model_id)),
        };
        proof {
            lemma_model_index_props(repository.entries@, self.model_id@);
        }
        let prev = repository.entries[i].model.last_update_time;
        let next = if now >= prev + 1 { now } else { prev + 1 };
        let mut m = copy_model(&repository.entries[i].model);
        m.last_update_time = next;
        m.source_content_type = self.content_type.clone();
        repository.entries[i].model = m;
        repository.entries[i].source = copy_bytes(&self.bytes);
        Ok(())
    }
}

/// Reads a model's extra source.
#[derive(Debug)]
pub struct GetRepositoryModelSourceExtraCmd {
    pub model_id: String,
}

impl GetRepositoryModelSourceExtraCmd {
    pub fn new(model_id: String) -> (r: Self)
        ensures
            r.model_id == model_id,
    {
        GetRepositoryModelSourceExtraCmd { model_id }
    }

    pub fn run(&self, repository: &ModelRepository) -> (r: Result<RepositoryModelBytes, FlowableError>)
        ensures
            r is Ok <==> model_index(repository.entries@, self.model_id@) is Some,
            r matches Ok(b) ==> {
                let e = repository.entries@[model_index(repository.entries@, self.model_id@)->0];
                b.bytes@ == e.source_extra@ && b.content_type@ == e.model.source_extra_content_type@
            },
            r matches Err(e) ==> e is NotFound,
    {
        match find_index(&repository.entries, &self.model_id) {
            Some(i) => Ok(RepositoryModelBytes {
                content_type: repository.entries[i].model.source_extra_content_type.clone(),
                bytes: copy_bytes(&repository.entries[i].source_extra),
            }),
            None => Err(FlowableError::NotFound(crate::text::cat3(
                "Source extra for model '",
                self.model_id.as_str(),
                "' was not found",
            ))),
        }
    }
}

/// Replaces a model's extra source.
#[derive(Debug)]
pub struct UpdateRepositoryModelSourceExtraCmd {
    pub model_id: String,
    pub content_type: String,
    pub bytes: Vec<u8>,
}

impl UpdateRepositoryModelSourceExtraCmd {
    pub fn new(model_id: String, content_type: String, bytes: Vec<u8>) -> (r: Self)
        ensures
            r.model_id == model_id,
            r.content_type == content_type,
            r.bytes == bytes,
    {
        UpdateRepositoryModelSourceExtraCmd { model_id, content_type, bytes }
    }

    /// Stores the new extra source and its content type, moving the update time on.
    pub fn run(&self, repository: &mut ModelRepository, now: i64) -> (r: Result<(), FlowableError>)
        requires
            forall|i: int| 0 <= i < old(repository).entries@.len() ==> (#[trigger] old(repository).entries@[i]).model.last_update_time < i64::MAX,
        ensures
            r is Ok <==> model_index(old(repository).entries@, self.model_id@) is Some,
            r matches Err(e) ==> e is NotFound && *final(repository) == *old(repository),
            r is Ok ==> {
                let i = model_index(old(repository).entries@, self.model_id@)->0;
                let before = old(repository).entries@[i];
                let after = final(repository).entries@[i];
                &&& final(repository).entries@.len() == old(repository).entries@.len()
                &&& after.source_extra@ == self.bytes@
                &&& after.source == before.source
                &&& same_model(after.model, RepositoryModel {
                    last_update_time: next_update_time(now, before.model.last_update_time) as i64,
                    source_extra_content_type: self.content_type,
                    ..before.model
                })
                &&& forall|j: int| 0 <= j < old(repository).entries@.len() && j != i ==> final(repository).entries@[j]
                    == old(repository).entries@[j]
            },
    {
        let i = match find_index(&repository.entries, &self.model_id) {
            Some(i) => i,
            None => return Err(model_not_found(&self.model_id)),
        };
        proof {
            lemma_model_index_props(repository.entries@, self.model_id@);
        }
        let prev = repository.entries[i].model.last_update_time;
        let next = if now >= prev + 1 { now } else { prev + 1 };
        let mut m = copy_model(&repository.entries[i].model);
        m.last_update_time = next;
        m.source_extra_content_type = self.content_type.clone();
        repository.entries[i].model = m;
        repository.entries[i].source_extra = copy_bytes(&self.bytes);
        Ok(())
    }
}

} // verus!
