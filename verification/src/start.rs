//! Starting process instances: choosing the definition, refusing suspended
//! ones, and creating the instance with its root execution (and, for an
//! asynchronous start, the job that runs its start event later).
use vstd::prelude::*;
use crate::command::CommandContext;
use crate::entities::{clone_opt, opt_eq, opt_view, Duplicate, Keyed, Execution, ProcessDefinition,
    ProcessInstance, RuntimeTimerJobState};
use crate::error::FlowableError;
use crate::ordering::{seq_le, str_le, lemma_seq_le_antisymmetric, lemma_seq_le_reflexive,
    lemma_seq_le_total, lemma_seq_le_transitive};
use crate::store::{frame, RuntimeStore, StoreTable};

verus! {

/// What a start request asks for.
#[derive(Debug)]
pub struct ProcessInstanceBuilder {
    pub process_definition_id: Option<String>,
    pub process_definition_key: Option<String>,
    pub tenant_id: Option<String>,
    pub name: Option<String>,
    pub business_key: Option<String>,
    pub business_status: Option<String>,
    pub start_user_id: Option<String>,
    pub callback_id: Option<String>,
    pub callback_type: Option<String>,
    pub reference_id: Option<String>,
    pub reference_type: Option<String>,
    pub super_execution_id: Option<String>,
}

/// Whether `a` is at least as recent a version as `b`: a higher version, or
/// the same version and an id that is not smaller.
pub open spec fn version_not_below(a: ProcessDefinition, b: ProcessDefinition) -> bool {
    a.version > b.version || (a.version == b.version && seq_le(b.id@, a.id@))
}

pub open spec fn keyed_match(d: ProcessDefinition, key: Seq<char>, tenant: Option<Seq<char>>) -> bool {
    d.key@ == key && opt_view(d.tenant_id) == tenant
}

/// The definition a request starts: the one it names by id (if stored);
/// else the latest version of its key within its tenant; none without
/// either.
pub open spec fn resolved_definition(store: RuntimeStore, b: ProcessInstanceBuilder, d: Option<ProcessDefinition>) -> bool {
    match b.process_definition_id {
        Some(id) => d == (if store.process_definitions@.contains_key(id@) {
            Some(store.process_definitions@[id@])
        } else {
            None::<ProcessDefinition>
        }),
        None => match b.process_definition_key {
            None => d is None,
            Some(key) => {
                let rows = store.process_definitions.rows@;
                match d {
                    None => forall|j: int| 0 <= j < rows.len() ==> !keyed_match(#[trigger] rows[j], key@, opt_view(b.tenant_id)),
                    Some(def) => exists|i: int| 0 <= i < rows.len() && def == rows[i] && keyed_match(#[trigger] rows[i], key@, opt_view(b.tenant_id))
                        && forall|j: int| 0 <= j < rows.len() && keyed_match(#[trigger] rows[j], key@, opt_view(b.tenant_id))
                        ==> version_not_below(rows[i], rows[j]),
                }
            },
        },
    }
}

proof fn lemma_resolved_unique(store: RuntimeStore, b: ProcessInstanceBuilder, d1: Option<ProcessDefinition>,
    d2: Option<ProcessDefinition>)
    requires
        store.wf(),
        resolved_definition(store, b, d1),
        resolved_definition(store, b, d2),
    ensures
        d1 == d2,
{
    if b.process_definition_id is None && b.process_definition_key is Some {
        let key = b.process_definition_key->0@;
        let tenant = opt_view(b.tenant_id);
        let rows = store.process_definitions.rows@;
        if d1 is Some && d2 is Some {
            let i1 = choose|i: int| 0 <= i < rows.len() && d1->0 == rows[i] && keyed_match(#[trigger] rows[i], key, tenant)
                && forall|j: int| 0 <= j < rows.len() && keyed_match(#[trigger] rows[j], key, tenant)
                ==> version_not_below(rows[i], rows[j]);
            let i2 = choose|i: int| 0 <= i < rows.len() && d2->0 == rows[i] && keyed_match(#[trigger] rows[i], key, tenant)
                && forall|j: int| 0 <= j < rows.len() && keyed_match(#[trigger] rows[j], key, tenant)
                ==> version_not_below(rows[i], rows[j]);
            assert(version_not_below(rows[i1], rows[i2]));
            assert(version_not_below(rows[i2], rows[i1]));
            lemma_seq_le_antisymmetric(rows[i1].id@, rows[i2].id@);
            assert(rows[i1].key() == rows[i2].key());
        } else if d1 is Some {
            let i1 = choose|i: int| 0 <= i < rows.len() && d1->0 == rows[i] && keyed_match(#[trigger] rows[i], key, tenant)
                && forall|j: int| 0 <= j < rows.len() && keyed_match(#[trigger] rows[j], key, tenant)
                ==> version_not_below(rows[i], rows[j]);
            assert(keyed_match(rows[i1], key, tenant));
        } else if d2 is Some {
            let i2 = choose|i: int| 0 <= i < rows.len() && d2->0 == rows[i] && keyed_match(#[trigger] rows[i], key, tenant)
                && forall|j: int| 0 <= j < rows.len() && keyed_match(#[trigger] rows[j], key, tenant)
                ==> version_not_below(rows[i], rows[j]);
            assert(keyed_match(rows[i2], key, tenant));
        }
    }
}

/// The definition a start request resolves to.
pub fn resolve_process_definition(store: &RuntimeStore, builder: &ProcessInstanceBuilder) -> (r: Option<ProcessDefinition>)
    requires
        store.wf(),
    ensures
        resolved_definition(*store, *builder, r),
{
    if let Some(id) = &builder.process_definition_id {
        return store.get_process_definition(id);
    }
    let key = match &builder.process_definition_key {
        Some(k) => k,
        None => return None,
    };
    let rows = &store.process_definitions.rows;
    let ghost tenant = opt_view(builder.tenant_id);
    let mut best: Option<usize> = None;
    let mut i: usize = 0;
    while i < rows.len()
        invariant
            0 <= i <= rows.len(),
            tenant == opt_view(builder.tenant_id),
            best is None ==> forall|j: int| 0 <= j < i ==> !keyed_match(#[trigger] rows@[j], key@, tenant),
            best matches Some(b) ==> b < i && keyed_match(rows@[b as int], key@, tenant)
                && forall|j: int| 0 <= j < i && keyed_match(#[trigger] rows@[j], key@, tenant)
                ==> version_not_below(rows@[b as int], rows@[j]),
        decreases rows.len() - i,
    {
        let d = &rows[i];
        if d.key.eq(key) && opt_eq(&d.tenant_id, &builder.tenant_id) {
            let take = match best {
                None => true,
                Some(b) => {
                    let cur = &rows[b];
                    d.version > cur.version || (d.version == cur.version && str_le(cur.id.as_str(), d.id.as_str()))
                },
            };
            proof {
                lemma_seq_le_reflexive(d.id@);
                if let Some(b) = best {
                    lemma_seq_le_total(rows@[b as int].id@, d.id@);
                    if take {
                        assert forall|j: int| 0 <= j < i + 1 && keyed_match(#[trigger] rows@[j], key@, tenant)
                            implies version_not_below(rows@[i as int], rows@[j]) by {
                            if j < i && rows@[j].version == d.version && rows@[b as int].version == d.version {
                                lemma_seq_le_transitive(rows@[j].id@, rows@[b as int].id@, d.id@);
                            }
                        }
                    }
                }
            }
            if take {
                best = Some(i);
            }
        }
        i = i + 1;
    }
    match best {
        Some(b) => Some(rows[b].duplicate()),
        None => None,
    }
}

/// The instance a start creates with `id` from `def` and the request.
pub open spec fn started_instance(id: Seq<char>, pi: ProcessInstance, def: ProcessDefinition, b: ProcessInstanceBuilder) -> bool {
    &&& pi.id@ == id
    &&& pi.name == b.name
    &&& pi.process_definition_id == def.id
    &&& pi.process_definition_key@ == (match b.process_definition_key { Some(k) => k@, None => def.key@ })
    &&& pi.business_key == b.business_key
    &&& pi.business_status == b.business_status
    &&& !pi.is_suspended
    &&& opt_view(pi.tenant_id) == (if b.tenant_id is Some { opt_view(b.tenant_id) } else { opt_view(def.tenant_id) })
    &&& pi.callback_id == b.callback_id
    &&& pi.callback_type == b.callback_type
    &&& pi.reference_id == b.reference_id
    &&& pi.reference_type == b.reference_type
    &&& !pi.is_ended
    &&& pi.super_execution_id == b.super_execution_id
}

/// The root execution of a new instance: it has the instance's id, no
/// parent, and waits in the start event (active unless started asynchronously).
pub open spec fn root_execution_of(e: Execution, pi: ProcessInstance, start_event_id: Seq<char>, active: bool) -> bool {
    &&& e.id@ == pi.id@
    &&& e.parent_id is None
    &&& opt_view(e.process_instance_id) == Some(pi.id@)
    &&& opt_view(e.process_definition_id) == Some(pi.process_definition_id@)
    &&& opt_view(e.activity_id) == Some(start_event_id)
    &&& !e.is_suspended
    &&& e.is_active == active
    &&& e.is_scope
    &&& !e.is_ended
}

/// Why a start request is refused: no definition, a suspended definition, or
/// no start event to begin in.
pub open spec fn start_refused(store: RuntimeStore, b: ProcessInstanceBuilder, override_start: Option<String>,
    model_start: Option<String>) -> bool {
    exists|d: Option<ProcessDefinition>| #[trigger] resolved_definition(store, b, d) && (d is None
        || d->0.is_suspended || (override_start is None && model_start is None))
}

/// The message refusing to start an instance of the suspended `def`.
pub open spec fn suspended_message(def: ProcessDefinition) -> Seq<char> {
    "Cannot start process instance. Process definition "@ + (match def.name {
        Some(n) => n@,
        None => "<unnamed>"@,
    }) + " (id = "@ + def.id@ + ") is suspended"@
}

fn suspended_error(def: &ProcessDefinition) -> (r: FlowableError)
    ensures
        r is ExecutionError,
        r->ExecutionError_0@ == suspended_message(*def),
{
    let name: &str = match &def.name {
        Some(n) => n.as_str(),
        None => "<unnamed>",
    };
    let mut m = crate::text::cat3("Cannot start process instance. Process definition ", name, " (id = ");
    m.append(def.id.as_str());
    m.append(") is suspended");
    FlowableError::ExecutionError(m)
}

fn new_instance(id: String, def: &ProcessDefinition, b: &ProcessInstanceBuilder) -> (r: ProcessInstance)
    ensures
        started_instance(id@, r, *def, *b),
{
    ProcessInstance {
        id,
        name: clone_opt(&b.name),
        process_definition_id: def.id.clone(),
        process_definition_key: match &b.process_definition_key {
            Some(k) => k.clone(),
            None => def.key.clone(),
        },
        business_key: clone_opt(&b.business_key),
        business_status: clone_opt(&b.business_status),
        is_suspended: false,
        tenant_id: match &b.tenant_id {
            Some(t) => Some(t.clone()),
            None => clone_opt(&def.tenant_id),
        },
        callback_id: clone_opt(&b.callback_id),
        callback_type: clone_opt(&b.callback_type),
        reference_id: clone_opt(&b.reference_id),
        reference_type: clone_opt(&b.reference_type),
        is_ended: false,
        super_execution_id: clone_opt(&b.super_execution_id),
    }
}

fn root_execution(pi: &ProcessInstance, start_event_id: &String, active: bool) -> (r: Execution)
    ensures
        root_execution_of(r, *pi, start_event_id@, active),
{
    Execution {
        id: pi.id.clone(),
        parent_id: None,
        process_instance_id: Some(pi.id.clone()),
        process_definition_id: Some(pi.process_definition_id.clone()),
        activity_id: Some(start_event_id.clone()),
        is_suspended: false,
        is_active: active,
        is_scope: true,
        is_ended: false,
    }
}

/// What starting an instance for request `b` (in the start event
/// `override_start`, else `model_start`) gives and leaves in the store:
/// refused (store unchanged) exactly when `start_refused` says so, else the
/// new instance and its active root execution are stored.
pub open spec fn start_outcome(before: RuntimeStore, after: RuntimeStore, b: ProcessInstanceBuilder, override_start: Option<String>,
    model_start: Option<String>, r: Result<ProcessInstance, FlowableError>) -> bool {
    &&& r is Err <==> start_refused(before, b, override_start, model_start)
    &&& r is Err ==> after == before
    &&& r matches Ok(pi) ==> exists|def: ProcessDefinition| #[trigger] resolved_definition(before, b, Some(def))
        && started_instance(pi.id@, pi, def, b)
        && after.process_instances@ == before.process_instances@.insert(pi.id@, pi)
        && after.executions@.contains_key(pi.id@)
        && after.executions@ == before.executions@.insert(pi.id@, after.executions@[pi.id@])
        && root_execution_of(after.executions@[pi.id@], pi, (match override_start {
            Some(s) => s@,
            None => model_start->0@,
        }), true)
        && frame(before, after, set![StoreTable::ProcessInstances, StoreTable::Executions])
}

/// Starts a process instance and runs it from its start event.
#[derive(Debug)]
pub struct StartProcessInstanceCmd {
    pub process_instance_builder: ProcessInstanceBuilder,
    pub override_start_event_id: Option<String>,
}

impl StartProcessInstanceCmd {
    pub fn new(process_instance_builder: ProcessInstanceBuilder) -> (r: Self)
        ensures
            r.process_instance_builder == process_instance_builder,
            r.override_start_event_id is None,
    {
        StartProcessInstanceCmd { process_instance_builder, override_start_event_id: None }
    }

    pub fn with_start_event_id(process_instance_builder: ProcessInstanceBuilder, start_event_id: String) -> (r: Self)
        ensures
            r.process_instance_builder == process_instance_builder,
            r.override_start_event_id == Some(start_event_id),
    {
        StartProcessInstanceCmd { process_instance_builder, override_start_event_id: Some(start_event_id) }
    }

    /// Creates the instance (with a fresh random id) and its active root
    /// execution in the start event: the command's own one, else the first
    /// start event of the deployed model (`model_start_event_id`).
    pub fn start(&self, ctx: &mut CommandContext, model_start_event_id: Option<String>) -> (r: Result<ProcessInstance, FlowableError>)
        requires
            old(ctx).session.wf(),
        ensures
            final(ctx).session.wf(),
            start_outcome(old(ctx).session, final(ctx).session, self.process_instance_builder, self.override_start_event_id,
                model_start_event_id, r),
    {
        let resolved = resolve_process_definition(&ctx.session, &self.process_instance_builder);
        let ghost rd = resolved;
        proof {
            assert(resolved_definition(old(ctx).session, self.process_instance_builder, rd));
            assert forall|d: Option<ProcessDefinition>| #[trigger] resolved_definition(old(ctx).session,
                self.process_instance_builder, d) implies d == rd by {
                lemma_resolved_unique(old(ctx).session, self.process_instance_builder, d, rd);
            }
        }
        let def = match resolved {
            Some(d) => d,
            None => {
                return Err(FlowableError::NotFound(String::from_str(
                    "No process definition found for process instance start request",
                )));
            },
        };
        if def.is_suspended {
            return Err(suspended_error(&def));
        }
        let start_event_id = match &self.override_start_event_id {
            Some(s) => s.clone(),
            None => match &model_start_event_id {
                Some(s) => s.clone(),
                None => {
                    return Err(FlowableError::NotFound(crate::text::cat(
                        "No StartEvent found in deployed model for process definition ID: ",
                        def.id.as_str(),
                    )));
                },
            },
        };
        let id = crate::outside::new_uuid();
        let pi = new_instance(id, &def, &self.process_instance_builder);
        let exec = root_execution(&pi, &start_event_id, true);
        let ghost e = exec;
        ctx.session.insert_execution(exec);
        ctx.session.insert_process_instance(pi.duplicate());
        proof {
            assert(ctx.session.executions@[pi.id@] == e);
        }
        Ok(pi)
    }
}

/// Starts a process instance whose start event runs later, in a job.
#[derive(Debug)]
pub struct StartProcessInstanceAsyncCmd {
    pub process_instance_builder: ProcessInstanceBuilder,
    pub override_start_event_id: Option<String>,
}

/// The job that runs an asynchronously started instance's start event: an
/// async continuation due now, not exclusive, with the configured retries.
pub open spec fn async_start_job(job: RuntimeTimerJobState, pi: ProcessInstance, start_event_id: Seq<char>, now: i64,
    retries: i32, category: Option<String>) -> bool {
    &&& job.process_instance_id@ == pi.id@
    &&& job.execution_id@ == pi.id@
    &&& job.activity_id@ == start_event_id
    &&& opt_view(job.job_state) == Some("async"@)
    &&& opt_view(job.time_duration) == Some(crate::jobs::async_continuation_marker())
    &&& !job.is_boundary
    &&& job.due_time == Some(now)
    &&& job.retries == Some(if retries < 0 { 0 } else { retries })
    &&& job.category == category
    &&& !job.exclusive
    &&& job.lock_owner is None
}

impl StartProcessInstanceAsyncCmd {
    pub fn new(process_instance_builder: ProcessInstanceBuilder) -> (r: Self)
        ensures
            r.process_instance_builder == process_instance_builder,
            r.override_start_event_id is None,
    {
        StartProcessInstanceAsyncCmd { process_instance_builder, override_start_event_id: None }
    }

    pub fn with_start_event_id(process_instance_builder: ProcessInstanceBuilder, start_event_id: String) -> (r: Self)
        ensures
            r.process_instance_builder == process_instance_builder,
            r.override_start_event_id == Some(start_event_id),
    {
        StartProcessInstanceAsyncCmd { process_instance_builder, override_start_event_id: Some(start_event_id) }
    }

    /// Creates the instance and its inactive root execution, and queues the
    /// async continuation that runs its start event; suspended definitions
    /// are not refused here. `category` is the job category of the process.
    pub fn start(
        &self,
        ctx: &mut CommandContext,
        model_start_event_id: Option<String>,
        category: Option<String>,
    ) -> (r: Result<ProcessInstance, FlowableError>)
        requires
            old(ctx).session.wf(),
        ensures
            final(ctx).session.wf(),
            r is Err ==> final(ctx).session == old(ctx).session,
            r matches Ok(pi) ==> exists|def: ProcessDefinition| #[trigger] resolved_definition(old(ctx).session,
                self.process_instance_builder, Some(def)) && started_instance(pi.id@, pi, def, self.process_instance_builder)
                && final(ctx).session.process_instances@ == old(ctx).session.process_instances@.insert(pi.id@, pi)
                && final(ctx).session.executions@.contains_key(pi.id@)
                && root_execution_of(final(ctx).session.executions@[pi.id@], pi, (match self.override_start_event_id {
                    Some(s) => s@,
                    None => model_start_event_id->0@,
                }), false)
                && exists|job_id: Seq<char>| #[trigger] final(ctx).session.timer_jobs@.contains_key(job_id)
                    && final(ctx).session.timer_jobs@ == old(ctx).session.timer_jobs@.insert(job_id, final(ctx).session.timer_jobs@[job_id])
                    && async_start_job(final(ctx).session.timer_jobs@[job_id], pi, (match self.override_start_event_id {
                        Some(s) => s@,
                        None => model_start_event_id->0@,
                    }), old(ctx).now_ms, old(ctx).config.number_of_retries, category),
            (exists|d: Option<ProcessDefinition>| #[trigger] resolved_definition(old(ctx).session, self.process_instance_builder, d)
                && (d is None || (self.override_start_event_id is None && model_start_event_id is None))) <==> r is Err,
    {
        let resolved = resolve_process_definition(&ctx.session, &self.process_instance_builder);
        let ghost rd = resolved;
        proof {
            assert(resolved_definition(old(ctx).session, self.process_instance_builder, rd));
            assert forall|d: Option<ProcessDefinition>| #[trigger] resolved_definition(old(ctx).session,
                self.process_instance_builder, d) implies d == rd by {
                lemma_resolved_unique(old(ctx).session, self.process_instance_builder, d, rd);
            }
        }
        let def = match resolved {
            Some(d) => d,
            None => {
                return Err(FlowableError::NotFound(String::from_str(
                    "No process definition found for async process instance start request",
                )));
            },
        };
        let start_event_id = match &self.override_start_event_id {
            Some(s) => s.clone(),
            None => match &model_start_event_id {
                Some(s) => s.clone(),
                None => {
                    return Err(FlowableError::NotFound(crate::text::cat(
                        "No StartEvent found in deployed model for process definition ID: ",
                        def.id.as_str(),
                    )));
                },
            },
        };
        let id = crate::outside::new_uuid();
        let pi = new_instance(id, &def, &self.process_instance_builder);
        let exec = root_execution(&pi, &start_event_id, false);
        let ghost e = exec;
        ctx.session.insert_execution(exec);
        let mut job = RuntimeTimerJobState::new(crate::outside::new_uuid(), pi.id.clone(), pi.id.clone(), start_event_id.clone());
        proof {
            reveal_strlit("async");
        }
        job.job_state = Some(String::from_str("async"));
        job.time_duration = Some(crate::text::owned(crate::jobs::async_continuation_job_type_marker()));
        job.due_time = Some(ctx.now_ms);
        job.retries = Some(if ctx.config.number_of_retries < 0 { 0 } else { ctx.config.number_of_retries });
        job.category = category;
        let ghost j = job;
        let ghost job_id = job.timer_job_id@;
        ctx.session.insert_timer_job_state(job);
        ctx.session.insert_process_instance(pi.duplicate());
        proof {
            assert(ctx.session.executions@[pi.id@] == e);
            assert(ctx.session.timer_jobs@[job_id] == j);
            assert(ctx.session.timer_jobs@ =~= old(ctx).session.timer_jobs@.insert(job_id, ctx.session.timer_jobs@[job_id]));
        }
        Ok(pi)
    }
}

} // verus!
