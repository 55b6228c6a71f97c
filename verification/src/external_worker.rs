//! External worker jobs: the checks made before a worker completes, fails
//! or unlocks a job it fetched, and what failing and unlocking write.
use vstd::prelude::*;
use crate::command::{Command, CommandContext};
use crate::entities::{opt_view, clone_opt, Duplicate, RuntimeTimerJobState};
use crate::error::FlowableError;
use crate::jobs::sat_add;
use crate::store::{frame, StoreTable};

verus! {

/// A worker's request to fetch and lock jobs.
#[derive(Debug)]
pub struct ExternalWorkerFetchAndLockRequest {
    pub worker_id: String,
    pub max_jobs: usize,
    pub lock_duration_ms: i64,
    pub topic: Option<String>,
}

/// A worker's report that its job ended in a BPMN error.
#[derive(Debug)]
pub struct ExternalWorkerBpmnErrorRequest {
    pub worker_id: String,
    pub error_code: String,
}

/// A worker's report that its job failed.
#[derive(Debug)]
pub struct ExternalWorkerFailureRequest {
    pub worker_id: String,
    pub error_message: Option<String>,
    pub error_details: Option<String>,
    /// The retries left; negative: one less than the job had.
    pub retries: i32,
    pub retry_duration_ms: i64,
}

/// A worker's request to terminate (or delete) a case job.
#[derive(Debug)]
pub struct ExternalWorkerCmmnTerminateRequest {
    pub worker_id: String,
    pub terminate: bool,
}

/// Why a worker may not act on a job.
pub enum LockRefusal {
    /// The job is not stored.
    Missing,
    /// Another worker holds the lock.
    OtherWorker,
    /// Nobody holds a lock.
    NotLocked,
}

pub open spec fn lock_check(store_jobs: Map<Seq<char>, RuntimeTimerJobState>, job_id: Seq<char>, worker_id: Seq<char>) -> Option<LockRefusal> {
    if !store_jobs.contains_key(job_id) {
        Some(LockRefusal::Missing)
    } else {
        match store_jobs[job_id].lock_owner {
            Some(o) => if o@ == worker_id { None } else { Some(LockRefusal::OtherWorker) },
            None => Some(LockRefusal::NotLocked),
        }
    }
}

/// The error kind each refusal is reported with.
pub open spec fn same_kind(e: FlowableError, refusal: LockRefusal) -> bool {
    match refusal {
        LockRefusal::Missing => e is NotFound,
        LockRefusal::OtherWorker => e is Forbidden,
        LockRefusal::NotLocked => e is BadRequest,
    }
}

/// The job a worker acts on, which must exist and be locked by that worker:
/// an unknown job is `NotFound`, one locked by another worker `Forbidden`,
/// an unlocked one `BadRequest`. An expired lock still counts.
pub fn load_locked_runtime_timer_job(
    store: &crate::store::RuntimeStore,
    job_id: &String,
    worker_id: &String,
) -> (r: Result<RuntimeTimerJobState, FlowableError>)
    requires
        store.wf(),
    ensures
        r is Ok <==> lock_check(store.timer_jobs@, job_id@, worker_id@) is None,
        r matches Ok(j) ==> j == store.timer_jobs@[job_id@],
        r matches Err(e) ==> same_kind(e, lock_check(store.timer_jobs@, job_id@, worker_id@)->0),
{
    let job = match store.find_timer_job_state(job_id) {
        Some(j) => j,
        None => {
            let mut m = crate::text::cat("external worker job ", job_id.as_str());
            m.append(" was not found in the supported runtime timer subset");
            return Err(FlowableError::NotFound(m));
        },
    };
    match &job.lock_owner {
        Some(owner) => {
            if !owner.eq(worker_id) {
                return Err(FlowableError::Forbidden(crate::text::cat3(
                    "external worker job ",
                    job_id.as_str(),
                    " is locked by a different worker",
                )));
            }
        },
        None => {
            return Err(FlowableError::BadRequest(crate::text::cat3(
                "external worker job ",
                job_id.as_str(),
                " is not locked",
            )));
        },
    }
    Ok(job)
}

/// Fetches and locks jobs for a worker.
#[derive(Debug)]
pub struct FetchAndLockExternalWorkerJobsCmd {
    pub request: ExternalWorkerFetchAndLockRequest,
}

impl FetchAndLockExternalWorkerJobsCmd {
    pub fn new(request: ExternalWorkerFetchAndLockRequest) -> (r: Self)
        ensures
            r.request == request,
    {
        FetchAndLockExternalWorkerJobsCmd { request }
    }

    /// A fetch needs a positive maximum and a positive lock duration.
    pub fn validate(&self) -> (r: Result<(), FlowableError>)
        ensures
            r is Ok <==> (self.request.max_jobs > 0 && self.request.lock_duration_ms > 0),
            r matches Err(e) ==> e is BadRequest,
    {
        if self.request.max_jobs == 0 {
            return Err(FlowableError::BadRequest(String::from_str("external worker fetch requires max_jobs > 0")));
        }
        if self.request.lock_duration_ms <= 0 {
            return Err(FlowableError::BadRequest(String::from_str(
                "external worker fetch requires lock_duration_ms > 0",
            )));
        }
        Ok(())
    }
}

/// Completes a worker's job with a BPMN error.
#[derive(Debug)]
pub struct CompleteExternalWorkerJobWithBpmnErrorCmd {
    pub job_id: String,
    pub request: ExternalWorkerBpmnErrorRequest,
}

impl CompleteExternalWorkerJobWithBpmnErrorCmd {
    pub fn new(job_id: String, request: ExternalWorkerBpmnErrorRequest) -> (r: Self)
        ensures
            r.job_id == job_id,
            r.request == request,
    {
        CompleteExternalWorkerJobWithBpmnErrorCmd { job_id, request }
    }

    /// The job the error is thrown from: the error code must not be blank,
    /// and the job must be locked by the reporting worker.
    pub fn error_source(&self, store: &crate::store::RuntimeStore) -> (r: Result<RuntimeTimerJobState, FlowableError>)
        requires
            store.wf(),
        ensures
            crate::text::trim(self.request.error_code@).len() == 0 ==> (r matches Err(e) && e is BadRequest),
            crate::text::trim(self.request.error_code@).len() > 0 ==> (r is Ok <==> lock_check(store.timer_jobs@,
                self.job_id@, self.request.worker_id@) is None),
            r matches Ok(j) ==> j == store.timer_jobs@[self.job_id@],
    {
        if crate::text::trim_str(self.request.error_code.as_str()).unicode_len() == 0 {
            return Err(FlowableError::BadRequest(String::from_str("external worker BPMN error requires errorCode")));
        }
        load_locked_runtime_timer_job(store, &self.job_id, &self.request.worker_id)
    }

    /// The error when neither an event subprocess nor a boundary event catches it.
    pub fn unhandled_error(&self) -> (r: FlowableError)
        ensures
            r is BadRequest && r->BadRequest_0@ == "external worker BPMN error was not handled: No matching BPMN error handler found for errorCode "@
                + self.request.error_code@,
    {
        FlowableError::BadRequest(crate::text::cat(
            "external worker BPMN error was not handled: No matching BPMN error handler found for errorCode ",
            self.request.error_code.as_str(),
        ))
    }
}

/// The errors a case engine reports.
#[derive(Debug)]
pub enum CmmnError {
    NotFound { message: String },
    Storage { message: String },
    Validation { message: String },
    UnsupportedModel { message: String },
    Execution { message: String },
    Conflict { message: String },
    NonUniqueResult { query: String, count: usize },
}

/// The engine error a case engine error stands for.
pub fn map_cmmn_external_worker_error(error: CmmnError) -> (r: FlowableError)
    ensures
        match error {
            CmmnError::NotFound { message } => r == FlowableError::NotFound(message),
            CmmnError::Storage { message } => r == FlowableError::Internal(message),
            CmmnError::Validation { message } => r == FlowableError::BadRequest(message),
            CmmnError::UnsupportedModel { message } => r == FlowableError::BadRequest(message),
            CmmnError::Execution { message } => r == FlowableError::BadRequest(message),
            CmmnError::Conflict { message } => r == FlowableError::Forbidden(message),
            CmmnError::NonUniqueResult { query, count } => r is BadRequest && r->BadRequest_0@
                == "non-unique result for "@ + query@ + ": "@ + crate::text::decimal(count as nat) + " matches"@,
        },
{
    match error {
        CmmnError::NotFound { message } => FlowableError::NotFound(message),
        CmmnError::Storage { message } => FlowableError::Internal(message),
        CmmnError::Validation { message } => FlowableError::BadRequest(message),
        CmmnError::UnsupportedModel { message } => FlowableError::BadRequest(message),
        CmmnError::Execution { message } => FlowableError::BadRequest(message),
        CmmnError::Conflict { message } => FlowableError::Forbidden(message),
        CmmnError::NonUniqueResult { query, count } => {
            let mut m = crate::text::cat3("non-unique result for ", query.as_str(), ": ");
            m.append(crate::text::u64_to_decimal(count as u64).as_str());
            m.append(" matches");
            FlowableError::BadRequest(m)
        },
    }
}

/// Terminates a case job through the case engine.
#[derive(Debug)]
pub struct TerminateExternalWorkerJobWithCmmnCmd {
    pub job_id: String,
    pub request: ExternalWorkerCmmnTerminateRequest,
}

impl TerminateExternalWorkerJobWithCmmnCmd {
    pub fn new(job_id: String, request: ExternalWorkerCmmnTerminateRequest) -> (r: Self)
        ensures
            r.job_id == job_id,
            r.request == request,
    {
        TerminateExternalWorkerJobWithCmmnCmd { job_id, request }
    }

    /// A process job cannot be terminated as a case job.
    pub fn check_not_process_job(&self, store: &crate::store::RuntimeStore) -> (r: Result<(), FlowableError>)
        requires
            store.wf(),
        ensures
            r is Ok <==> !store.timer_jobs@.contains_key(self.job_id@),
            r matches Err(e) ==> e is BadRequest,
    {
        if store.find_timer_job_state(&self.job_id).is_some() {
            return Err(FlowableError::BadRequest(crate::text::cat3(
                "external worker job ",
                self.job_id.as_str(),
                " is a BPMN runtime timer job and cannot be terminated with the CMMN terminate transition",
            )));
        }
        Ok(())
    }
}

/// Records a worker's failure of its job.
#[derive(Debug)]
pub struct HandleExternalWorkerFailureCmd {
    pub job_id: String,
    pub request: ExternalWorkerFailureRequest,
}

/// The job after a worker's failure report: the reported error, no lock,
/// and either the retries left with a due time after the retry wait, or
/// none left and the dead-letter state.
pub open spec fn failed_by_worker(job: RuntimeTimerJobState, req: ExternalWorkerFailureRequest, now: i64) -> (RuntimeTimerJobState, Option<Seq<char>>) {
    let retries: int = if req.retries >= 0 {
        req.retries as int
    } else {
        let had: int = match job.retries { Some(r) => r as int, None => 1 };
        if had == i32::MIN { had } else { had - 1 }
    };
    let base = RuntimeTimerJobState {
        error_message: req.error_message,
        error_details: req.error_details,
        lock_owner: None,
        lock_time: None,
        lock_expiration_time: None,
        ..job
    };
    if retries > 0 {
        (RuntimeTimerJobState {
            retries: Some(retries as i32),
            due_time: Some(sat_add(now as int, req.retry_duration_ms as int) as i64),
            ..base
        }, opt_view(job.job_state))
    } else {
        (RuntimeTimerJobState { retries: Some(0), ..base }, Some("deadletter"@))
    }
}

impl HandleExternalWorkerFailureCmd {
    pub fn new(job_id: String, request: ExternalWorkerFailureRequest) -> (r: Self)
        ensures
            r.job_id == job_id,
            r.request == request,
    {
        HandleExternalWorkerFailureCmd { job_id, request }
    }
}

impl Command<()> for HandleExternalWorkerFailureCmd {
    /// A negative retry wait is refused; then the job must be locked by the
    /// worker, and is rewritten as [`failed_by_worker`] says.
    fn execute(&self, ctx: &mut CommandContext) -> (r: Result<(), FlowableError>)
        ensures
            self.request.retry_duration_ms < 0 ==> (r matches Err(e) && e is BadRequest),
            self.request.retry_duration_ms >= 0 ==> (r is Ok <==> lock_check(old(ctx).session.timer_jobs@, self.job_id@,
                self.request.worker_id@) is None),
            r is Ok ==> {
                let row = final(ctx).session.timer_jobs@[self.job_id@];
                let expected = failed_by_worker(old(ctx).session.timer_jobs@[self.job_id@], self.request, old(ctx).now_ms);
                &&& final(ctx).session.timer_jobs@ == old(ctx).session.timer_jobs@.insert(self.job_id@, row)
                &&& row == (RuntimeTimerJobState { job_state: row.job_state, ..expected.0 })
                &&& opt_view(row.job_state) == expected.1
                &&& frame(old(ctx).session, final(ctx).session, set![StoreTable::TimerJobs])
            },
            r is Err ==> final(ctx).session == old(ctx).session,
    {
        if self.request.retry_duration_ms < 0 {
            return Err(FlowableError::BadRequest(String::from_str(
                "external worker failure requires retry_duration_ms >= 0",
            )));
        }
        let mut job = load_locked_runtime_timer_job(&ctx.session, &self.job_id, &self.request.worker_id)?;
        let new_retries: i32 = if self.request.retries >= 0 {
            self.request.retries
        } else {
            let had: i32 = match job.retries {
                Some(r) => r,
                None => 1,
            };
            if had == i32::MIN { had } else { had - 1 }
        };
        job.error_message = clone_opt(&self.request.error_message);
        job.error_details = clone_opt(&self.request.error_details);
        job.lock_owner = None;
        job.lock_time = None;
        job.lock_expiration_time = None;
        if new_retries > 0 {
            job.retries = Some(new_retries);
            job.due_time = Some(crate::jobs::saturating_add_i64(ctx.now_ms, self.request.retry_duration_ms));
        } else {
            job.retries = Some(0);
            proof {
                reveal_strlit("deadletter");
            }
            job.job_state = Some(String::from_str("deadletter"));
        }
        let ghost j = job;
        ctx.session.insert_timer_job_state(job);
        proof {
            assert(ctx.session.timer_jobs@[self.job_id@] == j);
        }
        Ok(())
    }
}

/// Releases a worker's lock on its job.
#[derive(Debug)]
pub struct UnlockExternalWorkerJobCmd {
    pub job_id: String,
    pub worker_id: String,
}

impl UnlockExternalWorkerJobCmd {
    pub fn new(job_id: String, worker_id: String) -> (r: Self)
        ensures
            r.job_id == job_id,
            r.worker_id == worker_id,
    {
        UnlockExternalWorkerJobCmd { job_id, worker_id }
    }
}

impl Command<()> for UnlockExternalWorkerJobCmd {
    /// The job, which must be locked by the worker, is stored unlocked.
    fn execute(&self, ctx: &mut CommandContext) -> (r: Result<(), FlowableError>)
        ensures
            r is Ok <==> lock_check(old(ctx).session.timer_jobs@, self.job_id@, self.worker_id@) is None,
            r is Ok ==> final(ctx).session.timer_jobs@ == old(ctx).session.timer_jobs@.insert(
                self.job_id@,
                crate::jobs::unlocked(old(ctx).session.timer_jobs@[self.job_id@]),
            ) && frame(old(ctx).session, final(ctx).session, set![StoreTable::TimerJobs]),
            r is Err ==> final(ctx).session == old(ctx).session,
    {
        let mut job = load_locked_runtime_timer_job(&ctx.session, &self.job_id, &self.worker_id)?;
        crate::jobs::clear_job_lock(&mut job);
        ctx.session.insert_timer_job_state(job);
        Ok(())
    }
}

} // verus!
