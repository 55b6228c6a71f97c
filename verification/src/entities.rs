//! Runtime and history records the commands read and write, each held as plain
//! values, with a copy function whose result equals the original.
use vstd::prelude::*;

verus! {

/// A copy of an optional string.
pub fn clone_opt(o: &Option<String>) -> (r: Option<String>)
    ensures
        r == *o,
{
    match o {
        Some(s) => Some(s.clone()),
        None => None,
    }
}

/// A copy of a list of strings.
pub fn clone_strings(v: &Vec<String>) -> (r: Vec<String>)
    ensures
        r@ == v@,
{
    let mut out: Vec<String> = Vec::new();
    let mut i: usize = 0;
    while i < v.len()
        invariant
            0 <= i <= v.len(),
            out@ =~= v@.subrange(0, i as int),
        decreases v.len() - i,
    {
        out.push(v[i].clone());
        assert(v@.subrange(0, i + 1) =~= v@.subrange(0, i as int).push(v@[i as int]));
        i = i + 1;
    }
    assert(v@.subrange(0, v.len() as int) =~= v@);
    out
}

/// The view of an optional string.
pub open spec fn opt_view(o: Option<String>) -> Option<Seq<char>> {
    match o {
        Some(s) => Some(s@),
        None => None,
    }
}

/// Optional string equality on views.
pub fn opt_eq(a: &Option<String>, b: &Option<String>) -> (r: bool)
    ensures
        r == (opt_view(*a) == opt_view(*b)),
{
    match (a, b) {
        (Some(x), Some(y)) => x.eq(y),
        (None, None) => true,
        _ => false,
    }
}

/// A record with a string identity, as stored in one table of the store.
pub trait Keyed: Sized {
    spec fn key(&self) -> Seq<char>;

    fn key_ref(&self) -> (r: &String)
        ensures
            r@ == self.key(),
    ;
}

/// A record that can be copied into an equal value.
pub trait Duplicate: Sized {
    fn duplicate(&self) -> (r: Self)
        ensures
            r == *self,
    ;
}

/// A user task: its identity, where it runs and whether it is suspended.
#[derive(Debug)]
pub struct Task {
    pub id: String,
    pub process_instance_id: String,
    pub execution_id: String,
    pub task_definition_key: String,
    pub name: String,
    pub suspended: bool,
}

impl Task {
    /// A new, active task.
    pub fn new(
        id: String,
        process_instance_id: String,
        execution_id: String,
        task_definition_key: String,
        name: String,
    ) -> (r: Task)
        ensures
            r.id == id,
            r.process_instance_id == process_instance_id,
            r.execution_id == execution_id,
            r.task_definition_key == task_definition_key,
            r.name == name,
            !r.suspended,
    {
        Task { id, process_instance_id, execution_id, task_definition_key, name, suspended: false }
    }

    pub fn is_suspended(&self) -> (r: bool)
        ensures
            r == self.suspended,
    {
        self.suspended
    }

    pub fn set_suspension_state(&mut self, suspended: bool)
        ensures
            *final(self) == (Task { suspended, ..*old(self) }),
    {
        self.suspended = suspended;
    }
}

impl Keyed for Task {
    open spec fn key(&self) -> Seq<char> {
        self.id@
    }

    fn key_ref(&self) -> (r: &String) {
        &self.id
    }
}

impl Duplicate for Task {
    fn duplicate(&self) -> (r: Self) {
        Task {
            id: self.id.clone(),
            process_instance_id: self.process_instance_id.clone(),
            execution_id: self.execution_id.clone(),
            task_definition_key: self.task_definition_key.clone(),
            name: self.name.clone(),
            suspended: self.suspended,
        }
    }
}

/// A running (or ended) process instance.
#[derive(Debug)]
pub struct ProcessInstance {
    pub id: String,
    pub name: Option<String>,
    pub process_definition_id: String,
    pub process_definition_key: String,
    pub business_key: Option<String>,
    pub business_status: Option<String>,
    pub is_suspended: bool,
    pub tenant_id: Option<String>,
    pub callback_id: Option<String>,
    pub callback_type: Option<String>,
    pub reference_id: Option<String>,
    pub reference_type: Option<String>,
    pub is_ended: bool,
    /// The call activity execution of the parent instance that started this one.
    pub super_execution_id: Option<String>,
}

impl ProcessInstance {
    /// A new active, running instance of the given definition with no optional fields set.
    pub fn new(id: String, process_definition_id: String, process_definition_key: String) -> (r:
        ProcessInstance)
        ensures
            r.id == id,
            r.process_definition_id == process_definition_id,
            r.process_definition_key == process_definition_key,
            r.name is None,
            r.business_key is None,
            r.business_status is None,
            !r.is_suspended,
            r.tenant_id is None,
            r.callback_id is None,
            r.callback_type is None,
            r.reference_id is None,
            r.reference_type is None,
            !r.is_ended,
            r.super_execution_id is None,
    {
        ProcessInstance {
            id,
            name: None,
            process_definition_id,
            process_definition_key,
            business_key: None,
            business_status: None,
            is_suspended: false,
            tenant_id: None,
            callback_id: None,
            callback_type: None,
            reference_id: None,
            reference_type: None,
            is_ended: false,
            super_execution_id: None,
        }
    }
}

impl Keyed for ProcessInstance {
    open spec fn key(&self) -> Seq<char> {
        self.id@
    }

    fn key_ref(&self) -> (r: &String) {
        &self.id
    }
}

impl Duplicate for ProcessInstance {
    fn duplicate(&self) -> (r: Self) {
        ProcessInstance {
            id: self.id.clone(),
            name: clone_opt(&self.name),
            process_definition_id: self.process_definition_id.clone(),
            process_definition_key: self.process_definition_key.clone(),
            business_key: clone_opt(&self.business_key),
            business_status: clone_opt(&self.business_status),
            is_suspended: self.is_suspended,
            tenant_id: clone_opt(&self.tenant_id),
            callback_id: clone_opt(&self.callback_id),
            callback_type: clone_opt(&self.callback_type),
            reference_id: clone_opt(&self.reference_id),
            reference_type: clone_opt(&self.reference_type),
            is_ended: self.is_ended,
            super_execution_id: clone_opt(&self.super_execution_id),
        }
    }
}

/// A deployed process definition.
#[derive(Debug)]
pub struct ProcessDefinition {
    pub id: String,
    pub key: String,
    pub name: Option<String>,
    pub version: i32,
    pub is_suspended: bool,
    pub tenant_id: Option<String>,
}

impl Keyed for ProcessDefinition {
    open spec fn key(&self) -> Seq<char> {
        self.id@
    }

    fn key_ref(&self) -> (r: &String) {
        &self.id
    }
}

impl Duplicate for ProcessDefinition {
    fn duplicate(&self) -> (r: Self) {
        ProcessDefinition {
            id: self.id.clone(),
            key: self.key.clone(),
            name: clone_opt(&self.name),
            version: self.version,
            is_suspended: self.is_suspended,
            tenant_id: clone_opt(&self.tenant_id),
        }
    }
}

/// A runtime execution (token or scope) of a process instance.
#[derive(Debug)]
pub struct Execution {
    pub id: String,
    pub parent_id: Option<String>,
    pub process_instance_id: Option<String>,
    pub process_definition_id: Option<String>,
    pub activity_id: Option<String>,
    pub is_suspended: bool,
    pub is_active: bool,
    pub is_scope: bool,
    pub is_ended: bool,
}

impl Keyed for Execution {
    open spec fn key(&self) -> Seq<char> {
        self.id@
    }

    fn key_ref(&self) -> (r: &String) {
        &self.id
    }
}

impl Duplicate for Execution {
    fn duplicate(&self) -> (r: Self) {
        Execution {
            id: self.id.clone(),
            parent_id: clone_opt(&self.parent_id),
            process_instance_id: clone_opt(&self.process_instance_id),
            process_definition_id: clone_opt(&self.process_definition_id),
            activity_id: clone_opt(&self.activity_id),
            is_suspended: self.is_suspended,
            is_active: self.is_active,
            is_scope: self.is_scope,
            is_ended: self.is_ended,
        }
    }
}

/// A runtime job row: timers, async continuations, history and external-worker jobs.
#[derive(Debug)]
pub struct RuntimeTimerJobState {
    pub timer_job_id: String,
    pub process_instance_id: String,
    pub execution_id: String,
    pub activity_id: String,
    pub job_state: Option<String>,
    pub is_boundary: bool,
    pub attached_activity_id: Option<String>,
    pub cancel_activity: bool,
    pub time_duration: Option<String>,
    pub time_date: Option<String>,
    pub time_cycle: Option<String>,
    pub end_date: Option<String>,
    pub calendar_name: Option<String>,
    pub due_time: Option<i64>,
    pub lock_owner: Option<String>,
    pub lock_time: Option<i64>,
    pub lock_expiration_time: Option<i64>,
    pub retries: Option<i32>,
    pub error_message: Option<String>,
    pub error_details: Option<String>,
    pub category: Option<String>,
    pub tenant_id: Option<String>,
    pub exclusive: bool,
    pub handler_type: Option<String>,
}

impl RuntimeTimerJobState {
    /// A job of the given identity and placement with every optional field
    /// empty, no boundary, not interrupting and not exclusive.
    pub fn new(
        timer_job_id: String,
        process_instance_id: String,
        execution_id: String,
        activity_id: String,
    ) -> (r: Self)
        ensures
            r == (RuntimeTimerJobState {
                timer_job_id,
                process_instance_id,
                execution_id,
                activity_id,
                job_state: None,
                is_boundary: false,
                attached_activity_id: None,
                cancel_activity: false,
                time_duration: None,
                time_date: None,
                time_cycle: None,
                end_date: None,
                calendar_name: None,
                due_time: None,
                lock_owner: None,
                lock_time: None,
                lock_expiration_time: None,
                retries: None,
                error_message: None,
                error_details: None,
                category: None,
                tenant_id: None,
                exclusive: false,
                handler_type: None,
            }),
    {
        RuntimeTimerJobState {
            timer_job_id,
            process_instance_id,
            execution_id,
            activity_id,
            job_state: None,
            is_boundary: false,
            attached_activity_id: None,
            cancel_activity: false,
            time_duration: None,
            time_date: None,
            time_cycle: None,
            end_date: None,
            calendar_name: None,
            due_time: None,
            lock_owner: None,
            lock_time: None,
            lock_expiration_time: None,
            retries: None,
            error_message: None,
            error_details: None,
            category: None,
            tenant_id: None,
            exclusive: false,
            handler_type: None,
        }
    }
}

impl Keyed for RuntimeTimerJobState {
    open spec fn key(&self) -> Seq<char> {
        self.timer_job_id@
    }

    fn key_ref(&self) -> (r: &String) {
        &self.timer_job_id
    }
}

impl Duplicate for RuntimeTimerJobState {
    fn duplicate(&self) -> (r: Self) {
        RuntimeTimerJobState {
            timer_job_id: self.timer_job_id.clone(),
            process_instance_id: self.process_instance_id.clone(),
            execution_id: self.execution_id.clone(),
            activity_id: self.activity_id.clone(),
            job_state: clone_opt(&self.job_state),
            is_boundary: self.is_boundary,
            attached_activity_id: clone_opt(&self.attached_activity_id),
            cancel_activity: self.cancel_activity,
            time_duration: clone_opt(&self.time_duration),
            time_date: clone_opt(&self.time_date),
            time_cycle: clone_opt(&self.time_cycle),
            end_date: clone_opt(&self.end_date),
            calendar_name: clone_opt(&self.calendar_name),
            due_time: self.due_time,
            lock_owner: clone_opt(&self.lock_owner),
            lock_time: self.lock_time,
            lock_expiration_time: self.lock_expiration_time,
            retries: self.retries,
            error_message: clone_opt(&self.error_message),
            error_details: clone_opt(&self.error_details),
            category: clone_opt(&self.category),
            tenant_id: clone_opt(&self.tenant_id),
            exclusive: self.exclusive,
            handler_type: clone_opt(&self.handler_type),
        }
    }
}

/// The persisted type of a job row.
#[derive(Debug)]
pub enum RuntimeJobType {
    Timer,
    ExternalWorker,
    Other(String),
}

impl RuntimeJobType {
    pub fn duplicate(&self) -> (r: Self)
        ensures
            r == *self,
    {
        match self {
            RuntimeJobType::Timer => RuntimeJobType::Timer,
            RuntimeJobType::ExternalWorker => RuntimeJobType::ExternalWorker,
            RuntimeJobType::Other(s) => RuntimeJobType::Other(s.clone()),
        }
    }
}

/// The job type recorded for one job row.
#[derive(Debug)]
pub struct JobTypeEntry {
    pub timer_job_id: String,
    pub job_type: RuntimeJobType,
}

impl Keyed for JobTypeEntry {
    open spec fn key(&self) -> Seq<char> {
        self.timer_job_id@
    }

    fn key_ref(&self) -> (r: &String) {
        &self.timer_job_id
    }
}

impl Duplicate for JobTypeEntry {
    fn duplicate(&self) -> (r: Self) {
        JobTypeEntry { timer_job_id: self.timer_job_id.clone(), job_type: self.job_type.duplicate() }
    }
}

/// A comment on a task or a process instance.
#[derive(Debug)]
pub struct HistoricComment {
    pub id: String,
    pub task_id: Option<String>,
    pub process_instance_id: Option<String>,
    pub message: String,
    pub author: Option<String>,
    pub time: i64,
    pub action: Option<String>,
    pub comment_type: Option<String>,
}

impl HistoricComment {
    /// The comment type given to user comments when none is supplied.
    pub fn type_comment() -> (r: String)
        ensures
            r@ == "comment"@,
    {
        String::from_str("comment")
    }
}

impl Keyed for HistoricComment {
    open spec fn key(&self) -> Seq<char> {
        self.id@
    }

    fn key_ref(&self) -> (r: &String) {
        &self.id
    }
}

impl Duplicate for HistoricComment {
    fn duplicate(&self) -> (r: Self) {
        HistoricComment {
            id: self.id.clone(),
            task_id: clone_opt(&self.task_id),
            process_instance_id: clone_opt(&self.process_instance_id),
            message: self.message.clone(),
            author: clone_opt(&self.author),
            time: self.time,
            action: clone_opt(&self.action),
            comment_type: clone_opt(&self.comment_type),
        }
    }
}

/// An audit event recorded against a task.
#[derive(Debug)]
pub struct HistoricTaskEvent {
    pub id: String,
    pub task_id: String,
    pub action: String,
    pub message: Vec<String>,
    pub user_id: Option<String>,
    pub time: i64,
}

/// Two task events with the same fields and the same message lines.
pub open spec fn same_task_event(a: HistoricTaskEvent, b: HistoricTaskEvent) -> bool {
    &&& a.id == b.id
    &&& a.task_id == b.task_id
    &&& a.action == b.action
    &&& a.message@ == b.message@
    &&& a.user_id == b.user_id
    &&& a.time == b.time
}

impl HistoricTaskEvent {
    /// A copy of this event.
    pub fn copy(&self) -> (r: Self)
        ensures
            same_task_event(r, *self),
    {
        HistoricTaskEvent {
            id: self.id.clone(),
            task_id: self.task_id.clone(),
            action: self.action.clone(),
            message: clone_strings(&self.message),
            user_id: clone_opt(&self.user_id),
            time: self.time,
        }
    }
}

impl Keyed for HistoricTaskEvent {
    open spec fn key(&self) -> Seq<char> {
        self.id@
    }

    fn key_ref(&self) -> (r: &String) {
        &self.id
    }
}

} // verus!
