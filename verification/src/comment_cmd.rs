//! Comments and task events: adding, saving and deleting them.
use vstd::prelude::*;
use crate::command::{Command, CommandContext};
use crate::entities::{
    clone_opt, opt_view, Duplicate, HistoricComment, HistoricTaskEvent, Keyed, same_task_event,
};
use crate::error::FlowableError;
use crate::outside::new_uuid;
use crate::store::{frame, has_key, index_of, StoreTable};
use crate::text::{cat, cat3, push_char};

verus! {

/// The characters a regular expression's `\s` matches: space, tab, line
/// feed, vertical tab, form feed and carriage return.
pub open spec fn is_regex_space(c: char) -> bool {
    c == ' ' || c == '\t' || c == '\n' || c == '\u{b}' || c == '\u{c}' || c == '\r'
}

/// Whether `c` is one of the characters `\s` matches.
pub fn is_regex_space_char(c: char) -> (r: bool)
    ensures
        r == is_regex_space(c),
{
    c == ' ' || c == '\t' || c == '\n' || c == '\u{b}' || c == '\u{c}' || c == '\r'
}

/// Runs of `\s` characters collapsed into one space each.
pub open spec fn collapse_ws(s: Seq<char>) -> Seq<char>
    decreases s.len(),
{
    if s.len() == 0 {
        Seq::empty()
    } else if is_regex_space(s.last()) {
        if s.len() > 1 && is_regex_space(s[s.len() - 2]) {
            collapse_ws(s.drop_last())
        } else {
            collapse_ws(s.drop_last()).push(' ')
        }
    } else {
        collapse_ws(s.drop_last()).push(s.last())
    }
}

/// The event message recorded for a comment: runs of space, tab, line
/// feed, vertical tab, form feed and carriage return collapsed, and a
/// result longer than 163 characters cut to its first 160 plus `...`.
pub open spec fn event_message_spec(message: Seq<char>) -> Seq<char> {
    let c = collapse_ws(message);
    if c.len() > 163 {
        c.subrange(0, 160) + "..."@
    } else {
        c
    }
}

/// Normalizes a comment message for its task event: each run of space,
/// tab, line feed, vertical tab, form feed or carriage return becomes one
/// space (other whitespace, such as U+00A0, stays), and a result over 163 characters keeps its first 160 followed
/// by `...`.
pub fn normalize_comment_event_message(message: &str) -> (r: String)
    ensures
        r@ == event_message_spec(message@),
{
    let n = message.unicode_len();
    let mut collapsed = String::new();
    let mut prev_space = false;
    let mut i: usize = 0;
    while i < n
        invariant
            n == message@.len(),
            0 <= i <= n,
            collapsed@ == collapse_ws(message@.subrange(0, i as int)),
            prev_space == (i > 0 && is_regex_space(message@[i - 1])),
        decreases n - i,
    {
        let ch = message.get_char(i);
        let ghost pre = message@.subrange(0, i as int);
        let ghost next = message@.subrange(0, i + 1);
        assert(next.drop_last() =~= pre);
        assert(next.last() == ch);
        if i > 0 {
            assert(next[next.len() - 2] == message@[i - 1]);
        }
        if is_regex_space_char(ch) {
            if !prev_space {
                push_char(&mut collapsed, ' ');
                prev_space = true;
            }
        } else {
            push_char(&mut collapsed, ch);
            prev_space = false;
        }
        i = i + 1;
    }
    assert(message@.subrange(0, n as int) =~= message@);
    let count = collapsed.unicode_len();
    if count > 163 {
        let truncated = collapsed.as_str().substring_char(0, 160);
        proof {
            reveal_strlit("...");
        }
        cat(truncated, "...")
    } else {
        collapsed
    }
}

/// Adds a comment to a task, optionally also naming its process instance.
#[derive(Debug)]
pub struct CreateTaskCommentCmd {
    pub task_id: String,
    pub process_instance_id: Option<String>,
    /// `None`: a user comment of type `comment`.
    pub comment_type: Option<String>,
    pub message: String,
    pub author: Option<String>,
}

impl CreateTaskCommentCmd {
    pub fn new(
        task_id: String,
        process_instance_id: Option<String>,
        message: String,
        author: Option<String>,
    ) -> (r: Self)
        ensures
            r.task_id == task_id,
            r.process_instance_id == process_instance_id,
            r.comment_type is None,
            r.message == message,
            r.author == author,
    {
        Self::with_type(task_id, process_instance_id, None, message, author)
    }

    pub fn with_type(
        task_id: String,
        process_instance_id: Option<String>,
        comment_type: Option<String>,
        message: String,
        author: Option<String>,
    ) -> (r: Self)
        ensures
            r.task_id == task_id,
            r.process_instance_id == process_instance_id,
            r.comment_type == comment_type,
            r.message == message,
            r.author == author,
    {
        CreateTaskCommentCmd { task_id, process_instance_id, comment_type, message, author }
    }
}

/// The comment type stored: the one given, else `comment`.
pub open spec fn resolved_type(t: Option<String>) -> Option<Seq<char>> {
    match t {
        Some(s) => Some(s@),
        None => Some("comment"@),
    }
}

/// Why a comment on a process instance is refused, if it is.
pub open spec fn process_instance_refusal(
    ctx: CommandContext,
    pid: String,
) -> Option<FlowableError> {
    if !ctx.session.process_instances@.contains_key(pid@) {
        Some(FlowableError::NotFound(arbitrary()))
    } else if ctx.session.process_instances@[pid@].is_suspended {
        Some(FlowableError::ExecutionError(arbitrary()))
    } else {
        None
    }
}

/// Checks that the process instance exists and is active.
fn check_comment_process_instance(ctx: &CommandContext, pid: &String) -> (r: Result<(), FlowableError>)
    requires
        ctx.session.wf(),
    ensures
        !ctx.session.process_instances@.contains_key(pid@) <==> (r matches Err(FlowableError::NotFound(m)) && m@ == "execution "@ + pid@ + " doesn't exist"@),
        (ctx.session.process_instances@.contains_key(pid@) && ctx.session.process_instances@[pid@].is_suspended) <==> (r matches Err(FlowableError::ExecutionError(m)) && m@ == "Cannot add a comment to a suspended process instance '"@ + pid@ + "'"@),
        r is Ok <==> (ctx.session.process_instances@.contains_key(pid@) && !ctx.session.process_instances@[pid@].is_suspended),
{
    proof {
        reveal_strlit("execution ");
        reveal_strlit(" doesn't exist");
        reveal_strlit("Cannot add a comment to a suspended process instance '");
        reveal_strlit("'");
    }
    match ctx.session.find_process_instance(pid) {
        None => Err(FlowableError::NotFound(cat3("execution ", pid.as_str(), " doesn't exist"))),
        Some(pi) => {
            if pi.is_suspended {
                Err(
                    FlowableError::ExecutionError(
                        cat3(
                            "Cannot add a comment to a suspended process instance '",
                            pid.as_str(),
                            "'",
                        ),
                    ),
                )
            } else {
                Ok(())
            }
        },
    }
}

impl Command<HistoricComment> for CreateTaskCommentCmd {
    /// The task must exist and be active, and so must the process instance
    /// when one is named; then the comment (full message) and an `AddComment`
    /// task event (normalized message) are stored.
    fn execute(&self, ctx: &mut CommandContext) -> (r: Result<HistoricComment, FlowableError>)
        ensures
            !old(ctx).session.tasks@.contains_key(self.task_id@) <==> (r matches Err(
                FlowableError::NotFound(m),
            ) && m@ == "Cannot find task with id "@ + self.task_id@),
            (old(ctx).session.tasks@.contains_key(self.task_id@)
                && old(ctx).session.tasks@[self.task_id@].suspended) ==> (r matches Err(
                FlowableError::ExecutionError(m),
            ) && m@ == "Cannot add a comment to a suspended task '"@ + self.task_id@ + "'"@),
            r is Ok <==> (old(ctx).session.tasks@.contains_key(self.task_id@)
                && !old(ctx).session.tasks@[self.task_id@].suspended && (
            self.process_instance_id matches Some(pid) ==> process_instance_refusal(*old(ctx), pid) is None)),
            (old(ctx).session.tasks@.contains_key(self.task_id@)
                && !old(ctx).session.tasks@[self.task_id@].suspended
                && self.process_instance_id is Some) ==> match process_instance_refusal(*old(ctx), self.process_instance_id->0) {
                Some(FlowableError::NotFound(_)) => r matches Err(FlowableError::NotFound(m)) && m@ == "execution "@ + self.process_instance_id->0@ + " doesn't exist"@,
                Some(_) => r matches Err(FlowableError::ExecutionError(m)) && m@ == "Cannot add a comment to a suspended process instance '"@ + self.process_instance_id->0@ + "'"@,
                None => true,
            },
            r is Err ==> final(ctx).session == old(ctx).session,
            r matches Ok(c) ==> {
                &&& c.task_id == Some(self.task_id)
                &&& c.process_instance_id == self.process_instance_id
                &&& c.message == self.message
                &&& c.author == self.author
                &&& c.time == old(ctx).now_ms
                &&& c.action is None
                &&& opt_view(c.comment_type) == resolved_type(self.comment_type)
                &&& final(ctx).session.comments@ == old(ctx).session.comments@.insert(c.id@, c)
                &&& frame(old(ctx).session, final(ctx).session, set![StoreTable::Comments, StoreTable::TaskEvents])
                &&& exists|e: HistoricTaskEvent| {
                    &&& final(ctx).session.task_events@ == old(ctx).session.task_events@.insert(e.id@, e)
                    &&& e.task_id == self.task_id
                    &&& e.action@ == "AddComment"@
                    &&& e.message@.len() == 1
                    &&& e.message@[0]@ == event_message_spec(self.message@)
                    &&& e.user_id == self.author
                    &&& e.time == old(ctx).now_ms
                }
            },
            final(ctx).now_ms == old(ctx).now_ms,
            final(ctx).events == old(ctx).events,
    {
        proof {
            reveal_strlit("Cannot find task with id ");
            reveal_strlit("Cannot add a comment to a suspended task '");
            reveal_strlit("'");
            reveal_strlit("AddComment");
            reveal_strlit("comment");
        }
        let task = match ctx.session.find_task(&self.task_id) {
            Some(t) => t,
            None => {
                return Err(
                    FlowableError::NotFound(cat("Cannot find task with id ", self.task_id.as_str())),
                );
            },
        };
        if task.is_suspended() {
            return Err(
                FlowableError::ExecutionError(
                    cat3("Cannot add a comment to a suspended task '", self.task_id.as_str(), "'"),
                ),
            );
        }
        if let Some(pid) = &self.process_instance_id {
            match check_comment_process_instance(ctx, pid) {
                Ok(()) => {},
                Err(e) => {
                    proof {
                        reveal_strlit("execution ");
                        reveal_strlit(" doesn't exist");
                        if e is NotFound {
                            let m = e->NotFound_0@;
                            assert(m == "execution "@ + pid@ + " doesn't exist"@);
                            assert(m[0] == 'e');
                            assert(("Cannot find task with id "@ + self.task_id@)[0] == 'C');
                        }
                    }
                    return Err(e);
                },
            }
        }
        let resolved = match &self.comment_type {
            Some(t) => t.clone(),
            None => HistoricComment::type_comment(),
        };
        let comment = HistoricComment {
            id: new_uuid(),
            task_id: Some(self.task_id.clone()),
            process_instance_id: clone_opt(&self.process_instance_id),
            message: self.message.clone(),
            author: clone_opt(&self.author),
            time: ctx.now_ms,
            action: None,
            comment_type: Some(resolved),
        };
        let event_message = normalize_comment_event_message(self.message.as_str());
        let mut lines: Vec<String> = Vec::new();
        lines.push(event_message);
        let event = HistoricTaskEvent {
            id: new_uuid(),
            task_id: self.task_id.clone(),
            action: String::from_str("AddComment"),
            message: lines,
            user_id: clone_opt(&self.author),
            time: ctx.now_ms,
        };
        let ghost e = event;
        let ghost old_events = ctx.session.task_events@;
        ctx.session.comments.upsert(comment.duplicate());
        ctx.session.task_events.upsert(event);
        assert(e.message@[0]@ == event_message_spec(self.message@));
        assert(ctx.session.task_events@ == old_events.insert(e.id@, e));
        assert(e.action@ == "AddComment"@);
        assert(opt_view(comment.comment_type) == resolved_type(self.comment_type));
        Ok(comment)
    }
}

/// Adds a comment to a process instance only (no task, no task event).
#[derive(Debug)]
pub struct CreateProcessInstanceCommentCmd {
    pub process_instance_id: String,
    /// `None`: a user comment of type `comment`.
    pub comment_type: Option<String>,
    pub message: String,
    pub author: Option<String>,
}

impl CreateProcessInstanceCommentCmd {
    pub fn new(process_instance_id: String, message: String, author: Option<String>) -> (r: Self)
        ensures
            r.process_instance_id == process_instance_id,
            r.comment_type is None,
            r.message == message,
            r.author == author,
    {
        Self::with_type(process_instance_id, None, message, author)
    }

    pub fn with_type(
        process_instance_id: String,
        comment_type: Option<String>,
        message: String,
        author: Option<String>,
    ) -> (r: Self)
        ensures
            r.process_instance_id == process_instance_id,
            r.comment_type == comment_type,
            r.message == message,
            r.author == author,
    {
        CreateProcessInstanceCommentCmd { process_instance_id, comment_type, message, author }
    }
}

impl Command<HistoricComment> for CreateProcessInstanceCommentCmd {
    /// The process instance must exist and be active; the comment is then
    /// stored with no task id.
    fn execute(&self, ctx: &mut CommandContext) -> (r: Result<HistoricComment, FlowableError>)
        ensures
            !old(ctx).session.process_instances@.contains_key(self.process_instance_id@) <==> (r matches Err(FlowableError::NotFound(m)) && m@ == "execution "@ + self.process_instance_id@ + " doesn't exist"@),
            (old(ctx).session.process_instances@.contains_key(self.process_instance_id@) && old(ctx).session.process_instances@[self.process_instance_id@].is_suspended) <==> (r matches Err(FlowableError::ExecutionError(m)) && m@ == "Cannot add a comment to a suspended process instance '"@ + self.process_instance_id@ + "'"@),
            r is Err ==> final(ctx).session == old(ctx).session,
            r matches Ok(c) ==> {
                &&& c.task_id is None
                &&& c.process_instance_id == Some(self.process_instance_id)
                &&& c.message == self.message
                &&& c.author == self.author
                &&& c.time == old(ctx).now_ms
                &&& c.action is None
                &&& opt_view(c.comment_type) == resolved_type(self.comment_type)
                &&& final(ctx).session.comments@ == old(ctx).session.comments@.insert(c.id@, c)
                &&& frame(old(ctx).session, final(ctx).session, set![StoreTable::Comments])
            },
            final(ctx).events == old(ctx).events,
    {
        proof {
            reveal_strlit("comment");
        }
        check_comment_process_instance(ctx, &self.process_instance_id)?;
        let resolved = match &self.comment_type {
            Some(t) => t.clone(),
            None => HistoricComment::type_comment(),
        };
        let comment = HistoricComment {
            id: new_uuid(),
            task_id: None,
            process_instance_id: Some(self.process_instance_id.clone()),
            message: self.message.clone(),
            author: clone_opt(&self.author),
            time: ctx.now_ms,
            action: None,
            comment_type: Some(resolved),
        };
        ctx.session.comments.upsert(comment.duplicate());
        Ok(comment)
    }
}

/// Replaces a stored comment by the given one (same id).
#[derive(Debug)]
pub struct SaveCommentCmd {
    pub comment: HistoricComment,
}

impl SaveCommentCmd {
    pub fn new(comment: HistoricComment) -> (r: Self)
        ensures
            r.comment == comment,
    {
        SaveCommentCmd { comment }
    }
}

impl Command<()> for SaveCommentCmd {
    /// An empty id is refused, so is the id of no stored comment; otherwise
    /// the stored comment is replaced.
    fn execute(&self, ctx: &mut CommandContext) -> (r: Result<(), FlowableError>)
        ensures
            self.comment.id@.len() == 0 <==> (r matches Err(FlowableError::BadRequest(m)) && m@ == "comment id is null"@),
            (self.comment.id@.len() > 0 && !old(ctx).session.comments@.contains_key(self.comment.id@)) <==> (r matches Err(FlowableError::NotFound(m)) && m@ == "Comment '"@ + self.comment.id@ + "' was not found"@),
            r is Err ==> final(ctx).session == old(ctx).session,
            r is Ok ==> final(ctx).session.comments@ == old(ctx).session.comments@.insert(self.comment.id@, self.comment),
            r is Ok ==> frame(old(ctx).session, final(ctx).session, set![StoreTable::Comments]),
            final(ctx).events == old(ctx).events,
    {
        proof {
            reveal_strlit("comment id is null");
            reveal_strlit("Comment '");
            reveal_strlit("' was not found");
        }
        if self.comment.id.unicode_len() == 0 {
            return Err(FlowableError::BadRequest(String::from_str("comment id is null")));
        }
        if !ctx.session.comments.contains(&self.comment.id) {
            return Err(
                FlowableError::NotFound(cat3("Comment '", self.comment.id.as_str(), "' was not found")),
            );
        }
        ctx.session.comments.upsert(self.comment.duplicate());
        Ok(())
    }
}

/// Deletes a comment of a task.
#[derive(Debug)]
pub struct DeleteTaskCommentCmd {
    pub task_id: String,
    pub comment_id: String,
}

impl DeleteTaskCommentCmd {
    pub fn new(task_id: String, comment_id: String) -> (r: Self)
        ensures
            r.task_id == task_id,
            r.comment_id == comment_id,
    {
        DeleteTaskCommentCmd { task_id, comment_id }
    }
}

/// Whether the stored comment `id` belongs to task `task_id`.
pub open spec fn comment_of_task(ctx: CommandContext, id: Seq<char>, task_id: Seq<char>) -> bool {
    ctx.session.comments@.contains_key(id) && opt_view(ctx.session.comments@[id].task_id) == Some(task_id)
}

impl Command<Option<HistoricComment>> for DeleteTaskCommentCmd {
    /// Deletes the comment and returns it when it exists and belongs to the
    /// task; otherwise changes nothing and returns `None`.
    fn execute(&self, ctx: &mut CommandContext) -> (r: Result<Option<HistoricComment>, FlowableError>)
        ensures
            r is Ok,
            comment_of_task(*old(ctx), self.comment_id@, self.task_id@) ==> {
                &&& r == Ok::<Option<HistoricComment>, FlowableError>(Some(old(ctx).session.comments@[self.comment_id@]))
                &&& final(ctx).session.comments@ == old(ctx).session.comments@.remove(self.comment_id@)
                &&& frame(old(ctx).session, final(ctx).session, set![StoreTable::Comments])
            },
            !comment_of_task(*old(ctx), self.comment_id@, self.task_id@) ==> {
                &&& r == Ok::<Option<HistoricComment>, FlowableError>(None)
                &&& final(ctx).session == old(ctx).session
            },
            final(ctx).events == old(ctx).events,
    {
        let comment = match ctx.session.comments.find(&self.comment_id) {
            Some(c) => c,
            None => return Ok(None),
        };
        let owned = match &comment.task_id {
            Some(t) => t.eq(&self.task_id),
            None => false,
        };
        if !owned {
            return Ok(None);
        }
        let _ = ctx.session.comments.take(&self.comment_id);
        Ok(Some(comment))
    }
}

/// Deletes an event of a task.
#[derive(Debug)]
pub struct DeleteTaskEventCmd {
    pub task_id: String,
    pub event_id: String,
}

impl DeleteTaskEventCmd {
    pub fn new(task_id: String, event_id: String) -> (r: Self)
        ensures
            r.task_id == task_id,
            r.event_id == event_id,
    {
        DeleteTaskEventCmd { task_id, event_id }
    }
}

/// Whether the stored task event `id` belongs to task `task_id`.
pub open spec fn event_of_task(ctx: CommandContext, id: Seq<char>, task_id: Seq<char>) -> bool {
    ctx.session.task_events@.contains_key(id) && ctx.session.task_events@[id].task_id@ == task_id
}

impl Command<Option<HistoricTaskEvent>> for DeleteTaskEventCmd {
    /// Deletes the event and returns it when it exists and belongs to the
    /// task; otherwise changes nothing and returns `None`.
    fn execute(&self, ctx: &mut CommandContext) -> (r: Result<Option<HistoricTaskEvent>, FlowableError>)
        ensures
            r is Ok,
            event_of_task(*old(ctx), self.event_id@, self.task_id@) ==> {
                &&& r == Ok::<Option<HistoricTaskEvent>, FlowableError>(Some(old(ctx).session.task_events@[self.event_id@]))
                &&& final(ctx).session.task_events@ == old(ctx).session.task_events@.remove(self.event_id@)
                &&& frame(old(ctx).session, final(ctx).session, set![StoreTable::TaskEvents])
            },
            !event_of_task(*old(ctx), self.event_id@, self.task_id@) ==> {
                &&& r == Ok::<Option<HistoricTaskEvent>, FlowableError>(None)
                &&& final(ctx).session == old(ctx).session
            },
            final(ctx).events == old(ctx).events,
    {
        let i = match ctx.session.task_events.position(&self.event_id) {
            Some(i) => i,
            None => return Ok(None),
        };
        if !ctx.session.task_events.rows[i].task_id.eq(&self.task_id) {
            return Ok(None);
        }
        let taken = ctx.session.task_events.take(&self.event_id);
        Ok(taken)
    }
}

/// Records an audit event against a task.
#[derive(Debug)]
pub struct RecordTaskEventCmd {
    pub task_id: String,
    pub action: String,
    pub message: Vec<String>,
    pub user_id: Option<String>,
}

impl RecordTaskEventCmd {
    pub fn new(task_id: String, action: String, message: Vec<String>, user_id: Option<String>) -> (r:
        Self)
        ensures
            r.task_id == task_id,
            r.action == action,
            r.message == message,
            r.user_id == user_id,
    {
        RecordTaskEventCmd { task_id, action, message, user_id }
    }
}

impl Command<HistoricTaskEvent> for RecordTaskEventCmd {
    /// Stores a new event with a fresh id and the clock reading; returns a copy.
    fn execute(&self, ctx: &mut CommandContext) -> (r: Result<HistoricTaskEvent, FlowableError>)
        ensures
            r matches Ok(e) && e.task_id == self.task_id && e.action == self.action
                && e.message@ == self.message@ && e.user_id == self.user_id && e.time == old(ctx).now_ms
                && final(ctx).session.task_events@.contains_key(e.id@)
                && same_task_event(final(ctx).session.task_events@[e.id@], e)
                && final(ctx).session.task_events@.remove(e.id@) == old(ctx).session.task_events@.remove(e.id@),
            frame(old(ctx).session, final(ctx).session, set![StoreTable::TaskEvents]),
            final(ctx).events == old(ctx).events,
    {
        let event = HistoricTaskEvent {
            id: new_uuid(),
            task_id: self.task_id.clone(),
            action: self.action.clone(),
            message: crate::entities::clone_strings(&self.message),
            user_id: clone_opt(&self.user_id),
            time: ctx.now_ms,
        };
        let copy = event.copy();
        let ghost old_events = ctx.session.task_events@;
        ctx.session.task_events.upsert(event);
        assert(ctx.session.task_events@.remove(copy.id@) =~= old_events.remove(copy.id@));
        Ok(copy)
    }
}

} // verus!
