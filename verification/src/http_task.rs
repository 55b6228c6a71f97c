//! The HTTP task's status-code contract: which response codes continue, fail
//! the task, or throw a BPMN error.
use vstd::prelude::*;
use crate::command::{contains_string, contains_view};
use crate::error::FlowableError;
use crate::text::{
    ascii_upper_seq, cat, decimal, push_char, to_ascii_uppercase, trim, trim_str, u64_to_decimal,
};

verus! {

/// A failure raised while executing an activity.
#[derive(Debug)]
pub enum EngineFault {
    BpmnError { code: String, message: Option<String> },
    Execution { message: String },
}

impl EngineFault {
    /// The engine error a fault surfaces as: both kinds become execution
    /// errors, a BPMN error carrying its code.
    pub fn into_flowable_error(self) -> (r: FlowableError)
        ensures
            r == (match self {
                EngineFault::BpmnError { code, .. } => FlowableError::ExecutionError(code),
                EngineFault::Execution { message } => FlowableError::ExecutionError(message),
            }),
    {
        match self {
            EngineFault::BpmnError { code, .. } => FlowableError::ExecutionError(code),
            EngineFault::Execution { message } => FlowableError::ExecutionError(message),
        }
    }
}

/// What a response status leads to.
#[derive(Debug, PartialEq, Eq)]
pub enum HttpStatusAction {
    Continue,
    BpmnError(String),
    Fail(String),
}

/// The status action as a value.
pub enum StatusActionSpec {
    Continue,
    BpmnError(Seq<char>),
    Fail(Seq<char>),
}

pub open spec fn action_view(a: HttpStatusAction) -> StatusActionSpec {
    match a {
        HttpStatusAction::Continue => StatusActionSpec::Continue,
        HttpStatusAction::BpmnError(s) => StatusActionSpec::BpmnError(s@),
        HttpStatusAction::Fail(s) => StatusActionSpec::Fail(s@),
    }
}

/// The HTTP contract of an HTTP task as the process model states it.
#[derive(Debug)]
pub struct JavaHttpContract {
    pub ignore_exception: bool,
    pub save_request_variables: bool,
    pub save_response_parameters: bool,
    pub save_response_parameters_transient: bool,
    pub save_response_variable_as_json: bool,
    pub response_variable_name: Option<String>,
    pub result_variable_prefix: String,
    /// Codes (e.g. `404`) and families (`3XX`, `4XX`, `5XX`) that fail the task;
    /// no entry occurs twice.
    pub fail_status_codes: Vec<String>,
    /// Codes and families that throw a BPMN error; no entry occurs twice.
    pub handle_status_codes: Vec<String>,
    pub parallel_in_same_transaction: Option<bool>,
}

impl Default for JavaHttpContract {
    fn default() -> (r: Self)
        ensures
            !r.ignore_exception,
            !r.save_request_variables,
            !r.save_response_parameters,
            !r.save_response_parameters_transient,
            !r.save_response_variable_as_json,
            r.response_variable_name is None,
            r.result_variable_prefix@.len() == 0,
            r.fail_status_codes@.len() == 0,
            r.handle_status_codes@.len() == 0,
            r.parallel_in_same_transaction is None,
    {
        JavaHttpContract {
            ignore_exception: false,
            save_request_variables: false,
            save_response_parameters: false,
            save_response_parameters_transient: false,
            save_response_variable_as_json: false,
            response_variable_name: None,
            result_variable_prefix: String::new(),
            fail_status_codes: Vec::new(),
            handle_status_codes: Vec::new(),
            parallel_in_same_transaction: None,
        }
    }
}

/// Whether status `code` is covered by `patterns`: listed exactly, or by its family.
pub open spec fn matches_status_spec(patterns: Seq<String>, code: Seq<char>) -> bool {
    ||| contains_view(patterns, code)
    ||| (code.len() > 0 && code[0] == '3' && contains_view(patterns, "3XX"@))
    ||| (code.len() > 0 && code[0] == '4' && contains_view(patterns, "4XX"@))
    ||| (code.len() > 0 && code[0] == '5' && contains_view(patterns, "5XX"@))
}

/// Whether status `code` is listed exactly or by its family (`3XX`, `4XX`, `5XX`).
pub fn matches_status(patterns: &Vec<String>, code: &String) -> (r: bool)
    ensures
        r == matches_status_spec(patterns@, code@),
{
    if contains_string(patterns, code) {
        return true;
    }
    if code.unicode_len() == 0 {
        return false;
    }
    let first = code.as_str().get_char(0);
    if first == '3' {
        contains_string(patterns, &String::from_str("3XX"))
    } else if first == '4' {
        contains_string(patterns, &String::from_str("4XX"))
    } else if first == '5' {
        contains_string(patterns, &String::from_str("5XX"))
    } else {
        false
    }
}

/// The action for `status`: below 300 (or below 400 while redirects are
/// followed) continue; else a listed handle code throws `HTTP<code>` as a
/// BPMN error, a listed fail code fails with `HTTP<code>`, anything else continues.
pub open spec fn status_action_spec(
    c: JavaHttpContract,
    status: u16,
    redirects_disallowed: bool,
) -> StatusActionSpec {
    if status < 300 || (!redirects_disallowed && status < 400) {
        StatusActionSpec::Continue
    } else {
        let code = decimal(status as nat);
        if matches_status_spec(c.handle_status_codes@, code) {
            StatusActionSpec::BpmnError("HTTP"@ + code)
        } else if matches_status_spec(c.fail_status_codes@, code) {
            StatusActionSpec::Fail("HTTP"@ + code)
        } else {
            StatusActionSpec::Continue
        }
    }
}

/// How the HTTP call runs.
#[derive(Debug, PartialEq, Eq)]
pub enum HttpExecutionMode {
    Inline,
    ParallelInSameTransaction,
}

/// The engine's HTTP transport mode.
#[derive(Debug, PartialEq, Eq)]
pub enum HttpRuntimeMode {
    Real,
    Async,
}

impl JavaHttpContract {
    pub fn status_action(&self, status: u16, redirects_disallowed: bool) -> (r: HttpStatusAction)
        ensures
            action_view(r) == status_action_spec(*self, status, redirects_disallowed),
    {
        if status < 300 || (!redirects_disallowed && status < 400) {
            return HttpStatusAction::Continue;
        }
        let code = u64_to_decimal(status as u64);
        if matches_status(&self.handle_status_codes, &code) {
            proof {
                reveal_strlit("HTTP");
            }
            HttpStatusAction::BpmnError(cat("HTTP", code.as_str()))
        } else if matches_status(&self.fail_status_codes, &code) {
            HttpStatusAction::Fail(cat("HTTP", code.as_str()))
        } else {
            HttpStatusAction::Continue
        }
    }

    /// The model's explicit choice wins; without one, an async transport
    /// runs the call in parallel within the same transaction.
    pub fn execution_mode(&self, runtime_mode: HttpRuntimeMode) -> (r: HttpExecutionMode)
        ensures
            r == (match self.parallel_in_same_transaction {
                Some(true) => HttpExecutionMode::ParallelInSameTransaction,
                Some(false) => HttpExecutionMode::Inline,
                None => if runtime_mode == HttpRuntimeMode::Async {
                    HttpExecutionMode::ParallelInSameTransaction
                } else {
                    HttpExecutionMode::Inline
                },
            }),
    {
        match self.parallel_in_same_transaction {
            Some(true) => HttpExecutionMode::ParallelInSameTransaction,
            Some(false) => HttpExecutionMode::Inline,
            None => match runtime_mode {
                HttpRuntimeMode::Async => HttpExecutionMode::ParallelInSameTransaction,
                HttpRuntimeMode::Real => HttpExecutionMode::Inline,
            },
        }
    }
}

/// The result projection kept beside the contract.
#[derive(Debug)]
pub struct RustHttpProjection {
    pub result_variable_name: Option<String>,
    pub store_result_as_transient: bool,
    pub use_local_scope: bool,
}

impl Default for RustHttpProjection {
    fn default() -> (r: Self)
        ensures
            r.result_variable_name is None,
            !r.store_result_as_transient,
            !r.use_local_scope,
    {
        RustHttpProjection {
            result_variable_name: None,
            store_result_as_transient: false,
            use_local_scope: false,
        }
    }
}

/// Turns a status action into the activity's outcome: continue, or a fault.
pub fn enforce_status_action(action: HttpStatusAction) -> (r: Result<(), EngineFault>)
    ensures
        r == (match action {
            HttpStatusAction::Continue => Ok::<(), EngineFault>(()),
            HttpStatusAction::BpmnError(code) => Err(EngineFault::BpmnError { code, message: None }),
            HttpStatusAction::Fail(message) => Err(EngineFault::Execution { message }),
        }),
{
    match action {
        HttpStatusAction::Continue => Ok(()),
        HttpStatusAction::BpmnError(code) => Err(EngineFault::BpmnError { code, message: None }),
        HttpStatusAction::Fail(message) => Err(EngineFault::Execution { message }),
    }
}

/// The status part of a completed exchange: the action, and the error
/// message variable set when a failure is ignored.
#[derive(Debug)]
pub struct StatusOutcome {
    pub status_action: HttpStatusAction,
    /// `(name, value)` of the `<prefix>ErrorMessage` process variable.
    pub error_variable: Option<(String, String)>,
}

/// A failing status under `ignore_exception` continues and records the
/// failure message in `<prefix>ErrorMessage`; BPMN errors are never ignored.
pub fn status_outcome(contract: &JavaHttpContract, status: u16, redirects_disallowed: bool) -> (r:
    StatusOutcome)
    ensures
        ({
            let a = status_action_spec(*contract, status, redirects_disallowed);
            if contract.ignore_exception && a is Fail {
                &&& r.status_action == HttpStatusAction::Continue
                &&& r.error_variable matches Some((n, v)) && n@ == contract.result_variable_prefix@
                    + "ErrorMessage"@ && StatusActionSpec::Fail(v@) == a
            } else {
                action_view(r.status_action) == a && r.error_variable is None
            }
        }),
{
    let action = contract.status_action(status, redirects_disallowed);
    if contract.ignore_exception {
        if let HttpStatusAction::Fail(message) = action {
            proof {
                reveal_strlit("ErrorMessage");
            }
            let name = cat(contract.result_variable_prefix.as_str(), "ErrorMessage");
            return StatusOutcome {
                status_action: HttpStatusAction::Continue,
                error_variable: Some((name, message)),
            };
        }
    }
    StatusOutcome { status_action: action, error_variable: None }
}

/// `s` cut at its commas, including empty pieces.
pub open spec fn split_commas(s: Seq<char>) -> Seq<Seq<char>>
    decreases s.len(),
{
    if s.len() == 0 {
        seq![Seq::<char>::empty()]
    } else {
        let p = split_commas(s.drop_last());
        if s.last() == ',' {
            p.push(Seq::<char>::empty())
        } else {
            p.update(p.len() - 1, p.last().push(s.last()))
        }
    }
}

proof fn lemma_split_nonempty(s: Seq<char>)
    ensures
        split_commas(s).len() >= 1,
    decreases s.len(),
{
    if s.len() > 0 {
        lemma_split_nonempty(s.drop_last());
    }
}

/// A piece as a status pattern: trimmed and upper-cased.
pub open spec fn normalize_piece(p: Seq<char>) -> Seq<char> {
    ascii_upper_seq(trim(p))
}

/// Whether pattern `code` comes from one of `pieces`.
pub open spec fn from_pieces(pieces: Seq<Seq<char>>, code: Seq<char>) -> bool {
    code.len() > 0 && exists|i: int| 0 <= i < pieces.len() && normalize_piece(#[trigger] pieces[i]) == code
}

/// The distinct patterns of `value`: its comma-separated pieces, trimmed and
/// upper-cased, empty ones dropped.
pub open spec fn status_patterns(value: Option<String>, code: Seq<char>) -> bool {
    match value {
        Some(v) => from_pieces(split_commas(v@), code),
        None => false,
    }
}

/// No two entries are equal.
pub open spec fn distinct_views(v: Seq<String>) -> bool {
    forall|i: int, j: int| 0 <= i < v.len() && 0 <= j < v.len() && i != j ==> (#[trigger] v[i])@ != (#[trigger] v[j])@
}

fn add_piece(out: &mut Vec<String>, piece: &String)
    requires
        distinct_views(old(out)@),
    ensures
        distinct_views(final(out)@),
        forall|c: Seq<char>| #[trigger] contains_view(final(out)@, c) <==> (contains_view(old(out)@, c) || (c.len() > 0 && c == normalize_piece(piece@))),
{
    let t = trim_str(piece.as_str());
    let u = to_ascii_uppercase(t);
    if u.unicode_len() > 0 && !contains_string(out, &u) {
        let ghost o = out@;
        out.push(u);
        proof {
            assert forall|c: Seq<char>| #[trigger] contains_view(out@, c) <==> (contains_view(o, c) || (c.len() > 0 && c == normalize_piece(piece@))) by {
                if contains_view(o, c) {
                    let i = choose|i: int| 0 <= i < o.len() && (#[trigger] o[i])@ == c;
                    assert(out@[i] == o[i]);
                }
                if contains_view(out@, c) && !contains_view(o, c) {
                    let i = choose|i: int| 0 <= i < out@.len() && (#[trigger] out@[i])@ == c;
                    if i < o.len() {
                        assert(out@[i] == o[i]);
                    }
                }
                if c.len() > 0 && c == normalize_piece(piece@) {
                    assert(out@[o.len() as int]@ == c);
                }
            }
        }
    } else {
        proof {
            assert forall|c: Seq<char>| #[trigger] contains_view(out@, c) <==> (contains_view(out@, c) || (c.len() > 0 && c == normalize_piece(piece@))) by {
                if c.len() > 0 && c == normalize_piece(piece@) {
                    assert(u@ == c);
                }
            }
        }
    }
}

/// Parses a comma-separated list of status codes and families into distinct
/// upper-case patterns; blank entries are dropped.
pub fn parse_status_codes(value: Option<String>) -> (r: Vec<String>)
    ensures
        distinct_views(r@),
        forall|c: Seq<char>| #[trigger] contains_view(r@, c) <==> status_patterns(value, c),
{
    let mut out: Vec<String> = Vec::new();
    match &value {
        None => {
            return out;
        },
        Some(v) => {
            let n = v.unicode_len();
            let mut current = String::new();
            let mut i: usize = 0;
            while i < n
                invariant
                    n == v@.len(),
                    0 <= i <= n,
                    distinct_views(out@),
                    split_commas(v@.subrange(0, i as int)).len() >= 1,
                    current@ == split_commas(v@.subrange(0, i as int)).last(),
                    forall|c: Seq<char>| #[trigger] contains_view(out@, c) <==> from_pieces(split_commas(v@.subrange(0, i as int)).drop_last(), c),
                decreases n - i,
            {
                let ch = v.as_str().get_char(i);
                let ghost pre = v@.subrange(0, i as int);
                let ghost next = v@.subrange(0, i + 1);
                assert(next.drop_last() =~= pre);
                assert(next.last() == ch);
                let ghost ps = split_commas(pre);
                if ch == ',' {
                    let ghost before = out@;
                    add_piece(&mut out, &current);
                    current = String::new();
                    proof {
                        let ns = split_commas(next);
                        assert(ns == ps.push(Seq::<char>::empty()));
                        assert(ns.drop_last() =~= ps);
                        assert forall|c: Seq<char>| #[trigger] contains_view(out@, c) <==> from_pieces(ns.drop_last(), c) by {
                            if from_pieces(ps, c) && c.len() > 0 {
                                let j = choose|j: int| 0 <= j < ps.len() && normalize_piece(#[trigger] ps[j]) == c;
                                if j < ps.len() - 1 {
                                    assert(ps.drop_last()[j] == ps[j]);
                                }
                            }
                            if from_pieces(ps.drop_last(), c) {
                                let j = choose|j: int| 0 <= j < ps.drop_last().len() && normalize_piece(#[trigger] ps.drop_last()[j]) == c;
                                assert(ps[j] == ps.drop_last()[j]);
                            }
                        }
                        lemma_split_nonempty(next);
                    }
                } else {
                    push_char(&mut current, ch);
                    proof {
                        let ns = split_commas(next);
                        assert(ns.drop_last() =~= ps.drop_last());
                        lemma_split_nonempty(next);
                    }
                }
                i = i + 1;
            }
            let ghost all = split_commas(v@.subrange(0, n as int));
            add_piece(&mut out, &current);
            proof {
                assert(v@.subrange(0, n as int) =~= v@);
                assert forall|c: Seq<char>| #[trigger] contains_view(out@, c) <==> from_pieces(all, c) by {
                    if from_pieces(all, c) {
                        let j = choose|j: int| 0 <= j < all.len() && normalize_piece(#[trigger] all[j]) == c;
                        if j < all.len() - 1 {
                            assert(all.drop_last()[j] == all[j]);
                        }
                    }
                    if from_pieces(all.drop_last(), c) {
                        let j = choose|j: int| 0 <= j < all.drop_last().len() && normalize_piece(#[trigger] all.drop_last()[j]) == c;
                        assert(all[j] == all.drop_last()[j]);
                    }
                    if c.len() > 0 && c == normalize_piece(all.last()) {
                        assert(all[all.len() - 1] == all.last());
                    }
                }
            }
        },
    }
    out
}

/// `key: value`, one header per line, joined by newlines, in the given order.
pub open spec fn header_lines(headers: Seq<(String, String)>) -> Seq<char>
    decreases headers.len(),
{
    if headers.len() == 0 {
        Seq::empty()
    } else if headers.len() == 1 {
        headers[0].0@ + ": "@ + headers[0].1@
    } else {
        header_lines(headers.drop_last()) + "\n"@ + headers.last().0@ + ": "@ + headers.last().1@
    }
}

/// The headers as text lines, as an HTTP task records them.
pub fn headers_as_lines(headers: &Vec<(String, String)>) -> (r: String)
    ensures
        r@ == header_lines(headers@),
{
    let mut out = String::new();
    let mut i: usize = 0;
    proof {
        reveal_strlit(": ");
        reveal_strlit("\n");
    }
    while i < headers.len()
        invariant
            0 <= i <= headers.len(),
            out@ == header_lines(headers@.take(i as int)),
        decreases headers.len() - i,
    {
        proof {
            assert(headers@.take(i + 1).drop_last() =~= headers@.take(i as int));
            assert(headers@.take(i + 1).last() == headers@[i as int]);
        }
        if i > 0 {
            out.append("\n");
        }
        out.append(headers[i].0.as_str());
        out.append(": ");
        out.append(headers[i].1.as_str());
        proof {
            if i == 0 {
                assert(headers@.take(1)[0] == headers@[0]);
                assert(out@ =~= header_lines(headers@.take(1)));
            } else {
                assert(out@ =~= header_lines(headers@.take(i + 1)));
            }
        }
        i = i + 1;
    }
    proof {
        assert(headers@.take(headers.len() as int) =~= headers@);
    }
    out
}

/// An HTTP request or response handler that runs a script in a secure
/// engine restricted to the enabled languages.
#[derive(Debug)]
pub struct SecureScriptHttpHandler {
    pub language: String,
    pub script: String,
    pub result_variable: Option<String>,
    pub enabled_languages: Vec<String>,
}

impl SecureScriptHttpHandler {
    pub fn new(language: String, script: String, result_variable: Option<String>, enabled_languages: Vec<String>) -> (r: Self)
        ensures
            r == (SecureScriptHttpHandler { language, script, result_variable, enabled_languages }),
    {
        SecureScriptHttpHandler { language, script, result_variable, enabled_languages }
    }
}

} // verus!

