//! The engine's error kinds.
use vstd::prelude::*;
use crate::outside::{debug_quoted, debug_text};
use crate::text::cat;

verus! {

/// An error a command ends with; the command's work is rolled back.
#[derive(Debug)]
pub enum FlowableError {
    NotFound(String),
    ExecutionError(String),
    BadRequest(String),
    Forbidden(String),
    DeploymentValidationError(String),
    Internal(String),
    /// The request clashes with the current state (such as creating a
    /// variable that already exists).
    Conflict(String),
}

/// The prefix under which each kind is rendered.
pub open spec fn error_prefix(e: FlowableError) -> Seq<char> {
    match e {
        FlowableError::NotFound(_) => "Not found: "@,
        FlowableError::ExecutionError(_) => "Execution error: "@,
        FlowableError::BadRequest(_) => "Bad request: "@,
        FlowableError::Forbidden(_) => "Forbidden: "@,
        FlowableError::DeploymentValidationError(_) => "Deployment validation error: "@,
        FlowableError::Internal(_) => "Internal error: "@,
        FlowableError::Conflict(_) => "Conflict: "@,
    }
}

/// The message an error carries.
pub open spec fn error_message(e: FlowableError) -> Seq<char> {
    match e {
        FlowableError::NotFound(m) => m@,
        FlowableError::ExecutionError(m) => m@,
        FlowableError::BadRequest(m) => m@,
        FlowableError::Forbidden(m) => m@,
        FlowableError::DeploymentValidationError(m) => m@,
        FlowableError::Internal(m) => m@,
        FlowableError::Conflict(m) => m@,
    }
}

/// The name of an error's kind, as `Debug` shows it.
pub open spec fn error_variant_name(e: FlowableError) -> Seq<char> {
    match e {
        FlowableError::NotFound(_) => "NotFound"@,
        FlowableError::ExecutionError(_) => "ExecutionError"@,
        FlowableError::BadRequest(_) => "BadRequest"@,
        FlowableError::Forbidden(_) => "Forbidden"@,
        FlowableError::DeploymentValidationError(_) => "DeploymentValidationError"@,
        FlowableError::Internal(_) => "Internal"@,
        FlowableError::Conflict(_) => "Conflict"@,
    }
}

/// The `Debug` rendering of an error: its kind, then its message quoted
/// and escaped as `Debug` shows a string, in parentheses.
pub open spec fn error_debug(e: FlowableError) -> Seq<char> {
    error_variant_name(e) + "("@ + debug_text(error_message(e)) + ")"@
}

/// Whether an error marks a job failure that no retry can mend. None of the
/// kinds above does: each leaves the failed job's retries to the retry rules.
pub open spec fn error_is_unrecoverable(e: FlowableError) -> bool {
    match e {
        FlowableError::NotFound(_) => false,
        FlowableError::ExecutionError(_) => false,
        FlowableError::BadRequest(_) => false,
        FlowableError::Forbidden(_) => false,
        FlowableError::DeploymentValidationError(_) => false,
        FlowableError::Internal(_) => false,
        FlowableError::Conflict(_) => false,
    }
}

impl crate::entities::Duplicate for FlowableError {
    fn duplicate(&self) -> (r: Self) {
        match self {
            FlowableError::NotFound(m) => FlowableError::NotFound(m.clone()),
            FlowableError::ExecutionError(m) => FlowableError::ExecutionError(m.clone()),
            FlowableError::BadRequest(m) => FlowableError::BadRequest(m.clone()),
            FlowableError::Forbidden(m) => FlowableError::Forbidden(m.clone()),
            FlowableError::DeploymentValidationError(m) => FlowableError::DeploymentValidationError(m.clone()),
            FlowableError::Internal(m) => FlowableError::Internal(m.clone()),
            FlowableError::Conflict(m) => FlowableError::Conflict(m.clone()),
        }
    }
}

impl FlowableError {
    /// Whether this error is an unrecoverable job failure (see
    /// `error_is_unrecoverable`).
    pub fn is_unrecoverable_job_failure(&self) -> (r: bool)
        ensures
            r == error_is_unrecoverable(*self),
    {
        match self {
            FlowableError::NotFound(_) => false,
            FlowableError::ExecutionError(_) => false,
            FlowableError::BadRequest(_) => false,
            FlowableError::Forbidden(_) => false,
            FlowableError::DeploymentValidationError(_) => false,
            FlowableError::Internal(_) => false,
            FlowableError::Conflict(_) => false,
        }
    }

    /// The `Debug` rendering of the error (see `error_debug`).
    pub fn debug_string(&self) -> (r: String)
        ensures
            r@ == error_debug(*self),
    {
        let name: &str = match self {
            FlowableError::NotFound(_) => "NotFound",
            FlowableError::ExecutionError(_) => "ExecutionError",
            FlowableError::BadRequest(_) => "BadRequest",
            FlowableError::Forbidden(_) => "Forbidden",
            FlowableError::DeploymentValidationError(_) => "DeploymentValidationError",
            FlowableError::Internal(_) => "Internal",
            FlowableError::Conflict(_) => "Conflict",
        };
        let quoted = debug_quoted(self.message().as_str());
        let mut r = cat(name, "(");
        r.append(quoted.as_str());
        r.append(")");
        r
    }

    /// The message without the kind prefix.
    pub fn message(&self) -> (r: &String)
        ensures
            r@ == error_message(*self),
    {
        match self {
            FlowableError::NotFound(m) => m,
            FlowableError::ExecutionError(m) => m,
            FlowableError::BadRequest(m) => m,
            FlowableError::Forbidden(m) => m,
            FlowableError::DeploymentValidationError(m) => m,
            FlowableError::Internal(m) => m,
            FlowableError::Conflict(m) => m,
        }
    }

    /// The rendered error: kind prefix followed by the message.
    pub fn to_display_string(&self) -> (r: String)
        ensures
            r@ == error_prefix(*self) + error_message(*self),
    {
        proof {
            reveal_strlit("Not found: ");
            reveal_strlit("Execution error: ");
            reveal_strlit("Bad request: ");
            reveal_strlit("Forbidden: ");
            reveal_strlit("Deployment validation error: ");
            reveal_strlit("Internal error: ");
            reveal_strlit("Conflict: ");
        }
        match self {
            FlowableError::NotFound(m) => cat("Not found: ", m.as_str()),
            FlowableError::ExecutionError(m) => cat("Execution error: ", m.as_str()),
            FlowableError::BadRequest(m) => cat("Bad request: ", m.as_str()),
            FlowableError::Forbidden(m) => cat("Forbidden: ", m.as_str()),
            FlowableError::DeploymentValidationError(m) => cat(
                "Deployment validation error: ",
                m.as_str(),
            ),
            FlowableError::Internal(m) => cat("Internal error: ", m.as_str()),
            FlowableError::Conflict(m) => cat("Conflict: ", m.as_str()),
        }
    }

    /// Whether this is a `NotFound` error.
    pub fn is_not_found(&self) -> (r: bool)
        ensures
            r == (*self is NotFound),
    {
        match self {
            FlowableError::NotFound(_) => true,
            _ => false,
        }
    }
}

} // verus!
