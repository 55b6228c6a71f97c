//! Calls into outside crates and std that Verus does not read: the wall
//! clock (chrono), random identifiers (uuid) and std's `Debug` rendering of
//! strings.
use vstd::prelude::*;

verus! {

/// `chrono::Utc::now().timestamp_millis()`: milliseconds since the Unix epoch
/// on the machine's clock. Nothing is claimed of the value, which depends on
/// the time of the call.
#[verifier::external_body]
pub(crate) fn current_time_millis() -> (r: i64) {
    chrono::Utc::now().timestamp_millis()
}

/// `uuid::Uuid::new_v4().to_string()`: a random version-4 UUID in hyphenated
/// form. Nothing is claimed of the value, which is drawn at random.
#[verifier::external_body]
pub(crate) fn new_uuid() -> (r: String) {
    uuid::Uuid::new_v4().to_string()
}

/// The text std's `Debug` gives a string (`format!("{:?}", s)`): the
/// string in double quotes, with quotes, backslashes and unprintable
/// characters escaped. It depends on the string alone.
pub uninterp spec fn debug_text(s: Seq<char>) -> Seq<char>;

/// `format!("{:?}", s)`: std's `Debug` rendering of a string.
#[verifier::external_body]
pub(crate) fn debug_quoted(s: &str) -> (r: String)
    ensures
        r@ == debug_text(s@),
{
    format!("{:?}", s)
}

} // verus!
