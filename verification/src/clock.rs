//! The one place the library reads the clock.

use vstd::prelude::*;

verus! {

/// Relies on `chrono::Utc::now` and `chrono::DateTime::to_rfc3339`: the
/// current UTC time rendered as an RFC 3339 timestamp. The value depends on
/// the clock, so nothing is assumed of it beyond being non-empty text.
#[verifier::external_body]
pub fn now_rfc3339() -> (r: String)
    ensures
        r@.len() > 0,
{
    chrono::Utc::now().to_rfc3339()
}

} // verus!
