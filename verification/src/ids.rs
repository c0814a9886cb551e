//! Identity and timestamp assignment for newly created entities. Both values
//! come from the outside world — a random generator and the wall clock — so
//! the two calls live behind trusted wrappers and nothing downstream depends
//! on which values came back.

use vstd::prelude::*;

verus! {

/// Relies on uuid's `Uuid::new_v4` and its hyphenated rendering: a freshly
/// drawn random identifier as its 36-character hyphenated text. The value is
/// random, so only its length is promised.
#[verifier::external_body]
pub fn fresh_id() -> (r: String)
    ensures
        r@.len() == 36,
{
    uuid::Uuid::new_v4().to_hyphenated().to_string()
}

/// Relies on chrono's `Utc::now` and `DateTime::timestamp_millis`: the
/// current time as milliseconds since the Unix epoch. The value depends on
/// the clock, so nothing is promised of it.
#[verifier::external_body]
pub fn now_timestamp() -> (t: i64) {
    chrono::Utc::now().timestamp_millis()
}

} // verus!
