//! The wall clock.

use vstd::prelude::*;

verus! {

/// Relies on `chrono::Utc::now` and `DateTime::timestamp_millis`: the current
/// wall-clock time in milliseconds since the Unix epoch. Nothing is promised
/// of the value: it depends on the moment of the call. (chrono panics on a
/// system clock set before 1970, a machine state no precondition can name.)
#[verifier::external_body]
pub(crate) fn now_millis() -> (r: i64) {
    chrono::Utc::now().timestamp_millis()
}

} // verus!
