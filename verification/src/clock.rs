//! Wall-clock time from the `chrono` crate.
use vstd::prelude::*;

verus! {

/// Milliseconds since the Unix epoch, from `chrono::Utc::now().timestamp_millis()`.
/// The value depends on the moment of the call; nothing is promised of it.
#[verifier::external_body]
pub(crate) fn now_millis() -> i64 {
    chrono::Utc::now().timestamp_millis()
}

/// Nanoseconds since the Unix epoch, from `chrono::Utc::now().timestamp_nanos_opt()`,
/// or 0 where that value does not fit an `i64`. Nothing is promised of the value.
#[verifier::external_body]
pub(crate) fn now_nanos() -> i64 {
    chrono::Utc::now().timestamp_nanos_opt().unwrap_or(0)
}

} // verus!
