//! Wall-clock readings.
use vstd::prelude::*;

verus! {

/// Current UTC time in whole seconds since the Unix epoch, from `chrono::Utc::now`.
/// Nothing is claimed of the value: it is whatever the system clock reads.
#[verifier::external_body]
pub(crate) fn now_secs() -> (t: i64) {
    chrono::Utc::now().timestamp()
}

/// Current UTC time in milliseconds since the Unix epoch, from `chrono::Utc::now`.
/// Nothing is claimed of the value: it is whatever the system clock reads.
#[verifier::external_body]
pub(crate) fn now_millis() -> (t: i64) {
    chrono::Utc::now().timestamp_millis()
}

} // verus!
