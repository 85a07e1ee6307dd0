//! Trusted boundary to std's monotonic clock, for timing batch runs.
//!
//! Nothing is promised of a clock reading; every verified property of the
//! batch driver holds whatever values come back.

use vstd::prelude::*;

verus! {

#[verifier::external_type_specification]
#[verifier::external_body]
pub struct ExInstant(std::time::Instant);

/// Relies on std's Instant::now: an opaque reading of a monotonic clock.
#[verifier::external_body]
pub(crate) fn now_instant() -> (t: std::time::Instant) {
    std::time::Instant::now()
}

/// Relies on std's Instant::elapsed: the time since the reading was taken.
#[verifier::external_body]
pub(crate) fn elapsed_of(t: &std::time::Instant) -> (d: core::time::Duration) {
    t.elapsed()
}

/// Relies on std's Duration::as_millis: the duration in whole milliseconds.
#[verifier::external_body]
pub(crate) fn millis_of(d: &core::time::Duration) -> (ms: u128) {
    d.as_millis()
}

} // verus!
