//! Monotonic clock readings. Nothing is known of their values: the functions
//! that need elapsed time take it as an argument, and the callers here only
//! forward what the clock returned.
use std::time::{Duration, Instant};
use vstd::prelude::*;

verus! {

#[verifier::external_type_specification]
#[verifier::external_body]
pub struct ExInstant(Instant);

/// `Instant::now()`: a reading of the monotonic clock.
///
/// Trusted with no postcondition: the value depends on the time of the call.
#[verifier::external_body]
pub(crate) fn instant_now() -> Instant {
    Instant::now()
}

/// `Instant::elapsed`: the time passed since `start`.
///
/// Trusted with no postcondition: the value depends on the time of the call.
#[verifier::external_body]
pub(crate) fn instant_elapsed(start: &Instant) -> Duration {
    start.elapsed()
}

/// `Duration::as_millis`: the whole milliseconds of a duration.
///
/// Trusted with no postcondition: the duration's value is opaque here, so its
/// millisecond count can only be forwarded.
#[verifier::external_body]
pub(crate) fn duration_millis(d: &Duration) -> u128 {
    d.as_millis()
}

} // verus!
