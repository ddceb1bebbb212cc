//! Trusted access to the monotonic clock that bounds one scheduler tick.

use vstd::prelude::*;
use std::time::Instant;

verus! {

/// `std::time::Instant`, a point on the monotonic clock. Opaque: the
/// engine only takes one at the start of a tick and asks how much time has
/// passed.
#[verifier::external_type_specification]
#[verifier::external_body]
pub struct ExInstant(Instant);

/// Relies on `std::time::Instant::now`: a reading of the monotonic clock.
/// Nothing is promised of the value.
#[verifier::external_body]
pub fn instant_now() -> Instant {
    Instant::now()
}

/// Relies on `std::time::Instant::elapsed` and `Duration::as_nanos`: the
/// nanoseconds since the reading, saturated into a `u64`. The value
/// depends on the wall clock, so nothing is promised of it.
#[verifier::external_body]
pub fn elapsed_nanos(start: &Instant) -> u64 {
    let n = start.elapsed().as_nanos();
    if n > u64::MAX as u128 {
        u64::MAX
    } else {
        n as u64
    }
}

} // verus!
