//! The monotonic clock that times display transitions.

use std::time::Instant;
use vstd::prelude::*;

verus! {

/// `std::time::Instant`, carried opaquely by the animator.
#[verifier::external_type_specification]
#[verifier::external_body]
pub struct ExInstant(Instant);

/// Reads the monotonic clock with `std::time::Instant::now`.
/// Nothing is stated of the instant returned: it is the time of the call.
#[verifier::external_body]
pub(crate) fn instant_now() -> Instant {
    Instant::now()
}

/// Time passed since `start`, in nanoseconds: `Instant::elapsed` converted
/// with `Duration::as_nanos`. Nothing is stated of the number beyond its
/// type: it depends on the time of the call.
#[verifier::external_body]
pub(crate) fn nanos_since(start: &Instant) -> u128 {
    start.elapsed().as_nanos()
}

} // verus!
