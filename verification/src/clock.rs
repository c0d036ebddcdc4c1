//! Monotonic clock access.
//!
//! All refill arithmetic is driven by the wall-clock time elapsed since the
//! bucket's creation. The clock itself cannot be reasoned about, so these
//! wrappers promise nothing of the values they return: everything that is
//! proved about the bucket holds for every elapsed time they may report.

use vstd::prelude::*;

verus! {

/// The monotonic time origin captured at bucket creation.
#[verifier::external_type_specification]
#[verifier::external_body]
pub struct ExInstant(std::time::Instant);

/// Relies on `std::time::Instant::now` to capture a bucket's time origin.
#[verifier::external_body]
pub(crate) fn instant_now() -> std::time::Instant {
    std::time::Instant::now()
}

/// Relies on `std::time::Instant::elapsed` for the wall-clock time since the
/// origin, reported in whole milliseconds. The value depends on the clock at
/// the moment of the call, so nothing is promised of it.
#[verifier::external_body]
pub(crate) fn elapsed_millis(origin: &std::time::Instant) -> u64 {
    origin.elapsed().as_millis() as u64
}

} // verus!
