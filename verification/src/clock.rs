//! The monotonic clock that the gesture recognizer measures its
//! double-click window with.

use vstd::prelude::*;

verus! {

#[verifier::external_type_specification]
#[verifier::external_body]
pub struct ExInstant(std::time::Instant);

/// Calls `std::time::Instant::now`. The reading depends on the machine's
/// clock, so nothing is stated of it.
#[verifier::external_body]
pub(crate) fn instant_now() -> (t: std::time::Instant) {
    std::time::Instant::now()
}

/// Calls `std::time::Instant::elapsed`. The result depends on the clock, so
/// nothing is stated of it.
#[verifier::external_body]
pub(crate) fn instant_elapsed(start: &std::time::Instant) -> (d: std::time::Duration) {
    start.elapsed()
}

/// Calls `std::time::Duration::as_millis`: the whole milliseconds of `d`.
/// The duration is opaque here, so only the result's type is known.
#[verifier::external_body]
pub(crate) fn duration_as_millis(d: &std::time::Duration) -> (ms: u128) {
    d.as_millis()
}

} // verus!
