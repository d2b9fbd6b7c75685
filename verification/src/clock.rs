//! Monotonic clock readings used for session timestamps and PIN expiry.
use vstd::prelude::*;
use std::time::Instant;

verus! {

#[verifier::external_type_specification]
#[verifier::external_body]
pub struct ExInstant(Instant);

/// Calls `std::time::Instant::now`. The reading depends on when the call is made,
/// so nothing is claimed of it.
#[verifier::external_body]
pub(crate) fn now() -> (r: Instant) {
    Instant::now()
}

/// Calls `std::time::Instant::elapsed` on `since` and hands back the span in whole
/// nanoseconds (`Duration::as_nanos`). The reading depends on when the call is
/// made, so nothing is claimed of it.
#[verifier::external_body]
pub(crate) fn elapsed_nanos(since: &Instant) -> (r: u128) {
    since.elapsed().as_nanos()
}

} // verus!
