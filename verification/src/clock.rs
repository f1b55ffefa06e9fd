//! Monotonic time, as far as the backend needs it.
use std::time::Instant;
use vstd::prelude::*;

verus! {

/// `std::time::Instant`, carried through as an opaque moment.
#[verifier::external_type_specification]
#[verifier::external_body]
pub struct ExInstant(Instant);

/// Calls `std::time::Instant::now`. The moment depends on the clock, so
/// nothing is stated about it.
#[verifier::external_body]
pub(crate) fn instant_now() -> Instant {
    Instant::now()
}

/// Calls `Instant::elapsed` on `since` and converts the duration to whole
/// seconds with `Duration::as_secs`. The value depends on the clock, so
/// nothing is stated about it.
#[verifier::external_body]
pub(crate) fn whole_seconds_since(since: &Instant) -> u64 {
    since.elapsed().as_secs()
}

} // verus!
