//! The clocks that evaluation times and event timestamps are read from.
use vstd::prelude::*;

verus! {

/// `std::time::Instant`, carried opaquely.
#[verifier::external_type_specification]
#[verifier::external_body]
pub struct ExInstant(std::time::Instant);

/// The current instant.
///
/// Trusted: calls `std::time::Instant::now`. Nothing is claimed of the
/// instant it gives: it depends on the clock.
#[verifier::external_body]
pub(crate) fn now() -> std::time::Instant {
    std::time::Instant::now()
}

/// The time since an instant.
///
/// Trusted: calls `std::time::Instant::elapsed`. Nothing is claimed of the
/// duration it gives: it depends on the clock.
#[verifier::external_body]
pub(crate) fn elapsed(start: &std::time::Instant) -> std::time::Duration {
    start.elapsed()
}

/// The whole milliseconds since an instant.
///
/// Trusted: calls `std::time::Instant::elapsed` and `Duration::as_millis`,
/// narrowed to `u64` as a cast does. Nothing is claimed of the number: it
/// depends on the clock.
#[verifier::external_body]
pub(crate) fn elapsed_millis(start: &std::time::Instant) -> u64 {
    start.elapsed().as_millis() as u64
}

/// The current time in whole seconds since the Unix epoch.
///
/// Trusted: calls `chrono::Utc::now().timestamp()`. Nothing is claimed of the
/// number it gives: it depends on the clock. (`Utc::now` panics on a system
/// clock set before the epoch, which no argument can rule out.)
#[verifier::external_body]
pub(crate) fn unix_now_seconds() -> i64 {
    chrono::Utc::now().timestamp()
}

} // verus!
