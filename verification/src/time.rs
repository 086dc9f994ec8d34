//! Durations and the monotonic clock.
//!
//! A `std::time::Duration` is known to contracts through its length in
//! nanoseconds, [`duration_nanos`].

use std::time::{Duration, Instant};
use vstd::prelude::*;

verus! {

/// `std::time::Instant`, a point on the monotonic clock.
#[verifier::external_type_specification]
#[verifier::external_body]
pub struct ExInstant(Instant);

/// `Clone` on `Duration`, a `Copy` type: the clone is the same duration.
pub assume_specification[ <Duration as Clone>::clone ](d: &Duration) -> (r: Duration)
    ensures
        r == *d,
;

/// What `Duration::as_nanos` returns: the whole length of a duration in
/// nanoseconds.
pub uninterp spec fn duration_nanos(d: Duration) -> u128;

/// Calls `Duration::as_nanos`. A duration is whole seconds held in a `u64`
/// and fewer than a billion nanoseconds, so it is at most `Duration::MAX`.
#[verifier::external_body]
pub(crate) fn as_nanos(d: Duration) -> (n: u128)
    ensures
        n == duration_nanos(d),
        n <= 18_446_744_073_709_551_615_999_999_999,
{
    d.as_nanos()
}

/// Calls `Duration::as_millis`, which the standard library documents as the
/// number of whole milliseconds contained in the duration (at most those of
/// `Duration::MAX`).
#[verifier::external_body]
pub(crate) fn as_millis(d: Duration) -> (ms: u128)
    ensures
        ms == duration_nanos(d) / 1_000_000,
        ms <= 18_446_744_073_709_551_615_999,
{
    d.as_millis()
}

/// Calls `Duration::from_millis`.
#[verifier::external_body]
pub(crate) fn from_millis(ms: u64) -> (d: Duration)
    ensures
        duration_nanos(d) == ms as nat * 1_000_000,
{
    Duration::from_millis(ms)
}

/// Calls `Duration::from_secs`.
#[verifier::external_body]
pub(crate) fn from_secs(secs: u64) -> (d: Duration)
    ensures
        duration_nanos(d) == secs as nat * 1_000_000_000,
{
    Duration::from_secs(secs)
}

/// Calls `Duration::new` with fewer than a billion nanoseconds, so that
/// nothing carries into the seconds.
#[verifier::external_body]
pub(crate) fn duration_new(secs: u64, nanos: u32) -> (d: Duration)
    requires
        nanos < 1_000_000_000,
    ensures
        duration_nanos(d) == secs as nat * 1_000_000_000 + nanos as nat,
{
    Duration::new(secs, nanos)
}

/// Calls `Instant::now`. Nothing is known of the clock's reading.
#[verifier::external_body]
pub(crate) fn instant_now() -> Instant {
    Instant::now()
}

/// Calls `Instant::elapsed`: the time that has passed since `origin` on the
/// monotonic clock. The reading depends on the clock, so nothing is stated
/// of it.
#[verifier::external_body]
pub(crate) fn elapsed_since(origin: &Instant) -> Duration {
    origin.elapsed()
}

} // verus!
