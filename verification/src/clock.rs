//! Trusted access to `std::time`: instants and durations.

use std::time::{Duration, Instant};
use vstd::prelude::*;

verus! {

#[verifier::external_type_specification]
#[verifier::external_body]
pub struct ExInstant(Instant);

/// Nanoseconds per second.
pub const NANOS_PER_SEC: u128 = 1_000_000_000;

/// The length of a duration in nanoseconds, as `Duration::as_nanos` gives it.
pub uninterp spec fn duration_nanos(d: Duration) -> nat;

/// The largest length a `Duration` can have, in nanoseconds.
pub open spec fn max_duration_nanos() -> nat {
    18446744073709551615 * 1_000_000_000 + 999_999_999
}

/// `Duration::as_nanos`: the total length in nanoseconds. A `Duration`
/// holds whole seconds as a `u64` and less than a second of nanoseconds, so
/// the total is at most `max_duration_nanos()`.
#[verifier::external_body]
pub(crate) fn as_nanos(d: &Duration) -> (n: u128)
    ensures
        n == duration_nanos(*d),
        n <= max_duration_nanos(),
{
    d.as_nanos()
}

/// `Duration::new(secs, nanos)` for `nanos` under one second: a duration of
/// exactly `secs` seconds and `nanos` nanoseconds.
#[verifier::external_body]
pub(crate) fn duration_new(secs: u64, nanos: u32) -> (d: Duration)
    requires
        nanos < 1_000_000_000,
    ensures
        duration_nanos(d) == secs * 1_000_000_000 + nanos,
{
    Duration::new(secs, nanos)
}

/// `Instant::elapsed`: the time since `start`. It depends on the clock, so
/// nothing is stated of it beyond what every `Duration` satisfies.
#[verifier::external_body]
pub(crate) fn elapsed(start: &Instant) -> Duration {
    start.elapsed()
}

/// A duration of `nanos` nanoseconds.
pub fn duration_from_nanos(nanos: u128) -> (d: Duration)
    requires
        nanos <= max_duration_nanos(),
    ensures
        duration_nanos(d) == nanos,
{
    let secs = nanos / NANOS_PER_SEC;
    let sub = nanos % NANOS_PER_SEC;
    duration_new(secs as u64, sub as u32)
}

/// Whole seconds of a duration (`Duration::as_secs`).
pub fn whole_secs(d: &Duration) -> (s: u64)
    ensures
        s == duration_nanos(*d) / 1_000_000_000,
{
    let n = as_nanos(d);
    (n / NANOS_PER_SEC) as u64
}

} // verus!
