//! Reading the monotonic clock.
//!
//! The time-dependent components take the current time as a number of
//! milliseconds since a fixed start instant.  The functions here read that
//! number from the operating system's monotonic clock; nothing is promised
//! about the value read, so every component also offers an `_at` variant that
//! takes the time as an argument and is specified exactly.

use std::time::{Duration, Instant};
use vstd::prelude::*;

verus! {

#[verifier::external_type_specification]
#[verifier::external_body]
pub struct ExInstant(Instant);

/// Calls `std::time::Instant::now`, which reads the monotonic clock.
/// Nothing is claimed about the instant returned.
#[verifier::external_body]
pub(crate) fn instant_now() -> Instant {
    Instant::now()
}

/// Calls `std::time::Instant::elapsed`, the time that has passed since
/// `start`.  Nothing is claimed about the duration returned: it depends on
/// the clock.
#[verifier::external_body]
fn instant_elapsed(start: &Instant) -> Duration {
    start.elapsed()
}

/// Calls `std::time::Duration::as_millis`, the whole number of milliseconds
/// in `d`.  A `Duration` is opaque here, so nothing is claimed.
#[verifier::external_body]
fn duration_as_millis(d: Duration) -> u128 {
    d.as_millis()
}

/// Milliseconds elapsed since `start`, saturated at `u64::MAX`.
pub fn elapsed_ms(start: &Instant) -> u64 {
    let ms: u128 = duration_as_millis(instant_elapsed(start));
    if ms > 0xffff_ffff_ffff_ffffu128 {
        0xffff_ffff_ffff_ffffu64
    } else {
        ms as u64
    }
}

/// Time elapsed between `then` and `now`, never negative: a clock reading that
/// lies before `then` counts as no time at all.
pub open spec fn spec_elapsed_between(now: u64, then: u64) -> u64 {
    if now >= then { (now - then) as u64 } else { 0 }
}

/// Executable form of [`spec_elapsed_between`].
pub fn elapsed_between(now: u64, then: u64) -> (r: u64)
    ensures
        r == spec_elapsed_between(now, then),
{
    if now >= then { now - then } else { 0 }
}

/// A counter step that wraps to zero past `usize::MAX`, as the atomic
/// counters of the statistics do.
pub open spec fn spec_count_up(x: usize) -> usize {
    if x == usize::MAX { 0 } else { (x + 1) as usize }
}

/// Executable form of [`spec_count_up`].
pub fn count_up(x: usize) -> (r: usize)
    ensures
        r == spec_count_up(x),
{
    if x == usize::MAX { 0 } else { x + 1 }
}

/// The same wrapping step for `u64` counters.
pub open spec fn spec_count_up_u64(x: u64) -> u64 {
    if x == u64::MAX { 0 } else { (x + 1) as u64 }
}

/// Executable form of [`spec_count_up_u64`].
pub fn count_up_u64(x: u64) -> (r: u64)
    ensures
        r == spec_count_up_u64(x),
{
    if x == u64::MAX { 0 } else { x + 1 }
}

} // verus!
