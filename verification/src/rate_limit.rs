//! Cross-thread rate limiting of noisy call sites, at a granularity of whole
//! seconds.
//!
//! A limiter keeps one number, shared by the threads: the second (counted
//! from an arbitrary epoch) before which calls are refused. `rate_limit_step`
//! decides one attempt; the caller then swaps the number it read for the new
//! one and makes the call only if the swap succeeds.

use std::time::Duration;
use vstd::prelude::*;
use crate::reporters::{duration_secs, duration_subsec_nanos};

verus! {

/// Wraps `Duration::as_secs`: the whole seconds of `d`.
#[verifier::external_body]
fn duration_as_secs(d: Duration) -> (r: u64)
    ensures
        r == duration_secs(d),
{
    d.as_secs()
}

/// One second carried from the sub-second parts when `a + b` is taken, or
/// none.
pub open spec fn nanos_carry(a: Duration, b: Duration) -> int {
    if duration_subsec_nanos(a) + duration_subsec_nanos(b) >= 1_000_000_000 {
        1
    } else {
        0
    }
}

/// Wraps `Duration::checked_add`: the exact sum of `a` and `b`, whose
/// sub-second parts carry into the seconds, or `None` when the seconds of
/// the sum exceed `u64::MAX`.
#[verifier::external_body]
fn duration_checked_add(a: Duration, b: Duration) -> (r: Option<Duration>)
    ensures
        (match r {
            Some(c) => {
                &&& duration_secs(c) == duration_secs(a) + duration_secs(b) + nanos_carry(a, b)
                &&& duration_subsec_nanos(c) == duration_subsec_nanos(a) + duration_subsec_nanos(b)
                    - 1_000_000_000 * nanos_carry(a, b)
            },
            None => duration_secs(a) + duration_secs(b) + nanos_carry(a, b) > u64::MAX,
        }),
{
    a.checked_add(b)
}

/// The first second at which a call is allowed again after one allowed at
/// `time`: the whole seconds of `time + interval`, or `u64::MAX` (the
/// seconds of `Duration::MAX`) when that sum overflows.
pub open spec fn next_allowed_second(time: Duration, interval: Duration) -> u64 {
    let s = duration_secs(time) + duration_secs(interval) + nanos_carry(time, interval);
    if s > u64::MAX {
        u64::MAX
    } else {
        s as u64
    }
}

/// Decides one attempt of a rate-limited call.
///
/// `next` is the limiter's current value and `time` the time since the
/// limiter's epoch. The attempt is refused (`None`) while the whole seconds
/// of `time` are below `next`; otherwise it is allowed, and the result is
/// the limiter's new value: `interval` after `time`, saturating.
pub fn rate_limit_step(next: u64, time: Duration, interval: Duration) -> (r: Option<u64>)
    ensures
        r == (if next <= duration_secs(time) {
            Some(next_allowed_second(time, interval))
        } else {
            None
        }),
{
    if next <= duration_as_secs(time) {
        let new_next = match duration_checked_add(time, interval) {
            Some(sum) => duration_as_secs(sum),
            None => u64::MAX,
        };
        Some(new_next)
    } else {
        None
    }
}

/// After an attempt allowed at `time`, every attempt at a time `later`
/// whose whole seconds are below those of `time` plus those of `interval`
/// is refused. (The one exception is an attempt at the last representable
/// second, where the limiter's value saturates.)
pub proof fn lemma_one_call_per_interval(time: Duration, interval: Duration, later: Duration)
    requires
        duration_secs(later) < duration_secs(time) + duration_secs(interval),
        duration_secs(later) < u64::MAX,
    ensures
        duration_secs(later) < next_allowed_second(time, interval),
{
}

} // verus!
