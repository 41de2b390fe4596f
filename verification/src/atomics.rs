//! Counters and the closing of atomics.

use core::sync::atomic::{AtomicBool, AtomicU16, AtomicU32, AtomicU64, AtomicU8, AtomicUsize};
use vstd::prelude::*;
use crate::close_value::CloseValue;

verus! {

/// A thin wrapper around `AtomicU64` that implements `CloseValue`.
///
/// The atomic is shared: other threads may change it between any two
/// operations, so the contracts below say nothing of the value an operation
/// observes.
#[derive(Default, Debug)]
pub struct Counter(pub AtomicU64);

/// The count a guard leaves behind when it observes `v`: one less, but
/// never below zero.
pub open spec fn decremented(v: u64) -> u64 {
    if v == 0 {
        0
    } else {
        (v - 1) as u64
    }
}

/// The update a `CounterGuard` applies on drop.
pub fn decrement_update(v: u64) -> (r: Option<u64>)
    ensures
        r == Some(decremented(v)),
{
    Some(v.saturating_sub(1))
}

/// The count after an increment that observed `previous`: one more,
/// wrapping to zero past `u64::MAX` as a release build's `+ 1` does.
pub open spec fn incremented(previous: u64) -> u64 {
    if previous == u64::MAX {
        0
    } else {
        (previous + 1) as u64
    }
}

/// The count that `Counter::increment_scoped` reports after its increment
/// observed `previous`.
pub fn increment_count(previous: u64) -> (r: u64)
    ensures
        r == incremented(previous),
{
    previous.wrapping_add(1)
}

impl Counter {
    /// Create a new `Counter`, initialized to a specific value.
    pub fn new(starting_count: u64) -> (r: Self) {
        Self(AtomicU64::new(starting_count))
    }

    /// Add 1 to this counter.
    pub fn increment(&self) {
        self.0.fetch_add(1, std::sync::atomic::Ordering::Relaxed);
    }

    /// Increments the count by 1, returning a guard that decrements the
    /// count on drop, and the new value. Useful for tracking in-flight
    /// operations. The count is `incremented` of the value the increment
    /// observed, which other threads may have set.
    pub fn increment_scoped(&self) -> (r: (CounterGuard<'_>, u64))
        ensures
            r.0.guards(self),
            exists|previous: u64| r.1 == incremented(previous),
    {
        let previous = self.0.fetch_add(1, std::sync::atomic::Ordering::Relaxed);
        let count = increment_count(previous);
        (CounterGuard(&self.0), count)
    }

    /// Increase the value of this counter by `i`.
    pub fn add(&self, i: u64) {
        self.0.fetch_add(i, std::sync::atomic::Ordering::Relaxed);
    }

    /// Set this counter to `i`, discarding the previous value.
    pub fn set(&self, i: u64) {
        self.0.store(i, std::sync::atomic::Ordering::SeqCst);
    }
}

/// A guard that decrements a `Counter` when dropped.
///
/// Returned by `Counter::increment_scoped`.
pub struct CounterGuard<'a>(&'a AtomicU64);

impl<'a> CounterGuard<'a> {
    /// Whether this guard decrements the counter `c`.
    pub closed spec fn guards(self, c: &Counter) -> bool {
        self.0 == &c.0
    }
}

/// Saturating decrement of a shared counter.
///
/// Wraps `AtomicU64::fetch_update` with the update `decrement_update`; the
/// value it observes is whatever other threads left there, so nothing is
/// stated of it.
#[verifier::external_body]
fn atomic_saturating_decrement(a: &AtomicU64)
    opens_invariants none
    no_unwind
{
    a.fetch_update(
        std::sync::atomic::Ordering::Relaxed,
        std::sync::atomic::Ordering::Relaxed,
        |v| decrement_update(v),
    ).ok();
}

impl Drop for CounterGuard<'_> {
    fn drop(&mut self)
        opens_invariants none
        no_unwind
    {
        atomic_saturating_decrement(self.0);
    }
}

impl<'a, 'b> CloseValue for &'b CounterGuard<'a> {
    type Closed = u64;

    fn close(self) -> u64 {
        self.0.load(std::sync::atomic::Ordering::Relaxed)
    }
}

impl<'a> CloseValue for CounterGuard<'a> {
    type Closed = u64;

    /// Closes the guard as a borrowed guard: the count it reads.
    fn close(self) -> (r: u64)
        ensures
            call_ensures(<&CounterGuard<'a> as CloseValue>::close, (&self,), r),
    {
        (&self).close()
    }
}

impl<'a> CloseValue for &'a Counter {
    type Closed = u64;

    /// Closes the counter's atomic: the count it reads.
    fn close(self) -> (r: u64)
        ensures
            call_ensures(<&AtomicU64 as CloseValue>::close, (&self.0,), r),
    {
        (&self.0).close()
    }
}

impl CloseValue for Counter {
    type Closed = u64;

    /// Closes the counter's atomic: the count it reads.
    fn close(self) -> (r: u64)
        ensures
            call_ensures(<AtomicU64 as CloseValue>::close, (self.0,), r),
    {
        self.0.close()
    }
}

impl<'a> CloseValue for &'a AtomicU64 {
    type Closed = u64;

    fn close(self) -> u64 {
        self.load(std::sync::atomic::Ordering::Relaxed)
    }
}

impl CloseValue for AtomicU64 {
    type Closed = u64;

    fn close(self) -> u64 {
        self.load(std::sync::atomic::Ordering::Relaxed)
    }
}

impl<'a> CloseValue for &'a AtomicU32 {
    type Closed = u32;

    fn close(self) -> u32 {
        self.load(std::sync::atomic::Ordering::Relaxed)
    }
}

impl CloseValue for AtomicU32 {
    type Closed = u32;

    fn close(self) -> u32 {
        self.load(std::sync::atomic::Ordering::Relaxed)
    }
}

impl<'a> CloseValue for &'a AtomicU16 {
    type Closed = u16;

    fn close(self) -> u16 {
        self.load(std::sync::atomic::Ordering::Relaxed)
    }
}

impl CloseValue for AtomicU16 {
    type Closed = u16;

    fn close(self) -> u16 {
        self.load(std::sync::atomic::Ordering::Relaxed)
    }
}

impl<'a> CloseValue for &'a AtomicU8 {
    type Closed = u8;

    fn close(self) -> u8 {
        self.load(std::sync::atomic::Ordering::Relaxed)
    }
}

impl CloseValue for AtomicU8 {
    type Closed = u8;

    fn close(self) -> u8 {
        self.load(std::sync::atomic::Ordering::Relaxed)
    }
}

impl<'a> CloseValue for &'a AtomicUsize {
    type Closed = usize;

    fn close(self) -> usize {
        self.load(std::sync::atomic::Ordering::Relaxed)
    }
}

impl CloseValue for AtomicUsize {
    type Closed = usize;

    fn close(self) -> usize {
        self.load(std::sync::atomic::Ordering::Relaxed)
    }
}

impl<'a> CloseValue for &'a AtomicBool {
    type Closed = bool;

    fn close(self) -> bool {
        self.load(std::sync::atomic::Ordering::Relaxed)
    }
}

impl CloseValue for AtomicBool {
    type Closed = bool;

    fn close(self) -> bool {
        self.load(std::sync::atomic::Ordering::Relaxed)
    }
}

} // verus!
