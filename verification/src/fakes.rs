//! Fake time sources for testing.

use std::sync::{Arc, Mutex};
use std::time::{Duration, Instant, SystemTime};
use vstd::prelude::*;
use crate::timesource::Time;

verus! {

#[verifier::external_type_specification]
#[verifier::external_body]
#[verifier::reject_recursive_types(T)]
pub struct ExMutex<T: ?Sized>(Mutex<T>);

/// Simple static time source that always returns the same time.
#[derive(Debug, Clone, Copy)]
pub struct StaticTimeSource {
    now: SystemTime,
    now_instant: Instant,
}

/// Reads the monotonic clock. Wraps `std::time::Instant::now`; the result
/// depends on the clock, so nothing is stated of it.
#[verifier::external_body]
fn instant_now() -> Instant {
    Instant::now()
}

/// What `std::time::Instant::checked_add` returns for an instant and a
/// duration: the later instant, or `None` when it is not representable.
pub uninterp spec fn std_instant_checked_add(i: Instant, d: Duration) -> Option<Instant>;

/// Wraps `std::time::Instant::checked_add`, a function of its two arguments
/// alone.
#[verifier::external_body]
fn instant_checked_add(i: Instant, d: Duration) -> (r: Option<Instant>)
    ensures
        r == std_instant_checked_add(i, d),
{
    i.checked_add(d)
}

impl StaticTimeSource {
    /// The system time this source returns.
    pub closed spec fn spec_now(self) -> SystemTime {
        self.now
    }

    /// The instant this source returns.
    pub closed spec fn spec_instant(self) -> Instant {
        self.now_instant
    }

    /// Create a new `StaticTimeSource` that always returns the given time.
    pub fn at_time<T: Into<SystemTime>>(time: T) -> (r: Self)
        ensures
            call_ensures(T::into, (time,), r.spec_now()),
    {
        Self { now: time.into(), now_instant: instant_now() }
    }

    /// The same source with its system time replaced.
    fn with_now(self, now: SystemTime) -> (r: Self)
        ensures
            r.spec_now() == now,
            r.spec_instant() == self.spec_instant(),
    {
        Self { now, now_instant: self.now_instant }
    }

    /// The same source with its instant moved forward by `elapsed`; kept
    /// unchanged when the moved instant is not representable.
    fn advanced(self, elapsed: Duration) -> (r: Self)
        ensures
            r.spec_now() == self.spec_now(),
            r.spec_instant() == match std_instant_checked_add(self.spec_instant(), elapsed) {
                Some(i) => i,
                None => self.spec_instant(),
            },
    {
        match instant_checked_add(self.now_instant, elapsed) {
            Some(i) => Self { now: self.now, now_instant: i },
            None => self,
        }
    }
}

impl Time for StaticTimeSource {
    open spec fn fixed_now(&self) -> Option<SystemTime> {
        Some(self.spec_now())
    }

    open spec fn fixed_instant(&self) -> Option<Instant> {
        Some(self.spec_instant())
    }

    fn now(&self) -> (r: SystemTime)
        ensures
            r == self.spec_now(),
    {
        self.now
    }

    fn instant(&self) -> (r: Instant)
        ensures
            r == self.spec_instant(),
    {
        self.now_instant
    }
}

/// Time source that is loaded with one time and can be moved by any of its
/// clones, through a shared handle.
#[derive(Debug, Clone)]
pub struct ManuallyAdvancedTimeSource(Arc<Mutex<StaticTimeSource>>);

/// Puts a static source behind a lock. Wraps `Mutex::new`.
#[verifier::external_body]
fn new_lock(ts: StaticTimeSource) -> Mutex<StaticTimeSource> {
    Mutex::new(ts)
}

/// Reads the shared static source. Wraps `Mutex::lock`; a poisoned lock
/// still yields its value. Another clone may have changed the source, so
/// nothing is stated of the result.
#[verifier::external_body]
fn read_shared(m: &Mutex<StaticTimeSource>) -> StaticTimeSource {
    *m.lock().unwrap_or_else(|poisoned| poisoned.into_inner())
}

/// Replaces the shared static source by `update` applied to it, while the
/// lock is held. Wraps `Mutex::lock`; a poisoned lock is still updated. The
/// update passed in is a verified closure of this module; the wrapper only
/// runs it on the locked value.
#[verifier::external_body]
fn update_shared<F: FnOnce(StaticTimeSource) -> StaticTimeSource>(
    m: &Mutex<StaticTimeSource>,
    update: F,
)
    requires
        forall|s: StaticTimeSource| update.requires((s,)),
{
    let mut guard = m.lock().unwrap_or_else(|poisoned| poisoned.into_inner());
    *guard = update(*guard);
}

impl ManuallyAdvancedTimeSource {
    /// Create a new `ManuallyAdvancedTimeSource` started at the given time.
    pub fn at_time<T: Into<SystemTime>>(time: T) -> (r: Self) {
        let ts = StaticTimeSource::at_time(time);
        Self(Arc::new(new_lock(ts)))
    }

    /// Update the system time loaded into this source and its clones.
    pub fn update_time<T: Into<SystemTime>>(&self, time: T) {
        let now: SystemTime = time.into();
        update_shared(&self.0, move |s: StaticTimeSource| -> (r: StaticTimeSource)
            ensures
                r.spec_now() == now,
            { s.with_now(now) });
    }

    /// Move the instant loaded into this source and its clones forward by
    /// `elapsed`.
    pub fn update_instant(&self, elapsed: Duration) {
        update_shared(&self.0, move |s: StaticTimeSource| -> (r: StaticTimeSource)
            ensures
                r.spec_now() == s.spec_now(),
            { s.advanced(elapsed) });
    }
}

impl Time for ManuallyAdvancedTimeSource {
    fn now(&self) -> SystemTime {
        read_shared(&self.0).now()
    }

    fn instant(&self) -> Instant {
        read_shared(&self.0).instant()
    }
}

} // verus!
