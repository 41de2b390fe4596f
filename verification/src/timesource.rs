//! Time sources: the system clock, or a custom source for tests.
//!
//! A time source is chosen explicitly, else from an override that the caller
//! installs, else the system clock. The override is an ordinary value here;
//! a program keeps one per thread.

use std::sync::Arc;
use std::time::{Duration, Instant as StdInstant, SystemTime as StdSystemTime, SystemTimeError};
use vstd::prelude::*;

verus! {

#[verifier::external_type_specification]
#[verifier::external_body]
pub struct ExStdSystemTime(StdSystemTime);

#[verifier::external_type_specification]
#[verifier::external_body]
pub struct ExStdInstant(StdInstant);

#[verifier::external_type_specification]
#[verifier::external_body]
pub struct ExSystemTimeError(SystemTimeError);

/// Gives core's reflexive conversion (`impl<T> From<T> for T`) its contract:
/// it returns its argument unchanged.
pub assume_specification<Conv>[ <Conv as core::convert::From<Conv>>::from ](t: Conv) -> (r: Conv)
    ensures
        r == t,
;

/// Trait for providing custom time sources.
pub trait Time: Send + Sync {
    /// The system time that every reading of this source gives, for a
    /// source that always reads the same time; `None` otherwise.
    open spec fn fixed_now(&self) -> Option<StdSystemTime> {
        None
    }

    /// The instant that every reading of this source gives, for a source
    /// that always reads the same instant; `None` otherwise.
    open spec fn fixed_instant(&self) -> Option<StdInstant> {
        None
    }

    /// Get the current system time.
    fn now(&self) -> (r: StdSystemTime)
        ensures
            self.fixed_now() matches Some(t) ==> r == t,
    ;

    /// Get the current instant.
    fn instant(&self) -> (r: StdInstant)
        ensures
            self.fixed_instant() matches Some(i) ==> r == i,
    ;
}

/// Different time source options.
pub enum TimeSource {
    /// Use the system time.
    System,
    /// Use a custom time source.
    Custom(Arc<Box<dyn Time>>),
}

/// Reads the system clock. Wraps `std::time::SystemTime::now`; the result
/// depends on the clock, so nothing is stated of it.
#[verifier::external_body]
pub(crate) fn std_system_now() -> StdSystemTime {
    StdSystemTime::now()
}

/// Reads the monotonic clock. Wraps `std::time::Instant::now`; the result
/// depends on the clock, so nothing is stated of it.
#[verifier::external_body]
fn std_instant_now() -> StdInstant {
    StdInstant::now()
}

impl TimeSource {
    /// Get the current `SystemTime` from this time source.
    pub fn system_time(&self) -> (r: SystemTime)
        ensures
            r.spec_time_source() == *self,
            source_fixed_now(*self) matches Some(t) ==> r.spec_value() == t,
    {
        match self {
            TimeSource::System => SystemTime::new(std_system_now(), self),
            TimeSource::Custom(ts) => SystemTime::new(ts.now(), self),
        }
    }

    /// Get the current instant from this time source.
    pub fn instant(&self) -> (r: Instant)
        ensures
            r.spec_time_source() == *self,
            source_fixed_instant(*self) matches Some(i) ==> r.spec_value() == i,
    {
        match self {
            TimeSource::System => Instant::new(std_instant_now(), self),
            TimeSource::Custom(ts) => Instant::new(ts.instant(), self),
        }
    }

    /// Create a new `TimeSource` with a custom time implementation.
    pub fn custom<T: Time + 'static>(custom: T) -> (r: TimeSource)
        ensures
            r matches TimeSource::Custom(a) && *a == boxed_time(custom),
            source_fixed_now(r) == custom.fixed_now(),
            source_fixed_instant(r) == custom.fixed_instant(),
    {
        TimeSource::Custom(share_time(custom))
    }
}

/// The system time that every reading of `ts` gives, when it always reads
/// the same one (never for the system clock).
pub open spec fn source_fixed_now(ts: TimeSource) -> Option<StdSystemTime> {
    match ts {
        TimeSource::System => None,
        TimeSource::Custom(a) => (**a).fixed_now(),
    }
}

/// The instant that every reading of `ts` gives, when it always reads the
/// same one (never for the system clock).
pub open spec fn source_fixed_instant(ts: TimeSource) -> Option<StdInstant> {
    match ts {
        TimeSource::System => None,
        TimeSource::Custom(a) => (**a).fixed_instant(),
    }
}

/// A time implementation boxed as a `dyn Time`.
pub open spec fn boxed_time<T: Time + 'static>(t: T) -> Box<dyn Time> {
    Box::new(t)
}

/// Puts a custom time implementation behind a shared pointer.
///
/// Wraps `Arc::new` of `Box::new`, with the unsizing coercion to `Box<dyn Time>`
/// that verified code cannot write; the pointer holds `t`, and calls through
/// it dispatch to `t`'s implementation, so it reads what `t` reads.
#[verifier::external_body]
fn share_time<T: Time + 'static>(t: T) -> (r: Arc<Box<dyn Time>>)
    ensures
        *r == boxed_time(t),
        (**r).fixed_now() == t.fixed_now(),
        (**r).fixed_instant() == t.fixed_instant(),
{
    Arc::new(Box::new(t))
}

/// Wraps `Arc::clone`: the clone points at the same time implementation.
#[verifier::external_body]
fn clone_shared_time(a: &Arc<Box<dyn Time>>) -> (r: Arc<Box<dyn Time>>)
    ensures
        r == *a,
{
    Arc::clone(a)
}

impl Clone for TimeSource {
    fn clone(&self) -> (r: Self)
        ensures
            r == *self,
    {
        match self {
            TimeSource::System => TimeSource::System,
            TimeSource::Custom(ts) => TimeSource::Custom(clone_shared_time(ts)),
        }
    }
}

/// `Instant` wrapper that remembers the time source it came from.
pub struct Instant {
    value: StdInstant,
    time_source: TimeSource,
}

/// `SystemTime` wrapper that remembers the time source it came from.
pub struct SystemTime {
    value: StdSystemTime,
    time_source: TimeSource,
}

impl Instant {
    /// The time source this instant came from.
    pub closed spec fn spec_time_source(self) -> TimeSource {
        self.time_source
    }

    /// The instant, as the standard library represents it.
    pub closed spec fn spec_value(self) -> StdInstant {
        self.value
    }

    fn new(std: StdInstant, ts: &TimeSource) -> (r: Self)
        ensures
            r.spec_value() == std,
            r.spec_time_source() == *ts,
    {
        Self { value: std, time_source: ts.clone() }
    }
}

impl SystemTime {
    /// The time source this time came from.
    pub closed spec fn spec_time_source(self) -> TimeSource {
        self.time_source
    }

    /// The time, as the standard library represents it.
    pub closed spec fn spec_value(self) -> StdSystemTime {
        self.value
    }

    /// Creates this SystemTime from a `std::time::SystemTime` and a provided
    /// time source.
    pub fn new(std: StdSystemTime, ts: &TimeSource) -> (r: Self)
        ensures
            r.spec_value() == std,
            r.spec_time_source() == *ts,
    {
        Self { value: std, time_source: ts.clone() }
    }
}


/// What `std::time::Instant`'s subtraction returns: the duration from
/// `earlier` to `later`, zero when `later` is not later.
pub uninterp spec fn std_instant_sub(later: StdInstant, earlier: StdInstant) -> Duration;

/// Wraps `std::time::Instant`'s `Sub`, which saturates; a function of its two
/// arguments alone.
#[verifier::external_body]
fn instant_difference(later: StdInstant, earlier: StdInstant) -> (r: Duration)
    ensures
        r == std_instant_sub(later, earlier),
{
    later - earlier
}

/// What `std::time::SystemTime::duration_since` returns for `t` and
/// `earlier`: the time from `earlier` to `t`, or an error when `earlier` is
/// later than `t`.
pub uninterp spec fn std_duration_since(t: StdSystemTime, earlier: StdSystemTime) -> Result<
    Duration,
    SystemTimeError,
>;

/// Wraps `std::time::SystemTime::duration_since`, a function of its two
/// arguments alone.
#[verifier::external_body]
pub(crate) fn system_time_duration_since(t: StdSystemTime, earlier: StdSystemTime) -> (r: Result<
    Duration,
    SystemTimeError,
>)
    ensures
        r == std_duration_since(t, earlier),
{
    t.duration_since(earlier)
}

/// Wraps `PartialEq::eq` of `std::time::SystemTime`, which compares the
/// represented points in time.
#[verifier::external_body]
fn system_time_eq(a: &StdSystemTime, b: &StdSystemTime) -> (r: bool)
    ensures
        r == (*a == *b),
{
    a == b
}

impl Instant {
    /// Create a new `Instant` from the given `TimeSource`.
    pub fn now(ts: &TimeSource) -> (r: Self)
        ensures
            r.spec_time_source() == *ts,
    {
        ts.instant()
    }

    /// Returns the amount of time elapsed since this instant was created,
    /// as measured by the time source it came from.
    pub fn elapsed(&self) -> (r: Duration)
        ensures
            exists|now: StdInstant| r == std_instant_sub(now, self.spec_value()),
            exists|reading: Instant|
                call_ensures(TimeSource::instant, (&self.spec_time_source(),), reading) && r
                    == std_instant_sub(reading.spec_value(), self.spec_value()),
            source_fixed_instant(self.spec_time_source()) matches Some(i) ==> r == std_instant_sub(
                i,
                self.spec_value(),
            ),
    {
        let ts = &self.time_source;
        let reading = ts.instant();
        let now = reading.as_std();
        let r = instant_difference(now, self.value);
        assert(r == std_instant_sub(now, self.spec_value()));
        r
    }

    /// Convert this `Instant` to a `std::time::Instant`.
    pub fn as_std(&self) -> (r: StdInstant)
        ensures
            r == self.spec_value(),
    {
        self.value
    }
}

impl SystemTime {
    /// See `std::time::SystemTime::duration_since`.
    pub fn duration_since<T: Into<StdSystemTime>>(&self, earlier: T) -> (r: Result<
        Duration,
        SystemTimeError,
    >)
        ensures
            exists|e: StdSystemTime|
                call_ensures(T::into, (earlier,), e) && r == std_duration_since(
                    self.spec_value(),
                    e,
                ),
    {
        let e: StdSystemTime = earlier.into();
        let r = system_time_duration_since(self.value, e);
        assert(r == std_duration_since(self.spec_value(), e));
        r
    }

    /// Time elapsed since this time, as measured by the time source it
    /// came from. See `std::time::SystemTime::elapsed`.
    pub fn elapsed(&self) -> (r: Result<Duration, SystemTimeError>)
        ensures
            exists|now: StdSystemTime| r == std_duration_since(now, self.spec_value()),
            source_fixed_now(self.spec_time_source()) matches Some(t) ==> r == std_duration_since(
                t,
                self.spec_value(),
            ),
    {
        let now = self.time_source().system_time();
        let n = now.as_std();
        let r = system_time_duration_since(n, self.value);
        assert(r == std_duration_since(n, self.spec_value()));
        r
    }

    /// Convert this `SystemTime` to a `std::time::SystemTime`.
    pub fn as_std(&self) -> (r: StdSystemTime)
        ensures
            r == self.spec_value(),
    {
        self.value
    }

    /// The time source this time came from.
    fn time_source(&self) -> (r: &TimeSource)
        ensures
            *r == self.spec_time_source(),
    {
        &self.time_source
    }
}

impl PartialEq for SystemTime {
    fn eq(&self, other: &SystemTime) -> (r: bool) {
        system_time_eq(&self.value, &other.value)
    }
}

impl vstd::std_specs::cmp::PartialEqSpecImpl for SystemTime {
    open spec fn obeys_eq_spec() -> bool {
        true
    }

    open spec fn eq_spec(&self, other: &SystemTime) -> bool {
        self.spec_value() == other.spec_value()
    }
}

impl PartialEq<StdSystemTime> for SystemTime {
    fn eq(&self, other: &StdSystemTime) -> (r: bool) {
        system_time_eq(&self.value, other)
    }
}

impl vstd::std_specs::cmp::PartialEqSpecImpl<StdSystemTime> for SystemTime {
    open spec fn obeys_eq_spec() -> bool {
        true
    }

    open spec fn eq_spec(&self, other: &StdSystemTime) -> bool {
        self.spec_value() == *other
    }
}

impl From<SystemTime> for StdSystemTime {
    fn from(val: SystemTime) -> (r: StdSystemTime) {
        val.value
    }
}

impl vstd::std_specs::convert::FromSpecImpl<SystemTime> for StdSystemTime {
    open spec fn obeys_from_spec() -> bool {
        true
    }

    open spec fn from_spec(val: SystemTime) -> StdSystemTime {
        val.spec_value()
    }
}

impl From<Instant> for StdInstant {
    fn from(instant: Instant) -> (r: StdInstant) {
        instant.value
    }
}

impl vstd::std_specs::convert::FromSpecImpl<Instant> for StdInstant {
    open spec fn obeys_from_spec() -> bool {
        true
    }

    open spec fn from_spec(instant: Instant) -> StdInstant {
        instant.spec_value()
    }
}

impl Default for TimeSource {
    fn default() -> (r: Self)
        ensures
            r is System,
    {
        TimeSource::System
    }
}

/// The time-source override of one thread: the source installed by the
/// innermost `set_time_source` that has not been undone.
pub struct TimeSourceOverride {
    /// The installed override, if any.
    pub current: Option<TimeSource>,
}

impl TimeSourceOverride {
    /// No override installed.
    pub fn new() -> (r: Self)
        ensures
            r.current is None,
    {
        TimeSourceOverride { current: None }
    }
}

/// Undoes a `set_time_source`, putting back the override it replaced.
#[must_use]
pub struct ThreadLocalTimeSourceGuard {
    previous: Option<TimeSource>,
}

impl ThreadLocalTimeSourceGuard {
    /// The override that was installed before this guard's.
    pub closed spec fn spec_previous(self) -> Option<TimeSource> {
        self.previous
    }

    /// Puts back the override that was installed before this guard's.
    pub fn restore(self, overrides: &mut TimeSourceOverride)
        ensures
            final(overrides).current == self.spec_previous(),
    {
        overrides.current = self.previous;
    }
}

/// Install `time_source` as the override and return a guard that undoes it.
pub fn set_time_source(overrides: &mut TimeSourceOverride, time_source: TimeSource) -> (r:
    ThreadLocalTimeSourceGuard)
    ensures
        final(overrides).current == Some(time_source),
        r.spec_previous() == old(overrides).current,
{
    let previous = overrides.current.take();
    overrides.current = Some(time_source);
    ThreadLocalTimeSourceGuard { previous }
}

/// Run `f` with `time_source` installed as the override, then undo the
/// override.
pub fn with_time_source<F: FnOnce(&TimeSourceOverride) -> R, R>(
    overrides: &mut TimeSourceOverride,
    time_source: TimeSource,
    f: F,
) -> (r: R)
    requires
        forall|o: TimeSourceOverride| o.current == Some(time_source) ==> f.requires((&o,)),
    ensures
        final(overrides).current == old(overrides).current,
        exists|o: TimeSourceOverride| o.current == Some(time_source) && f.ensures((&o,), r),
{
    let guard = set_time_source(overrides, time_source);
    let r = f(overrides);
    guard.restore(overrides);
    r
}

/// The time source to use: the explicitly provided one, else the installed
/// override, else the system clock.
pub open spec fn spec_get_time_source(
    overrides: TimeSourceOverride,
    ts: Option<TimeSource>,
) -> TimeSource {
    match ts {
        Some(ts) => ts,
        None => match overrides.current {
            Some(ts) => ts,
            None => TimeSource::System,
        },
    }
}

/// Get the current time source, following the priority order:
/// 1. explicitly provided time source,
/// 2. installed override,
/// 3. system default.
pub fn get_time_source(overrides: &TimeSourceOverride, ts: Option<TimeSource>) -> (r: TimeSource)
    ensures
        r == spec_get_time_source(*overrides, ts),
{
    if let Some(ts) = ts {
        return ts;
    }
    match &overrides.current {
        Some(ts) => ts.clone(),
        None => TimeSource::System,
    }
}

/// Get the current time source: the installed override, else the system
/// default.
pub fn time_source(overrides: &TimeSourceOverride) -> (r: TimeSource)
    ensures
        r == spec_get_time_source(*overrides, None),
{
    get_time_source(overrides, None)
}

/// What `Instant::elapsed` answers is measured on the instant's own time
/// source: it is the time from the instant to a reading of that source
/// taken by the call (for the system clock, a reading of the clock).
pub proof fn lemma_elapsed_reads_own_source(i: Instant, r: Duration)
    requires
        call_ensures(Instant::elapsed, (&i,), r),
    ensures
        exists|reading: Instant|
            call_ensures(TimeSource::instant, (&i.spec_time_source(),), reading) && r
                == std_instant_sub(reading.spec_value(), i.spec_value()),
{
}

/// Installing an override and then undoing it leaves the override as it
/// was; while installed, the override is chosen unless a source is given
/// explicitly, so the chosen source reads what the installed one reads.
pub proof fn lemma_override_is_scoped(
    before: TimeSourceOverride,
    during: TimeSourceOverride,
    after: TimeSourceOverride,
    guard: ThreadLocalTimeSourceGuard,
    installed: TimeSource,
    explicit: Option<TimeSource>,
)
    requires
        during.current == Some(installed),
        guard.spec_previous() == before.current,
        after.current == guard.spec_previous(),
    ensures
        after.current == before.current,
        spec_get_time_source(after, explicit) == spec_get_time_source(before, explicit),
        spec_get_time_source(during, explicit) == (match explicit {
            Some(ts) => ts,
            None => installed,
        }),
        source_fixed_now(spec_get_time_source(during, None)) == source_fixed_now(installed),
        source_fixed_instant(spec_get_time_source(during, None)) == source_fixed_instant(installed),
{
}

} // verus!
