//! A time source that follows tokio's clock, so that tokio's time
//! pause/advance also moves it.

use std::time::{Duration, Instant as StdInstant, SystemTime};
use tokio::time::Instant as TokioInstant;
use vstd::prelude::*;
use crate::timesource::{boxed_time, std_instant_sub, Time, TimeSource};

verus! {

#[verifier::external_type_specification]
#[verifier::external_body]
pub struct ExTokioInstant(TokioInstant);

/// Reads tokio's clock. Wraps `tokio::time::Instant::now`; the result
/// depends on the clock, so nothing is stated of it.
#[verifier::external_body]
fn tokio_now() -> TokioInstant {
    TokioInstant::now()
}

/// Time on tokio's clock since `start`, zero when `start` is in the
/// future. Wraps `tokio::time::Instant::elapsed`, which reads tokio's clock
/// and takes the saturating difference of the two underlying std instants:
/// the result is that difference for some reading of the clock (which
/// reading is not stated).
#[verifier::external_body]
fn tokio_elapsed(start: TokioInstant) -> (r: Duration)
    ensures
        exists|now: TokioInstant|
            #![trigger tokio_instant_std(now)]
            r == std_instant_sub(tokio_instant_std(now), tokio_instant_std(start)),
{
    start.elapsed()
}

/// What `tokio::time::Instant::into_std` returns for an instant.
pub uninterp spec fn tokio_instant_std(i: TokioInstant) -> StdInstant;

/// Wraps `tokio::time::Instant::into_std`, a function of the instant alone.
#[verifier::external_body]
fn tokio_into_std(i: TokioInstant) -> (r: StdInstant)
    ensures
        r == tokio_instant_std(i),
{
    i.into_std()
}

/// Reads the system clock. Wraps `std::time::SystemTime::now`; the result
/// depends on the clock, so nothing is stated of it.
#[verifier::external_body]
fn system_now() -> SystemTime {
    SystemTime::now()
}

/// What `std::time::SystemTime::checked_add` returns for a time and a
/// duration: the later time, or `None` when it is not representable.
pub uninterp spec fn std_system_time_checked_add(t: SystemTime, d: Duration) -> Option<SystemTime>;

/// Wraps `std::time::SystemTime::checked_add`, a function of its two
/// arguments alone.
#[verifier::external_body]
fn system_time_checked_add(t: SystemTime, d: Duration) -> (r: Option<SystemTime>)
    ensures
        r == std_system_time_checked_add(t, d),
{
    t.checked_add(d)
}

/// The system time that a tokio source started at `start_system_time` on
/// tokio's instant `start` reads when tokio's clock reads `now`: the start
/// time moved forward by the tokio time from `start` to `now` (zero if `now`
/// is earlier), or the start time when the sum is not representable.
pub open spec fn tokio_reading(
    start_system_time: SystemTime,
    start: TokioInstant,
    now: TokioInstant,
) -> SystemTime {
    match std_system_time_checked_add(
        start_system_time,
        std_instant_sub(tokio_instant_std(now), tokio_instant_std(start)),
    ) {
        Some(t) => t,
        None => start_system_time,
    }
}

/// A time source implementation that uses tokio's time utilities.
#[derive(Copy, Clone, Debug)]
pub struct TokioTime {
    start_time: TokioInstant,
    start_system_time: SystemTime,
}

impl TokioTime {
    /// The system time this source started at.
    pub closed spec fn spec_start_system_time(self) -> SystemTime {
        self.start_system_time
    }

    /// The instant on tokio's clock at which this source started.
    pub closed spec fn spec_start_time(self) -> TokioInstant {
        self.start_time
    }

    /// Initialize a new `TokioTime` with the current system time.
    pub fn initialize() -> (r: Self) {
        Self::initialize_at(system_now())
    }

    /// Initialize a new `TokioTime` with a specific system time.
    pub fn initialize_at(initial_time: SystemTime) -> (r: Self)
        ensures
            r.spec_start_system_time() == initial_time,
    {
        Self { start_time: tokio_now(), start_system_time: initial_time }
    }
}

impl Time for TokioTime {
    /// The starting system time moved forward by the time elapsed on
    /// tokio's clock since the start; the starting time when the sum is
    /// not representable.
    fn now(&self) -> (r: SystemTime)
        ensures
            exists|elapsed: Duration|
                #![trigger std_system_time_checked_add(self.spec_start_system_time(), elapsed)]
                r == match std_system_time_checked_add(self.spec_start_system_time(), elapsed) {
                    Some(t) => t,
                    None => self.spec_start_system_time(),
                },
            exists|now: TokioInstant|
                #![trigger tokio_instant_std(now)]
                r == tokio_reading(self.spec_start_system_time(), self.spec_start_time(), now),
    {
        let elapsed = tokio_elapsed(self.start_time);
        let r = match system_time_checked_add(self.start_system_time, elapsed) {
            Some(t) => t,
            None => self.start_system_time,
        };
        assert(r == match std_system_time_checked_add(self.spec_start_system_time(), elapsed) {
            Some(t) => t,
            None => self.spec_start_system_time(),
        });
        r
    }

    fn instant(&self) -> (r: StdInstant)
        ensures
            exists|t: TokioInstant| r == tokio_instant_std(t),
    {
        let t = tokio_now();
        let r = tokio_into_std(t);
        assert(r == tokio_instant_std(t));
        r
    }
}

impl TimeSource {
    /// Create a new `TimeSource` that uses tokio's time utilities, starting
    /// at `starting_timestamp`.
    pub fn tokio(starting_timestamp: SystemTime) -> (r: Self)
        ensures
            exists|t: TokioTime|
                #![trigger boxed_time(t)]
                t.spec_start_system_time() == starting_timestamp && (r matches TimeSource::Custom(a)
                    && *a == boxed_time(t)),
    {
        TimeSource::custom(TokioTime::initialize_at(starting_timestamp))
    }
}

/// A tokio source reads its start time moved forward by the time that
/// tokio's clock has advanced since the source was initialized.
pub proof fn lemma_tokio_now_follows_tokio_clock(t: TokioTime, r: SystemTime)
    requires
        call_ensures(<TokioTime as Time>::now, (&t,), r),
    ensures
        exists|now: TokioInstant|
            #![trigger tokio_instant_std(now)]
            r == tokio_reading(t.spec_start_system_time(), t.spec_start_time(), now),
{
}

} // verus!
