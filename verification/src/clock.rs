use std::time::{Duration, SystemTime, SystemTimeError, UNIX_EPOCH};
use vstd::prelude::*;

verus! {

/// Wall-clock instants, as the system clock reports them.
#[verifier::external_type_specification]
#[verifier::external_body]
pub struct ExSystemTime(SystemTime);

/// What `SystemTime::duration_since` reports when the second instant lies
/// after the first.
#[verifier::external_type_specification]
#[verifier::external_body]
pub struct ExSystemTimeError(SystemTimeError);

/// `SystemTime::now` reads the system clock. Nothing is promised of the instant
/// it returns: it depends on the machine and the moment of the call.
pub assume_specification[ SystemTime::now ]() -> SystemTime;

/// The constant `std::time::UNIX_EPOCH`, the instant 1970-01-01 00:00:00 UTC.
/// A `SystemTime` is opaque here, so no clause describes it.
#[verifier::external_body]
fn unix_epoch() -> SystemTime {
    UNIX_EPOCH
}

/// `SystemTime::duration_since` gives how far `earlier` lies before `t`, or,
/// when `earlier` lies after `t`, an error that holds the distance the other
/// way. Instants and durations are opaque here, so no clause relates them.
pub assume_specification[ SystemTime::duration_since ](t: &SystemTime, earlier: SystemTime) -> Result<Duration, SystemTimeError>;

/// `SystemTimeError::duration` gives the distance between the two instants
/// that were compared. It is opaque here, so no clause describes it.
pub assume_specification[ SystemTimeError::duration ](e: &SystemTimeError) -> Duration;

/// `Duration::as_nanos` gives the total number of nanoseconds in a duration.
/// A `Duration` is opaque here, so no clause relates the result to it.
pub assume_specification[ Duration::as_nanos ](d: &Duration) -> u128;

/// Nanoseconds in a second.
pub const NANOS_PER_SEC: i128 = 1_000_000_000;

/// The earliest a system-clock instant lies, in nanoseconds after the Unix
/// epoch: `i64::MIN` whole seconds.
pub const MIN_EPOCH_NANOS: i128 = -9_223_372_036_854_775_808_000_000_000;

/// The latest a system-clock instant lies, in nanoseconds after the Unix
/// epoch: `i64::MAX` whole seconds and 999,999,999 nanoseconds.
pub const MAX_EPOCH_NANOS: i128 = 9_223_372_036_854_775_807_999_999_999;

/// The instant, in nanoseconds after the Unix epoch, of a clock reading:
/// `Ok(n)` for `n` nanoseconds after the epoch, `Err(n)` for `n` nanoseconds
/// before it. A reading beyond the range of system-clock instants is held at
/// the nearer end of that range.
pub open spec fn clock_reading_nanos(reading: Result<u128, u128>) -> int {
    match reading {
        Ok(after) => if after <= MAX_EPOCH_NANOS {
            after as int
        } else {
            MAX_EPOCH_NANOS as int
        },
        Err(before) => if before <= -MIN_EPOCH_NANOS {
            -(before as int)
        } else {
            MIN_EPOCH_NANOS as int
        },
    }
}

/// An instant on the system clock, held as the nanoseconds after the Unix
/// epoch (negative before it), from `MIN_EPOCH_NANOS` to `MAX_EPOCH_NANOS`.
#[derive(Clone, Copy, Debug)]
pub struct Timestamp {
    nanos: i128,
}

impl Timestamp {
    #[verifier::type_invariant]
    spec fn in_range(self) -> bool {
        MIN_EPOCH_NANOS <= self.nanos <= MAX_EPOCH_NANOS
    }

    /// The nanoseconds after the Unix epoch.
    pub closed spec fn epoch_nanos(self) -> int {
        self.nanos as int
    }

    /// The instant `nanos` nanoseconds after the Unix epoch, or `None` when
    /// that lies outside the range of system-clock instants.
    pub fn from_epoch_nanos(nanos: i128) -> (r: Option<Self>)
        ensures
            r is Some <==> MIN_EPOCH_NANOS <= nanos <= MAX_EPOCH_NANOS,
            r matches Some(t) ==> t.epoch_nanos() == nanos,
    {
        if MIN_EPOCH_NANOS <= nanos && nanos <= MAX_EPOCH_NANOS {
            Some(Timestamp { nanos })
        } else {
            None
        }
    }

    /// The nanoseconds after the Unix epoch.
    pub fn as_epoch_nanos(&self) -> (n: i128)
        ensures
            n == self.epoch_nanos(),
            MIN_EPOCH_NANOS <= n <= MAX_EPOCH_NANOS,
    {
        proof {
            use_type_invariant(self);
        }
        self.nanos
    }

    /// The instant of a clock reading: `Ok(n)` for `n` nanoseconds after the
    /// Unix epoch, `Err(n)` for `n` nanoseconds before it, held at the nearer
    /// end of the range of system-clock instants when it lies beyond it.
    pub fn from_clock_reading(reading: Result<u128, u128>) -> (t: Self)
        ensures
            t.epoch_nanos() == clock_reading_nanos(reading),
    {
        let nanos = match reading {
            Ok(after) => if after <= MAX_EPOCH_NANOS as u128 {
                after as i128
            } else {
                MAX_EPOCH_NANOS
            },
            Err(before) => if before <= 9_223_372_036_854_775_808_000_000_000u128 {
                -(before as i128)
            } else {
                MIN_EPOCH_NANOS
            },
        };
        Timestamp { nanos }
    }

    /// The current instant on the system clock: the clock is read against
    /// the Unix epoch and the reading goes to `from_clock_reading`. Nothing is
    /// promised of the reading: it depends on the moment of the call.
    pub fn now() -> (t: Self) {
        let clock = SystemTime::now();
        let reading = match clock.duration_since(unix_epoch()) {
            Ok(after) => Ok(after.as_nanos()),
            Err(before) => Err(before.duration().as_nanos()),
        };
        Timestamp::from_clock_reading(reading)
    }
}

/// Whole seconds from `from` to `to`, or `None` when `to` lies before `from`.
pub open spec fn whole_seconds_between(from: Timestamp, to: Timestamp) -> Option<u64> {
    if to.epoch_nanos() >= from.epoch_nanos() {
        Some(((to.epoch_nanos() - from.epoch_nanos()) / NANOS_PER_SEC as int) as u64)
    } else {
        None
    }
}

/// Whole seconds from `from` to `to`, or `None` when `to` lies before `from`.
pub fn seconds_between(from: &Timestamp, to: &Timestamp) -> (r: Option<u64>)
    ensures
        r == whole_seconds_between(*from, *to),
{
    let a = from.as_epoch_nanos();
    let b = to.as_epoch_nanos();
    if b >= a {
        let d: u128 = (b - a) as u128;
        let secs = d / 1_000_000_000u128;
        assert(secs <= u64::MAX) by (nonlinear_arith)
            requires
                d <= 18_446_744_073_709_551_615_999_999_999u128,
                secs == d / 1_000_000_000u128,
        ;
        Some(secs as u64)
    } else {
        None
    }
}

} // verus!
