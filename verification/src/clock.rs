//! The two clocks: milliseconds since the Unix epoch, and nanoseconds on a
//! clock that never goes back.

use std::time::{Duration, Instant, SystemTime, UNIX_EPOCH};

use vstd::prelude::*;

verus! {

/// The longest time that a `Duration` holds, in nanoseconds.
pub const MAX_DURATION_NS: u128 = 18_446_744_073_709_551_615_999_999_999;

/// A reading of std's wall clock: carried, never looked into.
#[verifier::external_type_specification]
#[verifier::external_body]
pub struct ExSystemTime(SystemTime);

/// A point on std's monotonic clock: carried, never looked into.
#[verifier::external_type_specification]
#[verifier::external_body]
pub struct ExInstant(Instant);

/// `SystemTime::now`: the present on the wall clock. Which one is not claimed.
pub assume_specification[ SystemTime::now ]() -> (now: SystemTime)
;

/// `SystemTime::duration_since` the Unix epoch: the time that has passed, or
/// nothing where the clock stands before the epoch. What comes back rests on
/// the machine's clock, so nothing is claimed of it.
#[verifier::external_body]
fn since_epoch(now: SystemTime) -> (elapsed: Option<Duration>) {
    now.duration_since(UNIX_EPOCH).ok()
}

/// `Duration::as_millis`: the span in whole milliseconds. Which number comes
/// back is not claimed.
pub assume_specification[ Duration::as_millis ](d: &Duration) -> (ms: u128)
;

/// `Duration::as_micros`: the span in whole microseconds. Which number comes
/// back is not claimed.
pub assume_specification[ Duration::as_micros ](d: &Duration) -> (us: u128)
;

/// `Duration::as_nanos`: the span in nanoseconds, at most that of the longest
/// `Duration`.
pub assume_specification[ Duration::as_nanos ](d: &Duration) -> (ns: u128)
    ensures
        ns <= MAX_DURATION_NS,
;

/// `Instant::now`: the present on the monotonic clock. Which one is not claimed.
pub assume_specification[ Instant::now ]() -> (now: Instant)
;

/// `Instant::elapsed`: how long ago `start` was. How long is not claimed.
pub assume_specification[ Instant::elapsed ](start: &Instant) -> (span: Duration)
;

/// A count of time units since the epoch as 64 bits: the low 64 bits of the
/// count, and zero where the clock stands before the epoch.
pub open spec fn stamp_of(elapsed: Option<u128>) -> u64 {
    match elapsed {
        Some(units) => (units % 0x1_0000_0000_0000_0000) as u64,
        None => 0,
    }
}

/// A count that fits in 64 bits is its own stamp, and from there on the stamps start
/// over; before the epoch the stamp is zero.
pub proof fn law_stamps_count(units: u128)
    ensures
        stamp_of(None) == 0,
        units <= u64::MAX ==> stamp_of(Some(units)) == units,
        units < u128::MAX && stamp_of(Some(units)) < u64::MAX ==> stamp_of(
            Some((units + 1) as u128),
        ) == stamp_of(Some(units)) + 1,
        units < u128::MAX && stamp_of(Some(units)) == u64::MAX ==> stamp_of(
            Some((units + 1) as u128),
        ) == 0,
{
}

pub fn unix_stamp(elapsed: Option<u128>) -> (stamp: u64)
    ensures
        stamp == stamp_of(elapsed),
{
    match elapsed {
        Some(units) => (units % 0x1_0000_0000_0000_0000) as u64,
        None => 0,
    }
}

/// Milliseconds since the Unix epoch. The clock decides the value.
pub fn now_unix_ms() -> (ms: u64) {
    match since_epoch(SystemTime::now()) {
        Some(d) => unix_stamp(Some(d.as_millis())),
        None => unix_stamp(None),
    }
}

/// Microseconds since the Unix epoch. The clock decides the value.
pub fn now_unix_micros() -> (us: u64) {
    match since_epoch(SystemTime::now()) {
        Some(d) => unix_stamp(Some(d.as_micros())),
        None => unix_stamp(None),
    }
}

/// A monotonic clock that counts from the moment it was started.
#[derive(Debug, Clone, Copy)]
pub struct Monotonic {
    start: Instant,
}

impl Monotonic {
    /// Starts a clock.
    pub fn start() -> Self {
        Monotonic { start: Instant::now() }
    }

    /// Nanoseconds since the clock was started. The clock decides the value.
    pub fn now_ns(&self) -> (ns: u128)
        ensures
            ns <= MAX_DURATION_NS,
    {
        self.start.elapsed().as_nanos()
    }
}

} // verus!
