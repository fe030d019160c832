//! The two clocks of the machine.
use std::time::{Duration, Instant, SystemTime, SystemTimeError, UNIX_EPOCH};
use vstd::prelude::*;

verus! {

#[verifier::external_type_specification]
#[verifier::external_body]
pub struct ExInstant(Instant);

#[verifier::external_type_specification]
#[verifier::external_body]
pub struct ExSystemTime(SystemTime);

#[verifier::external_type_specification]
#[verifier::external_body]
pub struct ExSystemTimeError(SystemTimeError);

/// `Instant::now`. Nothing is claimed of the time.
pub assume_specification[ Instant::now ]() -> (now: Instant);

/// `Instant::elapsed`. Nothing is claimed of the time.
pub assume_specification[ Instant::elapsed ](earlier: &Instant) -> (passed: Duration);

/// `Duration::as_nanos`. A duration is opaque here, so nothing is claimed.
pub assume_specification[ Duration::as_nanos ](duration: &Duration) -> (nanos: u128);

/// `SystemTime::now`. Nothing is claimed of the time.
pub assume_specification[ SystemTime::now ]() -> (now: SystemTime);

/// `SystemTime::duration_since` with the start of 1970. A time is opaque here, so
/// nothing is claimed.
#[verifier::external_body]
fn since_epoch(time: &SystemTime) -> (passed: Result<Duration, SystemTimeError>) {
    time.duration_since(UNIX_EPOCH)
}

/// `Duration::as_secs`. A duration is opaque here, so nothing is claimed.
pub assume_specification[ Duration::as_secs ](duration: &Duration) -> (seconds: u64);

/// A monotonic clock that counts from when it was started.
pub struct Clock {
    started: Instant,
}

impl Clock {
    /// Starts a clock.
    pub fn start() -> (clock: Self) {
        Clock { started: Instant::now() }
    }

    /// The nanoseconds since the start.
    pub fn nanos(&self) -> (nanos: u128) {
        self.started.elapsed().as_nanos()
    }
}

/// The seconds to report for a time since the start of 1970: zero for a clock
/// that stands before it.
pub fn unix_seconds(since_epoch: Option<u64>) -> (seconds: u64)
    ensures
        seconds == (match since_epoch {
            Some(seconds) => seconds,
            None => 0,
        }),
{
    match since_epoch {
        Some(seconds) => seconds,
        None => 0,
    }
}

/// The current Unix time in seconds, or zero if the clock stands before 1970.
pub fn now_unix() -> (seconds: u64) {
    match since_epoch(&SystemTime::now()) {
        Ok(passed) => unix_seconds(Some(passed.as_secs())),
        Err(_) => unix_seconds(None),
    }
}

} // verus!
