//! The wall clock.

use vstd::prelude::*;
use std::time::{Duration, SystemTime, SystemTimeError, UNIX_EPOCH};

verus! {

/// `std::time::SystemTime`, as an opaque type.
#[verifier::external_type_specification]
#[verifier::external_body]
pub struct ExSystemTime(SystemTime);

/// `std::time::SystemTimeError`, as an opaque type.
#[verifier::external_type_specification]
#[verifier::external_body]
pub struct ExSystemTimeError(SystemTimeError);

/// `SystemTime::now`: the reading depends on the machine's clock, so
/// nothing is claimed of it.
pub assume_specification[ SystemTime::now ]() -> (t: SystemTime)
;

/// `SystemTime::duration_since`: the time elapsed since `earlier`, or an
/// error where `earlier` is later than `t`. Nothing is claimed of which.
pub assume_specification[ SystemTime::duration_since ](t: &SystemTime, earlier: SystemTime) -> (r:
    Result<Duration, SystemTimeError>)
;

/// `Duration::as_secs`: the whole seconds of a duration. Nothing is claimed
/// of the number.
pub assume_specification[ Duration::as_secs ](d: &Duration) -> (secs: u64)
;

/// `std::time::UNIX_EPOCH`: the start of Unix time.
#[verifier::external_body]
fn unix_epoch() -> SystemTime {
    UNIX_EPOCH
}

/// The timestamp that stands for `secs` seconds since the start of Unix
/// time.
pub open spec fn timestamp_of(secs: u64) -> i64 {
    secs as i64
}

/// The timestamp for a clock reading of `secs` whole seconds since the
/// start of Unix time.
pub fn timestamp_from_secs(secs: u64) -> (r: i64)
    ensures
        r == timestamp_of(secs),
{
    #[verifier::truncate]
    (secs as i64)
}

/// The timestamp for a clock reading: `None` stands for a clock set before
/// the start of Unix time, which reads as 0.
pub fn timestamp_from_reading(reading: Option<u64>) -> (r: i64)
    ensures
        r == match reading {
            Some(secs) => timestamp_of(secs),
            None => 0,
        },
{
    match reading {
        Some(secs) => timestamp_from_secs(secs),
        None => 0,
    }
}

/// The whole seconds since the start of Unix time on this machine's clock;
/// `None` where the clock is set before it.
pub fn read_clock() -> (r: Option<u64>) {
    let now = SystemTime::now();
    match now.duration_since(unix_epoch()) {
        Ok(elapsed) => Some(elapsed.as_secs()),
        Err(_) => None,
    }
}

} // verus!
