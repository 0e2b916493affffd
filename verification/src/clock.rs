//! The wall clock, in whole seconds.
use std::time::{Duration, SystemTime, SystemTimeError};
use vstd::prelude::*;

verus! {

/// A reading of the system clock.
#[verifier::external_type_specification]
#[verifier::external_body]
pub struct ExSystemTime(SystemTime);

/// How far a reading of the clock lies before the time it is compared to.
#[verifier::external_type_specification]
#[verifier::external_body]
pub struct ExSystemTimeError(SystemTimeError);

/// How long after the Unix epoch a time lies, if it does.
pub uninterp spec fn epoch_offset(time: SystemTime) -> Option<Duration>;

/// The whole seconds of a duration.
pub uninterp spec fn duration_secs(duration: Duration) -> u64;

/// `SystemTime::now`. What the clock shows is left unsaid: it is different on
/// every call.
#[verifier::external_body]
fn read_clock() -> SystemTime {
    SystemTime::now()
}

/// `SystemTime::duration_since`, from the Unix epoch: the time that lies between
/// them, or an error if `time` is the earlier one.
#[verifier::external_body]
fn since_epoch(time: SystemTime) -> (offset: Result<Duration, SystemTimeError>)
    ensures
        match offset {
            Ok(duration) => epoch_offset(time) == Some(duration),
            Err(_) => epoch_offset(time) is None,
        },
{
    time.duration_since(std::time::UNIX_EPOCH)
}

/// `Duration::as_secs`: the whole seconds, which the duration determines.
#[verifier::external_body]
fn whole_secs(duration: &Duration) -> (secs: u64)
    ensures
        secs == duration_secs(*duration),
{
    duration.as_secs()
}

/// A time as Unix time: 0 if it lies before the epoch.
pub open spec fn unix_secs(time: SystemTime) -> u64 {
    match epoch_offset(time) {
        Some(offset) => duration_secs(offset),
        None => 0,
    }
}

/// Seconds from the Unix epoch to `time`, or 0 if it lies before the epoch.
pub fn secs_at(time: SystemTime) -> (secs: u64)
    ensures
        secs == unix_secs(time),
{
    match since_epoch(time) {
        Ok(offset) => whole_secs(&offset),
        Err(_) => 0,
    }
}

/// Seconds since the Unix epoch, by the system clock.
pub fn now_secs() -> (secs: u64)
    ensures
        exists|now: SystemTime| secs == unix_secs(now),
{
    secs_at(read_clock())
}

/// A time after the epoch is as many whole seconds after it as the time between
/// them has, and a time before it counts as 0.
pub proof fn law_time_is_counted_from_the_epoch(time: SystemTime, secs: u64)
    requires
        call_ensures(secs_at, (time,), secs),
    ensures
        epoch_offset(time) matches Some(offset) ==> secs == duration_secs(offset),
        epoch_offset(time) is None ==> secs == 0,
{
}

/// What the clock shows is the count of some time, not a number of its own.
pub proof fn law_clock_shows_a_time(secs: u64)
    requires
        call_ensures(now_secs, (), secs),
    ensures
        exists|now: SystemTime| secs == #[trigger] unix_secs(now),
{
}

} // verus!
