//! Wall-clock time.

use std::time::{Duration, SystemTime, SystemTimeError, UNIX_EPOCH};
use vstd::prelude::*;

verus! {

/// A reading of the wall clock.
#[verifier::external_type_specification]
#[verifier::external_body]
pub struct ExSystemTime(SystemTime);

/// The error of a clock reading that lies before the one it is measured from.
#[verifier::external_type_specification]
#[verifier::external_body]
pub struct ExSystemTimeError(SystemTimeError);

/// How long after the unix epoch a reading lies, if it does not lie before it.
pub uninterp spec fn after_epoch(reading: SystemTime) -> Option<Duration>;

/// The whole seconds in a length of time.
pub uninterp spec fn seconds_in(length: Duration) -> u64;

/// `std::time::SystemTime::now`. The reading depends on the machine, so nothing
/// is promised of it.
#[verifier::external_body]
fn now() -> SystemTime {
    SystemTime::now()
}

/// `std::time::SystemTime::duration_since`, measured from the unix epoch: how
/// long after it a reading lies, or an error where it lies before it.
#[verifier::external_body]
fn since_epoch(reading: SystemTime) -> (r: Result<Duration, SystemTimeError>)
    ensures
        match r {
            Ok(length) => after_epoch(reading) == Some(length),
            Err(_) => after_epoch(reading) is None,
        },
{
    reading.duration_since(UNIX_EPOCH)
}

/// `std::time::Duration::as_secs`: the whole seconds in a length of time.
#[verifier::external_body]
fn whole_seconds(length: Duration) -> (r: u64)
    ensures
        r == seconds_in(length),
{
    length.as_secs()
}

/// The stored time for a reading of the clock.
pub open spec fn stored_time(reading: SystemTime) -> i64 {
    match after_epoch(reading) {
        Some(length) => seconds_in(length) as i64,
        None => 0,
    }
}

/// The stored time for a clock that reads `elapsed` seconds after the unix
/// epoch, or that reads a time before it: then it is 0.
pub fn unix_seconds(elapsed: Option<u64>) -> (r: i64)
    ensures
        r == (match elapsed {
            Some(secs) => secs as i64,
            None => 0,
        }),
{
    match elapsed {
        Some(secs) => secs as i64,
        None => 0,
    }
}

/// Wall-clock unix-epoch seconds.
pub fn current_unix_time() -> (r: i64)
    ensures
        exists|reading: SystemTime| r == #[trigger] stored_time(reading),
{
    let reading = now();
    let r: i64 = match since_epoch(reading) {
        Ok(length) => unix_seconds(Some(whole_seconds(length))),
        Err(_) => unix_seconds(None),
    };
    assert(r == stored_time(reading));
    r
}

} // verus!
