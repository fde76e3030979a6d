//! Wall-clock time as milliseconds since the Unix epoch.

use std::time::{Duration, SystemTime, UNIX_EPOCH};
use vstd::prelude::*;

verus! {

/// Makes `std::time::SystemTime` known as an opaque type: a point in time
/// of which nothing is seen but what the functions below say.
#[verifier::external_type_specification]
#[verifier::external_body]
pub struct ExSystemTime(std::time::SystemTime);

/// The time from the Unix epoch to `ts`; `None` where `ts` lies before the
/// epoch.
pub uninterp spec fn since_epoch(ts: SystemTime) -> Option<Duration>;

/// The number of whole milliseconds that `d` holds.
pub uninterp spec fn whole_millis(d: Duration) -> u128;

/// The time from the Unix epoch to `ts`.
///
/// Trusted: stands for `SystemTime::duration_since` with `UNIX_EPOCH` as the
/// earlier time, whose error (for a `ts` before the epoch) becomes `None`.
/// The contract only gives the result its name.
#[verifier::external_body]
fn duration_since_epoch(ts: &SystemTime) -> (r: Option<Duration>)
    ensures
        r == since_epoch(*ts),
{
    ts.duration_since(UNIX_EPOCH).ok()
}

/// The whole milliseconds of a duration.
///
/// Trusted: stands for `Duration::as_millis`. The contract only gives the
/// result its name.
#[verifier::external_body]
fn duration_millis(d: &Duration) -> (r: u128)
    ensures
        r == whole_millis(*d),
{
    d.as_millis()
}

/// The current system time.
///
/// Trusted: stands for `SystemTime::now`. Nothing is claimed of the result.
#[verifier::external_body]
fn system_now() -> SystemTime {
    SystemTime::now()
}

/// The low 64 bits of a count of milliseconds.
pub open spec fn low_64(millis: u128) -> u64 {
    (millis % 0x1_0000_0000_0000_0000) as u64
}

/// Milliseconds since the epoch as a 64-bit count: the low 64 bits of the
/// elapsed milliseconds, and `None` where there is no elapsed time.
pub open spec fn millis_to_epoch_ms(elapsed: Option<u128>) -> Option<u64> {
    match elapsed {
        Some(millis) => Some(low_64(millis)),
        None => None,
    }
}

/// The whole milliseconds from the Unix epoch to `ts`, where `ts` does not
/// lie before it.
pub open spec fn elapsed_millis(ts: SystemTime) -> Option<u128> {
    match since_epoch(ts) {
        Some(d) => Some(whole_millis(d)),
        None => None,
    }
}

/// The 64-bit millisecond count for an elapsed time in milliseconds.
pub fn epoch_ms_from_millis(elapsed: Option<u128>) -> (r: Option<u64>)
    ensures
        r == millis_to_epoch_ms(elapsed),
{
    match elapsed {
        Some(millis) => {
            let low: u128 = millis % 0x1_0000_0000_0000_0000u128;
            Some(low as u64)
        },
        None => None,
    }
}

/// Milliseconds from the Unix epoch to `ts`, or `None` for a time before the
/// epoch.
pub fn to_epoch_ms(ts: SystemTime) -> (r: Option<u64>)
    ensures
        r == millis_to_epoch_ms(elapsed_millis(ts)),
{
    let elapsed = match duration_since_epoch(&ts) {
        Some(d) => Some(duration_millis(&d)),
        None => None,
    };
    epoch_ms_from_millis(elapsed)
}

/// The reading of a clock that stands at `ts`: its milliseconds since the
/// epoch, and zero for a clock set before the epoch.
pub open spec fn clock_reading(ts: SystemTime) -> u64 {
    match millis_to_epoch_ms(elapsed_millis(ts)) {
        Some(ms) => ms,
        None => 0,
    }
}

/// Milliseconds from the Unix epoch to now; zero if the system clock stands
/// before the epoch.
pub fn epoch_ms_now() -> (r: u64)
    ensures
        exists|ts: SystemTime| r == #[trigger] clock_reading(ts),
{
    let now = system_now();
    let r = match to_epoch_ms(now) {
        Some(ms) => ms,
        None => 0,
    };
    assert(r == clock_reading(now));
    r
}

} // verus!
