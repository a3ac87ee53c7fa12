//! Wall-clock time as Unix milliseconds.

use std::time::{Duration, SystemTime};
use vstd::prelude::*;

verus! {

#[verifier::external_type_specification]
#[verifier::external_body]
pub struct ExSystemTime(SystemTime);

/// The time from the Unix epoch to a reading of the clock, or, as an error, from a
/// reading before the epoch to it.
pub uninterp spec fn unix_time(t: SystemTime) -> Result<Duration, Duration>;

/// The nanoseconds of a length of time.
pub uninterp spec fn nanos(d: Duration) -> u128;

/// The whole milliseconds of a length of time.
pub open spec fn whole_millis(d: Duration) -> u128 {
    nanos(d) / 1_000_000
}

/// `SystemTime::now` reads the clock; nothing is claimed of the reading.
pub assume_specification[ SystemTime::now ]() -> SystemTime;

/// `SystemTime::duration_since(UNIX_EPOCH)`: the time since the Unix epoch, or the
/// time that is left until it. Its result is a function of the time alone.
#[verifier::external_body]
fn since_epoch(t: SystemTime) -> (d: Result<Duration, Duration>)
    ensures
        d == unix_time(t),
{
    t.duration_since(SystemTime::UNIX_EPOCH).map_err(|e| e.duration())
}

/// `Duration::as_nanos`: all of it in nanoseconds, a function of the duration alone.
pub assume_specification[ Duration::as_nanos ](d: &Duration) -> (n: u128)
    ensures
        n == nanos(*d),
;

/// `Duration::as_millis`: the whole milliseconds in it.
pub assume_specification[ Duration::as_millis ](d: &Duration) -> (m: u128)
    ensures
        m == whole_millis(*d),
;

/// Milliseconds as a timestamp: none is zero, and more than fit is the largest
/// timestamp.
pub open spec fn stamp(millis: Option<u128>) -> i64 {
    match millis {
        None => 0,
        Some(m) => if m <= i64::MAX {
            m as i64
        } else {
            i64::MAX
        },
    }
}

/// A reading of the clock as a timestamp: its milliseconds since the Unix epoch.
pub open spec fn stamp_of(t: SystemTime) -> i64 {
    match unix_time(t) {
        Err(_) => stamp(None),
        Ok(d) => stamp(Some(whole_millis(d))),
    }
}

/// The milliseconds from the Unix epoch to a reading of the clock; zero before it.
pub open spec fn reading_millis(t: SystemTime) -> int {
    match unix_time(t) {
        Err(_) => 0,
        Ok(d) => whole_millis(d) as int,
    }
}

/// The second that a reading of the clock falls into, counted from the Unix epoch;
/// those before it are negative.
pub open spec fn unix_second(t: SystemTime) -> int {
    match unix_time(t) {
        Ok(d) => nanos(d) as int / 1_000_000_000,
        Err(d) => -((nanos(d) + 999_999_999) / 1_000_000_000),
    }
}

/// A number, or the nearest that a signed 64-bit number can be.
pub open spec fn clamped(n: int) -> i64 {
    if n < i64::MIN {
        i64::MIN
    } else if n > i64::MAX {
        i64::MAX
    } else {
        n as i64
    }
}

/// Whether a second, before the Unix epoch or after, is that of a reading of the
/// clock.
pub open spec fn is_signed_second(secs: i64) -> bool {
    exists|reading: SystemTime| secs == clamped(#[trigger] unix_second(reading))
}

/// Whether a timestamp is that of a reading of the clock.
pub open spec fn is_reading(t: i64) -> bool {
    exists|reading: SystemTime| t == #[trigger] stamp_of(reading)
}

/// Whether a count of seconds is that of a reading of the clock.
pub open spec fn is_second(secs: u64) -> bool {
    exists|t: i64| #[trigger] is_reading(t) && t >= 0 && secs == t / 1000
}

/// Milliseconds as a timestamp. A clock before the Unix epoch gives zero.
pub fn timestamp(millis: Option<u128>) -> (t: i64)
    ensures
        t == stamp(millis),
        t >= 0,
{
    match millis {
        None => 0,
        Some(m) => if m <= i64::MAX as u128 {
            m as i64
        } else {
            i64::MAX
        },
    }
}

/// Current wall-clock time as Unix milliseconds; `0` if the system clock is
/// before the Unix epoch.
#[must_use]
pub fn now_ms() -> (t: i64)
    ensures
        is_reading(t),
        t >= 0,
{
    let reading = SystemTime::now();
    let t = match since_epoch(reading) {
        Ok(d) => timestamp(Some(d.as_millis())),
        Err(_) => timestamp(None),
    };
    assert(t == stamp_of(reading));
    t
}

/// The second that a reading of the clock falls into, counted from the Unix epoch.
pub fn second_of(reading: SystemTime) -> (secs: i64)
    ensures
        secs == clamped(unix_second(reading)),
{
    match since_epoch(reading) {
        Ok(d) => {
            let n: u128 = d.as_nanos() / 1_000_000_000;
            if n <= i64::MAX as u128 {
                n as i64
            } else {
                i64::MAX
            }
        },
        Err(d) => {
            let n: u128 = d.as_nanos();
            let up: u128 = if n % 1_000_000_000 == 0 {
                n / 1_000_000_000
            } else {
                n / 1_000_000_000 + 1
            };
            assert(up == (n + 999_999_999) / 1_000_000_000);
            if up <= i64::MAX as u128 {
                -(up as i64)
            } else {
                i64::MIN
            }
        },
    }
}

/// The second that the clock shows, before the Unix epoch or after.
pub fn now_second() -> (secs: i64)
    ensures
        is_signed_second(secs),
{
    let reading = SystemTime::now();
    let secs = second_of(reading);
    assert(secs == clamped(unix_second(reading)));
    secs
}

/// Current wall-clock time as Unix seconds.
pub fn now_secs() -> (secs: u64)
    ensures
        is_second(secs),
        secs <= 9_223_372_036_854_775,
{
    let t = now_ms();
    let secs = t as u64 / 1000;
    assert(is_reading(t) && t >= 0 && secs == t / 1000);
    secs
}

} // verus!
