//! Wall-clock time in milliseconds since the Unix epoch.

use vstd::prelude::*;

verus! {

#[verifier::external_type_specification]
#[verifier::external_body]
pub struct ExSystemTime(std::time::SystemTime);

/// Calls `SystemTime::now`. Trusted with nothing stated: the clock's reading is the machine's.
#[verifier::external_body]
fn system_now() -> std::time::SystemTime {
    std::time::SystemTime::now()
}

/// Calls `SystemTime::duration_since(UNIX_EPOCH)` and reads the duration in whole
/// milliseconds; `None` for a time before the epoch. Trusted with nothing stated about the
/// value, which depends on the reading.
#[verifier::external_body]
fn millis_since_epoch(time: std::time::SystemTime) -> Option<u128> {
    time.duration_since(std::time::UNIX_EPOCH).ok().map(|duration| duration.as_millis())
}

/// Milliseconds as an `i64`, saturating at `i64::MAX`.
pub open spec fn clamped_millis(millis: u128) -> i64 {
    if millis > i64::MAX as u128 { i64::MAX } else { millis as i64 }
}

pub fn clamp_millis(millis: u128) -> (out: i64)
    ensures
        out == clamped_millis(millis),
{
    if millis > 9223372036854775807u128 {
        i64::MAX
    } else {
        millis as i64
    }
}

/// The milliseconds a clock reading stands for: the reading clamped to `i64` when the clock
/// is at or after the epoch (`Some`), and 0 before it (`None`).
pub open spec fn reading_millis(reading: Option<u128>) -> i64 {
    match reading {
        Some(m) => clamped_millis(m),
        None => 0,
    }
}

/// Turns a reading of the clock (whole milliseconds since the epoch, `None` before it) into
/// the time the kernel records.
pub fn millis_from_reading(reading: Option<u128>) -> (out: i64)
    ensures
        out == reading_millis(reading),
        out >= 0,
{
    match reading {
        Some(m) => clamp_millis(m),
        None => 0,
    }
}

/// The current time in milliseconds since the Unix epoch: the clock's reading passed through
/// `millis_from_reading`. The reading is the machine's, so only what holds of every reading is
/// stated here.
pub fn now_ms() -> (out: i64)
    ensures
        out >= 0,
{
    millis_from_reading(millis_since_epoch(system_now()))
}

/// The current time in milliseconds since the Unix epoch, as the run registry records it: the
/// clock's reading passed through `millis_from_reading`.
pub fn current_time_ms() -> (out: i64)
    ensures
        out >= 0,
{
    millis_from_reading(millis_since_epoch(system_now()))
}

} // verus!
