//! The two clocks the pipeline reads: a monotonic one for durations and the
//! wall clock for timestamps. Nothing is promised about what either returns.
//! A wall clock that reads earlier than the Unix epoch gives no timestamp, and
//! whatever needs one then fails with `ClockError`.

use std::time::{Duration, Instant, SystemTime};
use vstd::prelude::*;

verus! {

/// `std::time::Instant`, carried as an opaque value.
#[verifier::external_type_specification]
#[verifier::external_body]
pub struct ExInstant(Instant);

/// `std::time::SystemTime`, carried as an opaque value.
#[verifier::external_type_specification]
#[verifier::external_body]
pub struct ExSystemTime(SystemTime);

/// `Instant::clone`: an instant is a plain value and its clone is the same instant.
pub assume_specification[ <Instant as Clone>::clone ](at: &Instant) -> (copy: Instant)
    ensures
        copy == *at,
;

/// `Instant::now`: the current reading of the monotonic clock.
#[verifier::external_body]
pub(crate) fn instant_now() -> Instant {
    Instant::now()
}

/// `Instant::saturating_duration_since`: the time from `earlier` to `later`,
/// zero when `later` is not after `earlier`.
#[verifier::external_body]
pub(crate) fn instant_span(later: &Instant, earlier: &Instant) -> Duration {
    later.saturating_duration_since(*earlier)
}

/// `Duration::as_micros`: the whole microseconds in a duration.
#[verifier::external_body]
pub(crate) fn duration_micros(span: &Duration) -> u128 {
    span.as_micros()
}

/// `Duration::as_millis`: the whole milliseconds in a duration.
#[verifier::external_body]
pub(crate) fn duration_millis(span: &Duration) -> u128 {
    span.as_millis()
}

/// `SystemTime::now`: the current reading of the wall clock.
#[verifier::external_body]
pub(crate) fn system_now() -> SystemTime {
    SystemTime::now()
}

/// `SystemTime::duration_since` against `UNIX_EPOCH`: the time since the
/// epoch, or nothing when the clock reads earlier than the epoch.
#[verifier::external_body]
pub(crate) fn since_epoch(at: &SystemTime) -> Option<Duration> {
    at.duration_since(std::time::UNIX_EPOCH).ok()
}

/// The wall clock reads earlier than the Unix epoch.
#[derive(Debug, Clone, Copy, PartialEq, Eq, Structural)]
pub enum ClockError {
    BeforeEpoch,
}

/// Narrows a wide count to 64 bits, stopping at the largest value.
pub fn saturate_u64(wide: u128) -> (narrow: u64)
    ensures
        narrow == if wide > u64::MAX { u64::MAX as int } else { wide as int },
{
    if wide > u64::MAX as u128 {
        u64::MAX
    } else {
        wide as u64
    }
}

/// Microseconds from `earlier` to `later` on the monotonic clock.
pub fn elapsed_micros(later: &Instant, earlier: &Instant) -> u64 {
    let span = instant_span(later, earlier);
    saturate_u64(duration_micros(&span))
}

/// A reading of the wall clock held in 64 bits: the milliseconds since the
/// Unix epoch, stopping at the largest value, or nothing where the clock gave
/// nothing.
pub fn stamp_of(reading: Option<u128>) -> (stamp: Option<u64>)
    ensures
        stamp == match reading {
            Some(ms) => Some(
                if ms > u64::MAX {
                    u64::MAX
                } else {
                    ms as u64
                },
            ),
            None => None::<u64>,
        },
{
    match reading {
        Some(ms) => Some(saturate_u64(ms)),
        None => None,
    }
}

/// Milliseconds since the Unix epoch, read from the wall clock; nothing when
/// the clock reads earlier than the epoch.
pub fn wall_clock_ms() -> Option<u128> {
    let at = system_now();
    match since_epoch(&at) {
        Some(span) => Some(duration_millis(&span)),
        None => None,
    }
}

/// Milliseconds since the Unix epoch, read from the wall clock and held in 64
/// bits; nothing when the clock reads earlier than the epoch.
pub fn current_timestamp_ms() -> Option<u64> {
    stamp_of(wall_clock_ms())
}

} // verus!
