//! Wall-clock time in microseconds since the Unix epoch.

use std::time::{Duration, SystemTime, UNIX_EPOCH};
use vstd::prelude::*;

verus! {

#[verifier::external_type_specification]
#[verifier::external_body]
pub struct ExSystemTime(SystemTime);

/// Reads the system clock with `SystemTime::now`. Nothing is stated of the
/// value: it is whatever the clock says.
#[verifier::external_body]
fn system_time_now() -> SystemTime {
    SystemTime::now()
}

/// The time from the Unix epoch to `t`, by `SystemTime::duration_since`;
/// `None` where `t` lies before the epoch. Nothing more is stated.
#[verifier::external_body]
fn duration_since_unix_epoch(t: &SystemTime) -> Option<Duration> {
    t.duration_since(UNIX_EPOCH).ok()
}

/// The whole seconds of `d`, by `Duration::as_secs`. Nothing is stated of
/// the value.
#[verifier::external_body]
fn duration_secs(d: &Duration) -> u64 {
    d.as_secs()
}

/// The fractional part of `d` in whole microseconds, by
/// `Duration::subsec_micros`, which its documentation puts below one million.
#[verifier::external_body]
fn duration_subsec_micros(d: &Duration) -> (micros: u32)
    ensures
        micros < 1_000_000,
{
    d.subsec_micros()
}

/// `secs` seconds and `micros` microseconds in microseconds, saturating at
/// `u64::MAX`.
pub open spec fn spec_usec(secs: u64, micros: u32) -> u64 {
    if secs * 1_000_000 + micros <= u64::MAX {
        (secs * 1_000_000 + micros) as u64
    } else {
        u64::MAX
    }
}

/// Converts seconds and microseconds to microseconds, saturating at
/// `u64::MAX`.
pub fn usec_from_parts(secs: u64, micros: u32) -> (usec: u64)
    ensures
        usec == spec_usec(secs, micros),
{
    match secs.checked_mul(1_000_000) {
        Some(whole) => match whole.checked_add(micros as u64) {
            Some(total) => total,
            None => u64::MAX,
        },
        None => u64::MAX,
    }
}

/// The time since the Unix epoch in microseconds, from the whole seconds
/// and the microseconds of a clock reading's distance from the epoch,
/// saturating at `u64::MAX`; 0 for a reading before the epoch (`None`).
pub fn usec_since_epoch(parts: Option<(u64, u32)>) -> (usec: u64)
    ensures
        usec == match parts {
            Some((secs, micros)) => spec_usec(secs, micros),
            None => 0,
        },
{
    match parts {
        Some((secs, micros)) => usec_from_parts(secs, micros),
        None => 0,
    }
}

/// The current time in microseconds since the Unix epoch, saturating at
/// `u64::MAX`; 0 while the clock stands before the epoch.
pub fn now_realtime_usec() -> u64 {
    let now = system_time_now();
    let parts = match duration_since_unix_epoch(&now) {
        Some(d) => Some((duration_secs(&d), duration_subsec_micros(&d))),
        None => None,
    };
    usec_since_epoch(parts)
}

} // verus!
