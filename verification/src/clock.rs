//! Timestamps: seconds since the Unix epoch, as decimal text.

use vstd::prelude::*;
use std::time::{Duration, SystemTime, SystemTimeError};
use crate::text::{decimal, decimal_u64};

verus! {

#[verifier::external_type_specification]
#[verifier::external_body]
pub struct ExSystemTime(std::time::SystemTime);

#[verifier::external_type_specification]
#[verifier::external_body]
pub struct ExSystemTimeError(std::time::SystemTimeError);

/// `SystemTime::now`: the system clock's reading. Nothing is promised of it.
#[verifier::external_body]
fn clock_now() -> SystemTime {
    SystemTime::now()
}

/// `SystemTime::duration_since(UNIX_EPOCH)`: the time from the epoch to `t`,
/// or an error when `t` lies before the epoch. Nothing is stated of which.
#[verifier::external_body]
fn since_unix_epoch(t: &SystemTime) -> Result<Duration, SystemTimeError> {
    t.duration_since(std::time::UNIX_EPOCH)
}

/// `Duration::as_secs`: the whole seconds of `d`. Nothing is stated of the
/// value, as a `Duration` is opaque here.
#[verifier::external_body]
fn whole_seconds(d: &Duration) -> u64 {
    d.as_secs()
}

/// The timestamp written for a clock reading: its seconds since the epoch,
/// or 0 when the clock lies before the epoch.
pub fn timestamp_text(secs: Option<u64>) -> (t: String)
    ensures
        t@ == decimal(
            match secs {
                Some(n) => n,
                None => 0,
            } as nat,
        ),
{
    let n = match secs {
        Some(n) => n,
        None => 0,
    };
    decimal_u64(n)
}

/// The current time as decimal seconds since the Unix epoch.
pub fn current_timestamp() -> (t: String)
    ensures
        exists|n: u64| t@ == decimal(n as nat),
{
    let now = clock_now();
    let secs = match since_unix_epoch(&now) {
        Ok(d) => Some(whole_seconds(&d)),
        Err(_) => None,
    };
    timestamp_text(secs)
}

} // verus!
