//! The system clock, read as seconds and nanoseconds since the Unix epoch.
use vstd::prelude::*;
use std::time::{Duration, SystemTime, SystemTimeError, UNIX_EPOCH};

verus! {

#[verifier::external_type_specification]
#[verifier::external_body]
pub struct ExSystemTime(SystemTime);

#[verifier::external_type_specification]
#[verifier::external_body]
pub struct ExSystemTimeError(SystemTimeError);

/// Errors of reading the clock.
#[derive(Debug, Clone, Copy, PartialEq, Eq, Structural)]
pub enum ClockError {
    /// The system clock is set before 1970-01-01.
    BeforeUnixEpoch,
}

impl ClockError {
    /// The error message.
    pub fn to_string(&self) -> (r: String)
        ensures
            r@ == "System time before UNIX_EPOCH"@,
    {
        String::from_str("System time before UNIX_EPOCH")
    }
}

/// Calls `std::time::SystemTime::now`. The current time of the system clock:
/// nothing is stated of it.
#[verifier::external_body]
fn system_now() -> SystemTime {
    SystemTime::now()
}

/// Calls `std::time::SystemTime::duration_since` with `UNIX_EPOCH`: the time
/// elapsed since the epoch, or an error when `t` is earlier. Nothing is stated of
/// which comes back, as the clock's value is not known here.
#[verifier::external_body]
fn since_unix_epoch(t: &SystemTime) -> Result<Duration, SystemTimeError> {
    t.duration_since(UNIX_EPOCH)
}

/// Calls `std::time::Duration::as_secs`: the whole seconds of `d`. `Duration` is
/// opaque here, so nothing is stated of the value.
#[verifier::external_body]
fn whole_secs(d: &Duration) -> u64 {
    d.as_secs()
}

/// Calls `std::time::Duration::subsec_nanos`: the fractional part of `d` in
/// nanoseconds, which the documentation says is always below one billion.
#[verifier::external_body]
fn subsec_nanos(d: &Duration) -> (r: u32)
    ensures
        r < 1_000_000_000,
{
    d.subsec_nanos()
}

/// The current time as `(seconds, nanoseconds)` since the Unix epoch, or
/// `BeforeUnixEpoch` when the clock is set earlier. The nanoseconds are always
/// below one billion; which time comes back depends on the clock.
pub fn unix_now() -> (r: Result<(u64, u32), ClockError>)
    ensures
        r matches Ok((_, nanos)) ==> nanos < 1_000_000_000,
{
    let now = system_now();
    match since_unix_epoch(&now) {
        Ok(d) => Ok((whole_secs(&d), subsec_nanos(&d))),
        Err(_) => Err(ClockError::BeforeUnixEpoch),
    }
}

} // verus!
