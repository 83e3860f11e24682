use vstd::prelude::*;

verus! {

pub const SECS_PER_MINUTE: i64 = 60;
pub const SECS_PER_HOUR: i64 = 3600;
pub const SECS_PER_DAY: i64 = 86400;

/// An upper bound on any reading of the system clock, in seconds since the
/// Unix epoch (more than 300,000 years ahead).
pub const CLOCK_LIMIT: i64 = 10_000_000_000_000;

/// A point in time: whole seconds since 1970-01-01 00:00:00 UTC.
#[derive(Clone, Copy, Debug, PartialEq, Eq, Structural)]
pub struct Timestamp {
    pub secs: i64,
}

/// Relies on chrono::Utc::now and DateTime::timestamp: the current UTC time
/// as Unix seconds. `Utc::now` panics on a clock before the epoch and unwraps
/// `DateTime::from_timestamp`, whose range ends in the year 262142, so a
/// returned value is non-negative and below `CLOCK_LIMIT`.
#[verifier::external_body]
fn clock_seconds() -> (r: i64)
    ensures
        0 <= r <= CLOCK_LIMIT,
{
    chrono::Utc::now().timestamp()
}

/// The current time.
pub fn now() -> (r: Timestamp)
    ensures
        0 <= r.secs <= CLOCK_LIMIT,
{
    Timestamp { secs: clock_seconds() }
}

impl Timestamp {
    /// This point moved by `delta` seconds.
    pub fn shifted(self, delta: i64) -> (r: Timestamp)
        requires
            i64::MIN <= self.secs + delta <= i64::MAX,
        ensures
            r.secs == self.secs + delta,
    {
        Timestamp { secs: self.secs + delta }
    }
}

} // verus!
