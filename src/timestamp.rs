//! Second-precision timestamps counted from the Unix epoch.

use vstd::prelude::*;

verus! {

#[verifier::external_type_specification]
#[verifier::external_body]
pub struct ExSystemTime(std::time::SystemTime);

/// Relies on `SystemTime::now`: the system clock's current time.
#[verifier::external_body]
fn system_now() -> (r: std::time::SystemTime) {
    std::time::SystemTime::now()
}

/// Relies on `SystemTime::duration_since(UNIX_EPOCH)`: the whole seconds
/// since the epoch, or `None` when the time is earlier than the epoch.
#[verifier::external_body]
fn secs_since_epoch(t: &std::time::SystemTime) -> (r: Option<u64>) {
    match t.duration_since(std::time::UNIX_EPOCH) {
        Ok(d) => Some(d.as_secs()),
        Err(_) => None,
    }
}

/// Whole seconds since the Unix epoch; earlier times are not represented.
#[derive(Debug, Clone, Copy, Default, PartialEq, Eq, Structural, PartialOrd, Ord, Hash)]
pub struct Timestamp(u64);

impl View for Timestamp {
    type V = u64;

    closed spec fn view(&self) -> u64 {
        self.0
    }
}

/// A time that cannot be a timestamp.
#[derive(Debug, Clone, Copy, PartialEq, Eq, Structural)]
pub enum TimestampError {
    /// The time is earlier than the Unix epoch.
    NegativeUnixTime,
}

impl Timestamp {
    /// The timestamp `secs` seconds after the epoch.
    pub fn from_unix_epoch(secs: u64) -> (r: Timestamp)
        ensures
            r@ == secs,
    {
        Timestamp(secs)
    }

    /// The timestamp of a count of seconds since the epoch; `None` stands
    /// for a time earlier than the epoch, which fails.
    pub fn from_epoch_secs(secs: Option<u64>) -> (r: Result<Timestamp, TimestampError>)
        ensures
            match secs {
                Some(s) => r matches Ok(t) && t@ == s,
                None => r == Err::<Timestamp, TimestampError>(TimestampError::NegativeUnixTime),
            },
    {
        match secs {
            Some(s) => Ok(Timestamp(s)),
            None => Err(TimestampError::NegativeUnixTime),
        }
    }

    /// A system time as a timestamp: fails when it is earlier than the epoch.
    pub fn from_system_time(t: std::time::SystemTime) -> (r: Result<Timestamp, TimestampError>)
        ensures
            r is Err ==> r == Err::<Timestamp, TimestampError>(TimestampError::NegativeUnixTime),
    {
        Timestamp::from_epoch_secs(secs_since_epoch(&t))
    }

    /// The current time: fails when the system clock is earlier than the epoch.
    pub fn now() -> (r: Result<Timestamp, TimestampError>)
        ensures
            r is Err ==> r == Err::<Timestamp, TimestampError>(TimestampError::NegativeUnixTime),
    {
        Timestamp::from_system_time(system_now())
    }

    /// The seconds since the epoch.
    pub fn unix_epoch(self) -> (r: u64)
        ensures
            r == self@,
    {
        self.0
    }
}

} // verus!
