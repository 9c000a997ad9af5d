//! Points in time, in whole seconds since the UNIX epoch.
use vstd::prelude::*;

verus! {

/// A point in time, in seconds since the UNIX epoch.
#[derive(Debug, Clone, Copy, PartialEq, Eq, Structural)]
pub struct Timestamp(pub u64);

/// `std::time::SystemTime::elapsed` reads the clock of the host, here as whole
/// seconds since the UNIX epoch; its error, here `None`, comes where that
/// clock stands before the epoch. The value rests on the clock alone, so
/// nothing is stated of it.
#[verifier::external_body]
fn unix_seconds() -> (seconds: Option<u64>) {
    match std::time::UNIX_EPOCH.elapsed() {
        Ok(since) => Some(since.as_secs()),
        Err(_) => None,
    }
}

impl Timestamp {
    /// The point in time that the clock shows. A clock that stands before the
    /// epoch, where it shows no seconds, is taken to show the epoch.
    pub fn shown(seconds: Option<u64>) -> (time: Self)
        ensures
            time.0 == match seconds {
                Some(s) => s,
                None => 0,
            },
    {
        match seconds {
            Some(s) => Timestamp(s),
            None => Timestamp(0),
        }
    }

    /// The current time. It rests on the clock of the host alone, so nothing
    /// is stated of the result.
    pub fn now() -> (time: Self) {
        Self::shown(unix_seconds())
    }

    /// The point in time that lies `offset` seconds after this one; `None`
    /// where that is beyond the range of seconds.
    pub fn offset_by(self, offset: u64) -> (time: Option<Self>)
        ensures
            match time {
                Some(t) => t.0 == self.0 + offset,
                None => self.0 + offset > u64::MAX,
            },
    {
        match self.0.checked_add(offset) {
            Some(seconds) => Some(Timestamp(seconds)),
            None => None,
        }
    }

    /// The point in time that lies `offset` seconds after the current one;
    /// `None` where that is beyond the range of seconds.
    pub fn with_offset(offset: u64) -> (time: Option<Self>)
        ensures
            offset == 0 ==> time is Some,
            time matches Some(t) ==> t.0 >= offset,
    {
        Self::now().offset_by(offset)
    }

    /// The later of two points in time.
    pub fn max(self, other: Timestamp) -> (later: Self)
        ensures
            later == if self.0 >= other.0 {
                self
            } else {
                other
            },
    {
        if self.0 >= other.0 {
            self
        } else {
            other
        }
    }

    /// The seconds since the UNIX epoch.
    pub fn raw(&self) -> (seconds: u64)
        ensures
            seconds == self.0,
    {
        self.0
    }
}

} // verus!
