//! Time model: timestamps as nanoseconds since the UNIX epoch and
//! durations as nanosecond spans, with explicit checked arithmetic.

use vstd::prelude::*;

verus! {

/// Nanoseconds in one hour.
pub const HOUR_NANOS: u128 = 3_600_000_000_000;
/// Nanoseconds in one day.
pub const DAY_NANOS: u128 = 86_400_000_000_000;
/// Nanoseconds in one month (30.44 days).
pub const MONTH_NANOS: u128 = 2_629_800_000_000_000;
/// Nanoseconds in one year (365.25 days).
pub const YEAR_NANOS: u128 = 31_557_600_000_000_000;

/// A span of time with nanosecond precision.
#[derive(Clone, Copy, Debug, PartialEq, Eq, Structural)]
pub struct Duration {
    pub nanos: u128,
}

/// A point in time: nanoseconds since the UNIX epoch.
#[derive(Clone, Copy, Debug, PartialEq, Eq, Structural)]
pub struct Timestamp {
    pub nanos: u128,
}

impl Duration {
    pub open spec fn view(&self) -> int {
        self.nanos as int
    }

    pub fn from_nanos(nanos: u128) -> (r: Duration)
        ensures
            r@ == nanos as int,
    {
        Duration { nanos }
    }

    pub fn from_secs(secs: u64) -> (r: Duration)
        ensures
            r@ == secs as int * 1_000_000_000,
    {
        Duration { nanos: secs as u128 * 1_000_000_000 }
    }

    pub fn as_nanos(&self) -> (r: u128)
        ensures
            r as int == self@,
    {
        self.nanos
    }
}

impl Timestamp {
    pub open spec fn view(&self) -> int {
        self.nanos as int
    }

    pub fn from_nanos(nanos: u128) -> (r: Timestamp)
        ensures
            r@ == nanos as int,
    {
        Timestamp { nanos }
    }

    pub fn as_nanos(&self) -> (r: u128)
        ensures
            r as int == self@,
    {
        self.nanos
    }

    /// Steps this instant back by `d`; `None` when that would precede the epoch.
    pub fn checked_sub(&self, d: Duration) -> (r: Option<Timestamp>)
        ensures
            self@ >= d@ ==> r == Some(Timestamp { nanos: (self.nanos - d.nanos) as u128 }),
            self@ < d@ ==> r is None,
    {
        if self.nanos >= d.nanos {
            Some(Timestamp { nanos: self.nanos - d.nanos })
        } else {
            None
        }
    }

    /// Steps this instant forward by `d`; `None` on overflow of the representation.
    pub fn checked_add(&self, d: Duration) -> (r: Option<Timestamp>)
        ensures
            self@ + d@ <= u128::MAX ==> r == Some(Timestamp { nanos: (self.nanos + d.nanos) as u128 }),
            self@ + d@ > u128::MAX ==> r is None,
    {
        if self.nanos <= u128::MAX - d.nanos {
            Some(Timestamp { nanos: self.nanos + d.nanos })
        } else {
            None
        }
    }

    /// The span from `earlier` up to this instant; `None` when `earlier` is later.
    pub fn duration_since(&self, earlier: Timestamp) -> (r: Option<Duration>)
        ensures
            self@ >= earlier@ ==> r == Some(Duration { nanos: (self.nanos - earlier.nanos) as u128 }),
            self@ < earlier@ ==> r is None,
    {
        if self.nanos >= earlier.nanos {
            Some(Duration { nanos: self.nanos - earlier.nanos })
        } else {
            None
        }
    }
}

} // verus!
