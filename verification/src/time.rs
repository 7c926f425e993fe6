//! Wall-clock instants and spans as plain nanosecond counts.
//!
//! The host converts `SystemTime` and `Duration` at the edge; inside the
//! library an instant is the number of nanoseconds since the UNIX epoch.

use vstd::prelude::*;

verus! {

pub const NANOS_PER_SEC: u128 = 1_000_000_000;
pub const NANOS_PER_MILLI: u128 = 1_000_000;

/// A wall-clock instant: nanoseconds since the UNIX epoch.
#[derive(Debug, Clone, Copy, PartialEq, Eq, Structural, PartialOrd, Ord, Hash)]
pub struct UnixTime {
    pub nanos: u128,
}

/// A non-negative length of time in nanoseconds.
#[derive(Debug, Clone, Copy, PartialEq, Eq, Structural, PartialOrd, Ord, Hash)]
pub struct TimeSpan {
    pub nanos: u128,
}

impl Default for TimeSpan {
    fn default() -> (r: TimeSpan)
        ensures
            r.nanos == 0,
    {
        TimeSpan { nanos: 0 }
    }
}

impl TimeSpan {
    pub fn zero() -> (r: TimeSpan)
        ensures
            r.nanos == 0,
    {
        TimeSpan { nanos: 0 }
    }

    pub fn from_secs(secs: u64) -> (r: TimeSpan)
        ensures
            r.nanos == secs * NANOS_PER_SEC,
    {
        assert(secs * NANOS_PER_SEC <= u64::MAX * NANOS_PER_SEC) by (nonlinear_arith);
        TimeSpan { nanos: secs as u128 * NANOS_PER_SEC }
    }

    pub fn from_millis(millis: u64) -> (r: TimeSpan)
        ensures
            r.nanos == millis * NANOS_PER_MILLI,
    {
        assert(millis * NANOS_PER_MILLI <= u64::MAX * NANOS_PER_MILLI) by (nonlinear_arith);
        TimeSpan { nanos: millis as u128 * NANOS_PER_MILLI }
    }

    /// Whole seconds, as `Duration::as_secs` truncates.
    pub fn as_secs(self) -> (r: u128)
        ensures
            r == self.nanos / NANOS_PER_SEC,
    {
        self.nanos / NANOS_PER_SEC
    }

    /// Whole milliseconds, as `Duration::as_millis` truncates.
    pub fn as_millis(self) -> (r: u128)
        ensures
            r == self.nanos / NANOS_PER_MILLI,
    {
        self.nanos / NANOS_PER_MILLI
    }

    pub fn is_zero(self) -> (r: bool)
        ensures
            r == (self.nanos == 0),
    {
        self.nanos == 0
    }
}

impl UnixTime {
    /// `self + span`, or `None` when the instant is not representable.
    pub fn checked_add(self, span: TimeSpan) -> (r: Option<UnixTime>)
        ensures
            self.nanos + span.nanos <= u128::MAX ==> r == Some(
                UnixTime { nanos: (self.nanos + span.nanos) as u128 },
            ),
            self.nanos + span.nanos > u128::MAX ==> r is None,
    {
        match self.nanos.checked_add(span.nanos) {
            Some(n) => Some(UnixTime { nanos: n }),
            None => None,
        }
    }

    /// `self - span`, or `None` when it would precede the epoch.
    pub fn checked_sub(self, span: TimeSpan) -> (r: Option<UnixTime>)
        ensures
            span.nanos <= self.nanos ==> r == Some(
                UnixTime { nanos: (self.nanos - span.nanos) as u128 },
            ),
            span.nanos > self.nanos ==> r is None,
    {
        if span.nanos <= self.nanos {
            Some(UnixTime { nanos: self.nanos - span.nanos })
        } else {
            None
        }
    }

    /// Time elapsed from `earlier` to `self`, or `None` when `earlier` is later.
    pub fn duration_since(self, earlier: UnixTime) -> (r: Option<TimeSpan>)
        ensures
            earlier.nanos <= self.nanos ==> r == Some(
                TimeSpan { nanos: (self.nanos - earlier.nanos) as u128 },
            ),
            earlier.nanos > self.nanos ==> r is None,
    {
        if earlier.nanos <= self.nanos {
            Some(TimeSpan { nanos: self.nanos - earlier.nanos })
        } else {
            None
        }
    }
}

} // verus!
