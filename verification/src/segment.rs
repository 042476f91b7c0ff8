//! Positions and segments: the units of fare computation.
//!
//! A position is one GPS fix: a timestamp in whole seconds since the Unix
//! epoch (UTC) and a location. Latitude and longitude are IEEE 754 doubles
//! carried here as their 64-bit patterns; the library never does float
//! arithmetic on them. A segment is the leg between two accepted positions,
//! with the great-circle distance between its endpoints, again as a bit
//! pattern.

use vstd::prelude::*;

verus! {

/// Seconds in one day.
pub const SECONDS_PER_DAY: u32 = 86400;

/// First second past midnight billed at the day tariff: 05:00:01. Midnight
/// itself (second 0) is also day; the half-open window between the two is
/// night.
pub const DAY_START_SECONDS: u32 = 5 * 3600 + 1;

/// A coordinate pair in degrees, each held as the bit pattern of an IEEE 754
/// double.
#[derive(Clone, Copy, Debug, PartialEq, Eq, Structural)]
pub struct Location {
    pub latitude_bits: u64,
    pub longitude_bits: u64,
}

/// One GPS fix: an epoch timestamp in whole seconds (UTC) and a location.
#[derive(Clone, Copy, Debug, PartialEq, Eq, Structural)]
pub struct Position {
    pub timestamp: i64,
    pub location: Location,
}

/// The leg between two accepted positions: its start and end instants and the
/// distance between its endpoints in kilometres, as the bit pattern of an
/// IEEE 754 double.
#[derive(Clone, Copy, Debug, PartialEq, Eq, Structural)]
pub struct Segment {
    pub start: i64,
    pub end: i64,
    pub distance_bits: u64,
}

/// Seconds past midnight of the day an epoch instant falls in, as
/// mathematical Euclidean remainder: non-negative also for instants before
/// the epoch.
pub open spec fn spec_seconds_from_midnight(ts: int) -> int {
    ts % (SECONDS_PER_DAY as int)
}

/// The day tariff applies at exactly midnight and from 05:00:01 onward;
/// the window in between is night.
pub open spec fn spec_is_day(ts: int) -> bool {
    let s = spec_seconds_from_midnight(ts);
    s == 0 || s >= DAY_START_SECONDS as int
}

/// Seconds past midnight (UTC) of the day `ts` falls in.
pub fn seconds_from_midnight(ts: i64) -> (r: u32)
    ensures
        r == spec_seconds_from_midnight(ts as int),
{
    let m: i64 = match ts.checked_rem_euclid(SECONDS_PER_DAY as i64) {
        Some(m) => m,
        // Unreachable: the divisor is a positive constant.
        None => 0,
    };
    m as u32
}

impl Segment {
    /// A segment is well formed when it does not end before it starts. Input
    /// positions are assumed ordered by time, so every segment built from
    /// them satisfies this.
    pub open spec fn valid(self) -> bool {
        self.start <= self.end
    }

    /// Length of the segment in whole seconds.
    pub fn duration_seconds(&self) -> (r: i64)
        requires
            self.valid(),
            self.end - self.start <= i64::MAX as int,
        ensures
            r == self.end - self.start,
            r >= 0,
    {
        self.end - self.start
    }

    /// Whether the segment starts under the day tariff: at exactly midnight,
    /// or at 05:00:01 or later in its day.
    pub fn is_day(&self) -> (r: bool)
        ensures
            r == spec_is_day(self.start as int),
    {
        let s = seconds_from_midnight(self.start);
        s == 0 || s >= DAY_START_SECONDS
    }
}

} // verus!
