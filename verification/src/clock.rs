//! The local wall clock.

use crate::entry::{CalendarDate, Timestamp};
use chrono::{Datelike, Timelike};
use vstd::prelude::*;

verus! {

/// One reading of the local clock: the instant, and the local day, hour and
/// minute at that instant.
#[derive(Clone, Copy, Debug, PartialEq, Eq, Structural)]
pub struct ClockReading {
    pub timestamp: Timestamp,
    pub date: CalendarDate,
    pub hour: u32,
    pub minute: u32,
}

impl ClockReading {
    /// The hour is at most 23, the minute at most 59, the date is in range,
    /// and the nanoseconds stay below two seconds (a leap second counts past
    /// one).
    pub open spec fn in_range(self) -> bool {
        &&& self.hour <= 23
        &&& self.minute <= 59
        &&& self.date.in_range()
        &&& self.timestamp.nanos < 2_000_000_000
    }
}

/// Reads the clock with `chrono::Local::now` and takes the reading apart with
/// `DateTime::timestamp`, `DateTime::timestamp_subsec_nanos` and the
/// `Datelike` and `Timelike` accessors `year`, `month`, `day`, `hour` and
/// `minute`.
///
/// Trusted, not proved: that the hour lies in 0..=23, the minute in 0..=59,
/// the month in 1..=12, the day in 1..=31 and the nanoseconds below
/// 2,000,000,000, as chrono documents for these accessors. Nothing is
/// claimed of which instant is read. chrono panics where the system clock
/// stands before 1970.
#[verifier::external_body]
pub(crate) fn read_local_clock() -> (now: ClockReading)
    ensures
        now.in_range(),
{
    let t = chrono::Local::now();
    ClockReading {
        timestamp: Timestamp { seconds: t.timestamp(), nanos: t.timestamp_subsec_nanos() },
        date: CalendarDate { year: t.year(), month: t.month(), day: t.day() },
        hour: t.hour(),
        minute: t.minute(),
    }
}

} // verus!
