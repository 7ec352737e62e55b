use chrono::Datelike;
use chrono::Timelike;
use vstd::prelude::*;

verus! {

/// A local wall-clock instant, broken into calendar and time-of-day fields.
///
/// `weekday` is the day of the week indexed from Monday, so Monday is 0 and
/// Sunday is 6.
#[derive(Debug, Clone, Copy, PartialEq, Eq, Structural)]
pub struct Timestamp {
    pub year: u32,
    pub month: u32,
    pub day: u32,
    pub weekday: u32,
    pub hours: u32,
    pub minutes: u32,
    pub seconds: u32,
}

impl Timestamp {
    /// Field ranges of a real calendar instant.
    pub open spec fn wf(self) -> bool {
        &&& 1 <= self.month <= 12
        &&& 1 <= self.day <= 31
        &&& self.weekday < 7
        &&& self.hours < 24
        &&& self.minutes < 60
        &&& self.seconds < 60
    }

    /// The instant's time of day, counted in seconds since midnight.
    pub open spec fn spec_seconds_of_day(self) -> int {
        self.hours * 3600 + self.minutes * 60 + self.seconds
    }

    /// Two instants fall on the same calendar day.
    pub open spec fn spec_same_day(self, other: Timestamp) -> bool {
        self.year == other.year && self.month == other.month && self.day == other.day
    }

    pub fn seconds_of_day(&self) -> (r: u64)
        ensures
            r == self.spec_seconds_of_day(),
    {
        (self.hours as u64) * 3600 + (self.minutes as u64) * 60 + (self.seconds as u64)
    }

    pub fn same_day(&self, other: &Timestamp) -> (r: bool)
        ensures
            r == self.spec_same_day(*other),
    {
        self.year == other.year && self.month == other.month && self.day == other.day
    }
}

/// Reads the current local wall-clock time.
///
/// Relies on `chrono::Local::now` and the `chrono` accessors `year`, `month`,
/// `day`, `weekday` (via `num_days_from_monday`), `hour`, `minute` and
/// `second`: chrono documents month in 1..=12, day in 1..=31, the Monday-based
/// weekday in 0..=6, hour in 0..=23, and minute and second in 0..=59.
#[verifier::external_body]
pub fn now_timestamp() -> (t: Timestamp)
    ensures
        t.wf(),
{
    let n = chrono::Local::now();
    Timestamp {
        year: n.year() as u32,
        month: n.month(),
        day: n.day(),
        weekday: n.weekday().num_days_from_monday(),
        hours: n.hour(),
        minutes: n.minute(),
        seconds: n.second(),
    }
}

} // verus!
