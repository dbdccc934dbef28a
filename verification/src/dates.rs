use vstd::prelude::*;

verus! {

/// Largest calendar day number a timestamp may carry.  Days are counted
/// from the proleptic era boundary (day 1 is the first day of year 1),
/// and the date/time backend cannot render days much beyond this, so the
/// bound also keeps every day computation far from machine overflow.
pub const MAX_DAY: i64 = 100_000_000;

pub const SECS_PER_DAY: u32 = 86400;

/// A local calendar timestamp: `day` counts days from the proleptic era
/// boundary, `sec` is the second within that day.
#[derive(Clone, Copy, PartialEq, Eq, Structural, Debug)]
pub struct LocalDateTime {
    pub day: i64,
    pub sec: u32,
}

impl LocalDateTime {
    /// A well-formed timestamp lies on a representable day, within it.
    pub open spec fn wf(self) -> bool {
        &&& 0 <= self.day <= MAX_DAY
        &&& self.sec < SECS_PER_DAY
    }

    /// Seconds from the era boundary: the order of timestamps.
    pub open spec fn to_secs(self) -> int {
        self.day * (SECS_PER_DAY as int) + self.sec
    }
}

/// Day of the week of a day number: 0 is Sunday, 1 is Monday, ... and
/// 6 is Saturday.  Day 1 (the first day of year 1) was a Monday.
pub open spec fn day_of_week(day: int) -> int {
    day % 7
}

/// The dates the scheduler leaves without commits: weekends.
pub open spec fn spec_should_skip(day: int) -> bool {
    day_of_week(day) == 0 || day_of_week(day) == 6
}

/// Decides whether a date is skipped: a pure function of the calendar
/// day alone, true exactly on Saturdays and Sundays.
pub fn should_skip_date(d: LocalDateTime) -> (r: bool)
    requires
        d.wf(),
    ensures
        r == spec_should_skip(d.day as int),
{
    let w: i64 = d.day % 7;
    w == 0 || w == 6
}

} // verus!
