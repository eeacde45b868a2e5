//! The proleptic Gregorian calendar, counted in days from 1970-01-01.
use vstd::prelude::*;

verus! {

/// Seconds in one civil day (the Unix timestamp ignores leap seconds).
pub const SECONDS_PER_DAY: u32 = 86400;

pub open spec fn is_leap_year(y: int) -> bool {
    (y % 4 == 0 && y % 100 != 0) || y % 400 == 0
}

pub open spec fn days_in_year(y: int) -> int {
    if is_leap_year(y) {
        366
    } else {
        365
    }
}

pub open spec fn days_in_month(y: int, m: int) -> int {
    if m == 2 {
        if is_leap_year(y) {
            29
        } else {
            28
        }
    } else if m == 4 || m == 6 || m == 9 || m == 11 {
        30
    } else {
        31
    }
}

/// Days from 1970-01-01 to January 1st of year `y` (for `y >= 1970`).
pub open spec fn days_before_year(y: int) -> int
    decreases y - 1970,
{
    if y <= 1970 {
        0
    } else {
        days_before_year(y - 1) + days_in_year(y - 1)
    }
}

/// Days from January 1st of year `y` to the first day of month `m`.
pub open spec fn days_before_month(y: int, m: int) -> int
    decreases m,
{
    if m <= 1 {
        0
    } else {
        days_before_month(y, m - 1) + days_in_month(y, m - 1)
    }
}

/// A calendar date on or after the epoch.
pub open spec fn is_valid_date(y: int, m: int, d: int) -> bool {
    &&& y >= 1970
    &&& 1 <= m <= 12
    &&& 1 <= d <= days_in_month(y, m)
}

/// The number of days from 1970-01-01 to the date `y-m-d`.
pub open spec fn day_number(y: int, m: int, d: int) -> int {
    days_before_year(y) + days_before_month(y, m) + d - 1
}

/// `y-m-d` is the date of the day numbered `days` since 1970-01-01.
pub open spec fn is_date_of_day(days: int, y: int, m: int, d: int) -> bool {
    is_valid_date(y, m, d) && day_number(y, m, d) == days
}

/// The date (year, month, day) of the day numbered `days` since 1970-01-01.
pub open spec fn civil_date(days: int) -> (int, int, int) {
    choose|y: int, m: int, d: int| is_date_of_day(days, y, m, d)
}

/// Hour of the day at `t` seconds after the epoch.
pub open spec fn hour_of(t: int) -> int {
    (t % SECONDS_PER_DAY as int) / 3600
}

/// Minute of the hour at `t` seconds after the epoch.
pub open spec fn minute_of(t: int) -> int {
    (t % 3600) / 60
}

/// Second of the minute at `t` seconds after the epoch.
pub open spec fn second_of(t: int) -> int {
    t % 60
}

/// A year as an offset from 2000, truncated to eight bits: years outside
/// 2000..=2255 wrap around modulo 256 (1970 gives 226, 2300 gives 44).
pub open spec fn year_offset_of(year: int) -> int {
    (year - 2000) % 256
}

proof fn lemma_days_before_month_mono(y: int, m1: int, m2: int)
    requires
        1 <= m1 <= m2,
    ensures
        days_before_month(y, m1) <= days_before_month(y, m2),
    decreases m2 - m1,
{
    if m1 < m2 {
        lemma_days_before_month_mono(y, m1, m2 - 1);
    }
}

proof fn lemma_days_before_year_mono(y1: int, y2: int)
    requires
        1970 <= y1 <= y2,
    ensures
        days_before_year(y1) <= days_before_year(y2),
    decreases y2 - y1,
{
    if y1 < y2 {
        lemma_days_before_year_mono(y1, y2 - 1);
    }
}

proof fn lemma_months_fill_year(y: int)
    ensures
        days_before_month(y, 13) == days_in_year(y),
{
    reveal_with_fuel(days_before_month, 13);
}

/// A valid date's day number lies within its year and within its month.
proof fn lemma_day_number_bounds(y: int, m: int, d: int)
    requires
        is_valid_date(y, m, d),
    ensures
        days_before_year(y) <= days_before_year(y) + days_before_month(y, m) <= day_number(y, m, d),
        day_number(y, m, d) < days_before_year(y) + days_before_month(y, m + 1),
        day_number(y, m, d) < days_before_year(y + 1),
{
    lemma_days_before_month_mono(y, 1, m);
    lemma_days_before_month_mono(y, m + 1, 13);
    lemma_months_fill_year(y);
}

/// Each day number belongs to at most one valid date, so `civil_date`
/// gives that date wherever one exists.
pub proof fn lemma_date_of_day_unique(days: int, y: int, m: int, d: int)
    requires
        is_date_of_day(days, y, m, d),
    ensures
        civil_date(days) == (y, m, d),
{
    let (y2, m2, d2) = civil_date(days);
    assert(is_date_of_day(days, y2, m2, d2));
    lemma_day_number_bounds(y, m, d);
    lemma_day_number_bounds(y2, m2, d2);
    if y < y2 {
        lemma_days_before_year_mono(y + 1, y2);
    } else if y2 < y {
        lemma_days_before_year_mono(y2 + 1, y);
    }
    assert(y == y2);
    if m < m2 {
        lemma_days_before_month_mono(y, m + 1, m2);
    } else if m2 < m {
        lemma_days_before_month_mono(y, m2 + 1, m);
    }
}

} // verus!
