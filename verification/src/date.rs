//! Calendar dates and date navigation on the proleptic Gregorian calendar.
//!
//! The mathematical model is a day index: every supported date is mapped to
//! the number of days between it and January 1 of year 0. All reasoning about
//! stepping, ordering and weekdays goes through this index.

use vstd::prelude::*;

verus! {

/// Largest year the library models. Month anchors handed to the grid builder
/// must lie strictly inside the supported range, so that the grid's padding
/// days (at most six on each side) still denote supported dates.
pub const MAX_YEAR: u16 = 10000;

/// A proleptic Gregorian calendar date.
#[derive(Clone, Copy, PartialEq, Eq, Structural, Debug)]
pub struct CalendarDate {
    pub year: u16,
    pub month: u8,
    pub day: u8,
}

/// A year is a leap year iff it is divisible by 4 but not by 100, or by 400.
pub open spec fn is_leap_year(y: int) -> bool {
    (y % 4 == 0 && y % 100 != 0) || y % 400 == 0
}

/// Number of days in month `m` of year `y`.
pub open spec fn days_in_month_of(y: int, m: int) -> int {
    if m == 2 {
        if is_leap_year(y) { 29 } else { 28 }
    } else if m == 4 || m == 6 || m == 9 || m == 11 {
        30
    } else {
        31
    }
}

/// A date the library can reason about: a real Gregorian date in years
/// 0 through `MAX_YEAR`.
pub open spec fn valid_date(d: CalendarDate) -> bool {
    &&& 1 <= d.month <= 12
    &&& 1 <= d.day <= days_in_month_of(d.year as int, d.month as int)
    &&& d.year <= MAX_YEAR
}

/// A month anchor: a valid date normalized to day 1, standing for its month.
pub open spec fn is_month_anchor(d: CalendarDate) -> bool {
    valid_date(d) && d.day == 1
}

/// Number of leap years `z` with `0 <= z < y` (for `y >= 0`).
pub open spec fn leap_years_before(y: int) -> int {
    (y + 3) / 4 - (y + 99) / 100 + (y + 399) / 400
}

/// Number of days from January 1 of year 0 (day 0) to January 1 of year `y`.
pub open spec fn days_before_year(y: int) -> int {
    365 * y + leap_years_before(y)
}

/// Number of days of year `y` that precede month `m`.
pub open spec fn days_before_month(y: int, m: int) -> int
    decreases m,
{
    if m <= 1 {
        0
    } else {
        days_before_month(y, m - 1) + days_in_month_of(y, m - 1)
    }
}

/// 365 or 366.
pub open spec fn days_in_year(y: int) -> int {
    if is_leap_year(y) { 366 } else { 365 }
}

/// The day index of a date: days elapsed since January 1 of year 0.
pub open spec fn day_index(d: CalendarDate) -> int {
    days_before_year(d.year as int) + days_before_month(d.year as int, d.month as int)
        + d.day - 1
}

/// Counting leap years gains exactly one at each leap year: the three
/// rounded quotients each step by one precisely at a multiple of 4, 100, 400.
pub proof fn lemma_leap_years_before_step(y: int)
    requires
        y >= 0,
    ensures
        leap_years_before(y + 1) == leap_years_before(y) + if is_leap_year(y) {
            1int
        } else {
            0int
        },
{
    assert((y + 4) / 4 - (y + 3) / 4 == if y % 4 == 0 { 1int } else { 0int });
    assert((y + 100) / 100 - (y + 99) / 100 == if y % 100 == 0 { 1int } else { 0int });
    assert((y + 400) / 400 - (y + 399) / 400 == if y % 400 == 0 { 1int } else { 0int });
}

/// The months of a year account for exactly its 365 or 366 days.
pub proof fn lemma_months_fill_year(y: int)
    ensures
        days_before_month(y, 13) == days_in_year(y),
{
    reveal_with_fuel(days_before_month, 13);
}

/// Day counting is consistent across a year boundary.
pub proof fn lemma_days_before_year_step(y: int)
    requires
        y >= 0,
    ensures
        days_before_year(y + 1) == days_before_year(y) + days_in_year(y),
{
    lemma_leap_years_before_step(y);
}

/// Years only add days: each later year starts at least 365 days later.
pub proof fn lemma_days_before_year_monotone(y1: int, y2: int)
    requires
        0 <= y1 <= y2,
    ensures
        days_before_year(y1) + 365 * (y2 - y1) <= days_before_year(y2),
    decreases y2 - y1,
{
    if y1 < y2 {
        lemma_days_before_year_monotone(y1, y2 - 1);
        lemma_days_before_year_step(y2 - 1);
    }
}

/// Months only add days, 28 to 31 at a time.
pub proof fn lemma_days_before_month_monotone(y: int, m1: int, m2: int)
    requires
        1 <= m1 <= m2 <= 13,
    ensures
        days_before_month(y, m1) + 28 * (m2 - m1) <= days_before_month(y, m2),
        days_before_month(y, m2) <= days_before_month(y, m1) + 31 * (m2 - m1),
    decreases m2 - m1,
{
    if m1 < m2 {
        lemma_days_before_month_monotone(y, m1, m2 - 1);
    }
}

/// Every valid date's index lies within its year's block of days.
pub proof fn lemma_day_index_in_year(d: CalendarDate)
    requires
        valid_date(d),
    ensures
        days_before_year(d.year as int) <= day_index(d),
        day_index(d) < days_before_year(d.year as int + 1),
{
    lemma_days_before_month_monotone(d.year as int, 1int, d.month as int);
    lemma_days_before_month_monotone(d.year as int, d.month as int + 1, 13int);
    lemma_months_fill_year(d.year as int);
    lemma_days_before_year_step(d.year as int);
}

/// Distinct valid dates have distinct day indices.
pub proof fn lemma_day_index_injective(d1: CalendarDate, d2: CalendarDate)
    requires
        valid_date(d1),
        valid_date(d2),
        day_index(d1) == day_index(d2),
    ensures
        d1 == d2,
{
    lemma_day_index_in_year(d1);
    lemma_day_index_in_year(d2);
    if d1.year < d2.year {
        lemma_days_before_year_monotone(d1.year as int + 1, d2.year as int);
    }
    if d2.year < d1.year {
        lemma_days_before_year_monotone(d2.year as int + 1, d1.year as int);
    }
    let y = d1.year as int;
    if d1.month < d2.month {
        lemma_days_before_month_monotone(y, d1.month as int + 1, d2.month as int);
    }
    if d2.month < d1.month {
        lemma_days_before_month_monotone(y, d2.month as int + 1, d1.month as int);
    }
}

/// The calendar successor of a date: the next day, rolling over month and
/// year boundaries.
pub open spec fn next_date_of(d: CalendarDate) -> CalendarDate {
    if d.day < days_in_month_of(d.year as int, d.month as int) {
        CalendarDate { year: d.year, month: d.month, day: (d.day + 1) as u8 }
    } else if d.month < 12 {
        CalendarDate { year: d.year, month: (d.month + 1) as u8, day: 1 }
    } else {
        CalendarDate { year: (d.year + 1) as u16, month: 1, day: 1 }
    }
}

/// Stepping to the next day adds one to the day index and stays valid
/// (short of the end of the supported range).
pub proof fn lemma_next_date_of(d: CalendarDate)
    requires
        valid_date(d),
        !(d.year == MAX_YEAR && d.month == 12 && d.day == 31),
    ensures
        valid_date(next_date_of(d)),
        day_index(next_date_of(d)) == day_index(d) + 1,
{
    if d.day < days_in_month_of(d.year as int, d.month as int) {
    } else if d.month < 12 {
    } else {
        lemma_months_fill_year(d.year as int);
        lemma_days_before_year_step(d.year as int);
    }
}

/// The date `n` days after `d`.
pub open spec fn date_plus_days(d: CalendarDate, n: nat) -> CalendarDate
    decreases n,
{
    if n == 0 {
        d
    } else {
        next_date_of(date_plus_days(d, (n - 1) as nat))
    }
}

/// Advancing `n` days adds `n` to the day index, as long as the walk stays
/// inside the supported range.
pub proof fn lemma_date_plus_days(d: CalendarDate, n: nat)
    requires
        valid_date(d),
        day_index(d) + n <= day_index(
            CalendarDate { year: MAX_YEAR, month: 12, day: 31 },
        ),
    ensures
        valid_date(date_plus_days(d, n)),
        day_index(date_plus_days(d, n)) == day_index(d) + n,
    decreases n,
{
    if n > 0 {
        lemma_date_plus_days(d, (n - 1) as nat);
        let prev = date_plus_days(d, (n - 1) as nat);
        lemma_day_index_in_year(prev);
        lemma_day_index_in_year(CalendarDate { year: MAX_YEAR, month: 12, day: 31 });
        if prev.year == MAX_YEAR && prev.month == 12 && prev.day == 31 {
            assert(day_index(prev) == day_index(
                CalendarDate { year: MAX_YEAR, month: 12, day: 31 },
            ));
        }
        lemma_next_date_of(prev);
    }
}

/// Number of days in a month, executable.
pub fn days_in_month(year: u16, month: u8) -> (r: u8)
    requires
        1 <= month <= 12,
    ensures
        r as int == days_in_month_of(year as int, month as int),
        28 <= r <= 31,
{
    if month == 2 {
        let leap: bool = (year % 4 == 0 && year % 100 != 0) || year % 400 == 0;
        if leap { 29 } else { 28 }
    } else if month == 4 || month == 6 || month == 9 || month == 11 {
        30
    } else {
        31
    }
}

/// Day index of a date, executable: days elapsed since January 1 of year 0.
pub fn date_index(d: &CalendarDate) -> (r: u32)
    requires
        valid_date(*d),
    ensures
        r as int == day_index(*d),
        r <= 3700000,
{
    let y: u32 = d.year as u32;
    let before_year: u32 = 365 * y + (y + 3) / 4 - (y + 99) / 100 + (y + 399) / 400;
    assert(before_year as int == days_before_year(y as int));
    let mut before_month: u32 = 0;
    let mut m: u8 = 1;
    while m < d.month
        invariant
            1 <= m <= d.month,
            d.month <= 12,
            before_month as int == days_before_month(d.year as int, m as int),
            before_month <= 31 * (m - 1),
        decreases d.month - m,
    {
        let dim: u8 = days_in_month(d.year, m);
        before_month = before_month + dim as u32;
        m = m + 1;
    }
    before_year + before_month + d.day as u32 - 1
}

/// Weekday of a date, Sunday-first: 0 is Sunday, 6 is Saturday.
/// January 1 of year 0 is a Saturday in the proleptic Gregorian calendar.
pub open spec fn weekday_from_sunday_of(d: CalendarDate) -> int {
    (day_index(d) + 6) % 7
}

/// Weekday of a date, Sunday-first, executable.
pub fn weekday_from_sunday(d: &CalendarDate) -> (r: u8)
    requires
        valid_date(*d),
    ensures
        r as int == weekday_from_sunday_of(*d),
        r < 7,
{
    let idx: u32 = date_index(d);
    ((idx + 6) % 7) as u8
}

/// The calendar successor of a date, executable.
pub fn next_date(d: &CalendarDate) -> (r: CalendarDate)
    requires
        valid_date(*d),
        !(d.year == MAX_YEAR && d.month == 12 && d.day == 31),
    ensures
        r == next_date_of(*d),
        valid_date(r),
        day_index(r) == day_index(*d) + 1,
{
    proof {
        lemma_next_date_of(*d);
    }
    let dim: u8 = days_in_month(d.year, d.month);
    if d.day < dim {
        CalendarDate { year: d.year, month: d.month, day: d.day + 1 }
    } else if d.month < 12 {
        CalendarDate { year: d.year, month: d.month + 1, day: 1 }
    } else {
        CalendarDate { year: d.year + 1, month: 1, day: 1 }
    }
}

/// The same year and month, with the day set to 1.
pub open spec fn first_of_month_of(d: CalendarDate) -> CalendarDate {
    CalendarDate { year: d.year, month: d.month, day: 1 }
}

/// Returns the date with the same year and month and day 1.
pub fn first_of_month(d: &CalendarDate) -> (r: CalendarDate)
    requires
        valid_date(*d),
    ensures
        r == first_of_month_of(*d),
        is_month_anchor(r),
{
    CalendarDate { year: d.year, month: d.month, day: 1 }
}

/// Day 1 of the month after the anchor's, rolling December into January.
pub open spec fn next_month_anchor_of(a: CalendarDate) -> CalendarDate {
    if a.month == 12 {
        CalendarDate { year: (a.year + 1) as u16, month: 1, day: 1 }
    } else {
        CalendarDate { year: a.year, month: (a.month + 1) as u8, day: 1 }
    }
}

/// Day 1 of the month before the anchor's, rolling January into December.
pub open spec fn previous_month_anchor_of(a: CalendarDate) -> CalendarDate {
    if a.month == 1 {
        CalendarDate { year: (a.year - 1) as u16, month: 12, day: 1 }
    } else {
        CalendarDate { year: a.year, month: (a.month - 1) as u8, day: 1 }
    }
}

/// Given a day-1 anchor, returns day 1 of the following month.
pub fn next_month_anchor(a: &CalendarDate) -> (r: CalendarDate)
    requires
        is_month_anchor(*a),
        !(a.year == MAX_YEAR && a.month == 12),
    ensures
        r == next_month_anchor_of(*a),
        is_month_anchor(r),
{
    if a.month == 12 {
        CalendarDate { year: a.year + 1, month: 1, day: 1 }
    } else {
        CalendarDate { year: a.year, month: a.month + 1, day: 1 }
    }
}

/// Given a day-1 anchor, returns day 1 of the prior month.
pub fn previous_month_anchor(a: &CalendarDate) -> (r: CalendarDate)
    requires
        is_month_anchor(*a),
        !(a.year == 0 && a.month == 1),
    ensures
        r == previous_month_anchor_of(*a),
        is_month_anchor(r),
{
    if a.month == 1 {
        CalendarDate { year: a.year - 1, month: 12, day: 1 }
    } else {
        CalendarDate { year: a.year, month: a.month - 1, day: 1 }
    }
}

/// The last day of the anchor's month.
pub open spec fn last_of_month_of(a: CalendarDate) -> CalendarDate {
    CalendarDate {
        year: a.year,
        month: a.month,
        day: days_in_month_of(a.year as int, a.month as int) as u8,
    }
}

/// Returns the last day of the anchor's month.
pub fn last_of_month(a: &CalendarDate) -> (r: CalendarDate)
    requires
        is_month_anchor(*a),
    ensures
        r == last_of_month_of(*a),
        valid_date(r),
{
    CalendarDate { year: a.year, month: a.month, day: days_in_month(a.year, a.month) }
}

/// Advancing one month and coming back, or the reverse, is the identity on
/// day-1 anchors. The prior month of a year-0 January is not modeled, so that
/// anchor is left out.
pub proof fn lemma_month_anchor_round_trip(a: CalendarDate)
    requires
        is_month_anchor(a),
        a.year >= 1,
    ensures
        previous_month_anchor_of(next_month_anchor_of(a)) == a,
        next_month_anchor_of(previous_month_anchor_of(a)) == a,
{
}

/// The month after a day-1 anchor's is the immediately following month of the
/// calendar: month + 1 within a year, and January of the next year after a
/// December. Its anchor is already a day-1 date, so taking the first of its
/// month changes nothing.
pub proof fn lemma_next_month_anchor_follows(a: CalendarDate)
    requires
        valid_date(a),
        a.day == 1,
    ensures
        first_of_month_of(next_month_anchor_of(a)) == next_month_anchor_of(a),
        a.month < 12 ==> next_month_anchor_of(a).month == a.month + 1
            && next_month_anchor_of(a).year == a.year,
        a.month == 12 ==> next_month_anchor_of(a).month == 1
            && next_month_anchor_of(a).year == a.year + 1,
{
}

} // verus!
