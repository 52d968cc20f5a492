//! Facts derived from a single date: ordinal day of the year, ISO 8601 week
//! number, and zodiac sign.

use vstd::prelude::*;

use crate::date::{
    CalendarDate, MAX_YEAR, date_index, day_index, days_before_month, days_before_year,
    days_in_month, days_in_year, is_leap_year,
    lemma_days_before_month_monotone, lemma_months_fill_year, valid_date,
};

verus! {

/// 1-based ordinal of a date within its year.
pub open spec fn ordinal_of(d: CalendarDate) -> int {
    days_before_month(d.year as int, d.month as int) + d.day
}

/// ISO 8601 weekday of a date: 1 is Monday, 7 is Sunday.
pub open spec fn iso_weekday_of(d: CalendarDate) -> int {
    (day_index(d) + 5) % 7 + 1
}

/// ISO weekday of January 1 of year `y`.
pub open spec fn jan1_iso_weekday(y: int) -> int {
    (days_before_year(y) + 5) % 7 + 1
}

/// Number of ISO weeks of year `y`: 53 when January 1 falls on a Thursday,
/// or on a Wednesday of a leap year; 52 otherwise.
pub open spec fn iso_weeks_in_year(y: int) -> int {
    if jan1_iso_weekday(y) == 4 || (is_leap_year(y) && jan1_iso_weekday(y) == 3) {
        53
    } else {
        52
    }
}

/// ISO 8601 week number of a date: the week count of the Thursday of the
/// date's Monday-first week. The raw count `(ordinal - weekday + 10) / 7`
/// falls to 0 for the first days of a year that still belong to the last
/// week of the prior year, and past the year's own week count for the last
/// days of a year that already belong to week 1 of the next.
pub open spec fn iso_week_of(d: CalendarDate) -> int {
    let w = (ordinal_of(d) - iso_weekday_of(d) + 10) / 7;
    if w < 1 {
        iso_weeks_in_year(d.year as int - 1)
    } else if w > iso_weeks_in_year(d.year as int) {
        1
    } else {
        w
    }
}

/// The twelve zodiac signs.
#[derive(Clone, Copy, PartialEq, Eq, Structural, Debug)]
pub enum ZodiacSign {
    Capricorn,
    Aquarius,
    Pisces,
    Aries,
    Taurus,
    Gemini,
    Cancer,
    Leo,
    Virgo,
    Libra,
    Scorpio,
    Sagittarius,
}

/// The sign whose inclusive (month, day) range holds the given day. The
/// ranges tile the whole calendar, so every day falls under exactly one sign;
/// Capricorn wraps from December 22 to January 19.
pub open spec fn zodiac_sign_of(month: int, day: int) -> ZodiacSign {
    if month == 1 {
        if day <= 19 { ZodiacSign::Capricorn } else { ZodiacSign::Aquarius }
    } else if month == 2 {
        if day <= 18 { ZodiacSign::Aquarius } else { ZodiacSign::Pisces }
    } else if month == 3 {
        if day <= 20 { ZodiacSign::Pisces } else { ZodiacSign::Aries }
    } else if month == 4 {
        if day <= 19 { ZodiacSign::Aries } else { ZodiacSign::Taurus }
    } else if month == 5 {
        if day <= 20 { ZodiacSign::Taurus } else { ZodiacSign::Gemini }
    } else if month == 6 {
        if day <= 20 { ZodiacSign::Gemini } else { ZodiacSign::Cancer }
    } else if month == 7 {
        if day <= 22 { ZodiacSign::Cancer } else { ZodiacSign::Leo }
    } else if month == 8 {
        if day <= 22 { ZodiacSign::Leo } else { ZodiacSign::Virgo }
    } else if month == 9 {
        if day <= 22 { ZodiacSign::Virgo } else { ZodiacSign::Libra }
    } else if month == 10 {
        if day <= 22 { ZodiacSign::Libra } else { ZodiacSign::Scorpio }
    } else if month == 11 {
        if day <= 21 { ZodiacSign::Scorpio } else { ZodiacSign::Sagittarius }
    } else {
        if day <= 21 { ZodiacSign::Sagittarius } else { ZodiacSign::Capricorn }
    }
}

impl ZodiacSign {
    /// The sign's English name.
    pub fn name(&self) -> (r: &'static str)
        ensures
            r@ == match *self {
                ZodiacSign::Capricorn => "Capricorn"@,
                ZodiacSign::Aquarius => "Aquarius"@,
                ZodiacSign::Pisces => "Pisces"@,
                ZodiacSign::Aries => "Aries"@,
                ZodiacSign::Taurus => "Taurus"@,
                ZodiacSign::Gemini => "Gemini"@,
                ZodiacSign::Cancer => "Cancer"@,
                ZodiacSign::Leo => "Leo"@,
                ZodiacSign::Virgo => "Virgo"@,
                ZodiacSign::Libra => "Libra"@,
                ZodiacSign::Scorpio => "Scorpio"@,
                ZodiacSign::Sagittarius => "Sagittarius"@,
            },
    {
        match *self {
            ZodiacSign::Capricorn => "Capricorn",
            ZodiacSign::Aquarius => "Aquarius",
            ZodiacSign::Pisces => "Pisces",
            ZodiacSign::Aries => "Aries",
            ZodiacSign::Taurus => "Taurus",
            ZodiacSign::Gemini => "Gemini",
            ZodiacSign::Cancer => "Cancer",
            ZodiacSign::Leo => "Leo",
            ZodiacSign::Virgo => "Virgo",
            ZodiacSign::Libra => "Libra",
            ZodiacSign::Scorpio => "Scorpio",
            ZodiacSign::Sagittarius => "Sagittarius",
        }
    }
}

/// 1-based ordinal of a date within its year, executable. It is 1 exactly on
/// January 1.
pub fn day_of_year(d: &CalendarDate) -> (r: u16)
    requires
        valid_date(*d),
    ensures
        r as int == ordinal_of(*d),
        1 <= r as int <= days_in_year(d.year as int),
        r == 1 <==> d.month == 1 && d.day == 1,
{
    proof {
        lemma_months_fill_year(d.year as int);
        lemma_days_before_month_monotone(d.year as int, d.month as int + 1, 13int);
        if d.month >= 2 {
            lemma_days_before_month_monotone(d.year as int, 2int, d.month as int);
        }
    }
    let mut before_month: u16 = 0;
    let mut m: u8 = 1;
    while m < d.month
        invariant
            1 <= m <= d.month,
            d.month <= 12,
            before_month as int == days_before_month(d.year as int, m as int),
            before_month <= 31 * (m - 1),
        decreases d.month - m,
    {
        let dim: u8 = days_in_month(d.year, m);
        before_month = before_month + dim as u16;
        m = m + 1;
    }
    before_month + d.day as u16
}

/// Days from January 1 of year 0 to January 1 of year `y`, executable.
fn days_before_year_num(y: u16) -> (r: u32)
    requires
        y <= MAX_YEAR,
    ensures
        r as int == days_before_year(y as int),
{
    let yy: u32 = y as u32;
    365 * yy + (yy + 3) / 4 - (yy + 99) / 100 + (yy + 399) / 400
}

/// Number of ISO weeks of a year, executable.
pub fn iso_weeks_in(y: u16) -> (r: u8)
    requires
        y <= MAX_YEAR,
    ensures
        r as int == iso_weeks_in_year(y as int),
        r == 52 || r == 53,
{
    let before: u32 = days_before_year_num(y);
    let jan1_wd: u32 = (before + 5) % 7 + 1;
    let leap: bool = (y % 4 == 0 && y % 100 != 0) || y % 400 == 0;
    if jan1_wd == 4 || (leap && jan1_wd == 3) {
        53
    } else {
        52
    }
}

/// ISO 8601 week number of a date, executable.
pub fn iso_week_number(d: &CalendarDate) -> (r: u8)
    requires
        valid_date(*d),
        d.year >= 1,
    ensures
        r as int == iso_week_of(*d),
        1 <= r <= 53,
{
    let ord: u16 = day_of_year(d);
    let idx: u32 = date_index(d);
    let iwd: u32 = (idx + 5) % 7 + 1;
    let w: u32 = (ord as u32 + 10 - iwd) / 7;
    if w < 1 {
        iso_weeks_in(d.year - 1)
    } else {
        let weeks_this_year: u8 = iso_weeks_in(d.year);
        if w > weeks_this_year as u32 {
            1
        } else {
            w as u8
        }
    }
}

/// The facts the detail view shows for one date.
#[derive(Clone, Copy, PartialEq, Eq, Structural, Debug)]
pub struct DayFacts {
    pub date: CalendarDate,
    pub day_of_year: u16,
    pub iso_week_number: u8,
    pub zodiac_sign: ZodiacSign,
}

/// Computes every derived fact of a date: its ordinal within the year, its
/// ISO 8601 week number, and its zodiac sign. The ordinal is 1 exactly on
/// January 1.
pub fn compute_facts(d: &CalendarDate) -> (r: DayFacts)
    requires
        valid_date(*d),
        d.year >= 1,
    ensures
        r.date == *d,
        r.day_of_year as int == ordinal_of(*d),
        1 <= r.day_of_year as int <= days_in_year(d.year as int),
        r.day_of_year == 1 <==> d.month == 1 && d.day == 1,
        r.iso_week_number as int == iso_week_of(*d),
        1 <= r.iso_week_number <= 53,
        r.zodiac_sign == zodiac_sign_of(d.month as int, d.day as int),
{
    DayFacts {
        date: *d,
        day_of_year: day_of_year(d),
        iso_week_number: iso_week_number(d),
        zodiac_sign: zodiac_sign(d),
    }
}

/// The zodiac sign of a date, executable.
pub fn zodiac_sign(d: &CalendarDate) -> (r: ZodiacSign)
    requires
        valid_date(*d),
    ensures
        r == zodiac_sign_of(d.month as int, d.day as int),
{
    if d.month == 1 {
        if d.day <= 19 { ZodiacSign::Capricorn } else { ZodiacSign::Aquarius }
    } else if d.month == 2 {
        if d.day <= 18 { ZodiacSign::Aquarius } else { ZodiacSign::Pisces }
    } else if d.month == 3 {
        if d.day <= 20 { ZodiacSign::Pisces } else { ZodiacSign::Aries }
    } else if d.month == 4 {
        if d.day <= 19 { ZodiacSign::Aries } else { ZodiacSign::Taurus }
    } else if d.month == 5 {
        if d.day <= 20 { ZodiacSign::Taurus } else { ZodiacSign::Gemini }
    } else if d.month == 6 {
        if d.day <= 20 { ZodiacSign::Gemini } else { ZodiacSign::Cancer }
    } else if d.month == 7 {
        if d.day <= 22 { ZodiacSign::Cancer } else { ZodiacSign::Leo }
    } else if d.month == 8 {
        if d.day <= 22 { ZodiacSign::Leo } else { ZodiacSign::Virgo }
    } else if d.month == 9 {
        if d.day <= 22 { ZodiacSign::Virgo } else { ZodiacSign::Libra }
    } else if d.month == 10 {
        if d.day <= 22 { ZodiacSign::Libra } else { ZodiacSign::Scorpio }
    } else if d.month == 11 {
        if d.day <= 21 { ZodiacSign::Scorpio } else { ZodiacSign::Sagittarius }
    } else {
        if d.day <= 21 { ZodiacSign::Sagittarius } else { ZodiacSign::Capricorn }
    }
}

} // verus!
