//! Sweeps several decades of dates and checks the library's date arithmetic
//! against chrono's.

use calendar_core::date::{
    CalendarDate, days_in_month, next_date, weekday_from_sunday,
};
use calendar_core::facts::{day_of_year, iso_week_number};
use chrono::{Datelike, NaiveDate};

fn ymd(year: u16, month: u8, day: u8) -> CalendarDate {
    CalendarDate { year, month, day }
}

#[test]
fn month_lengths_agree_with_chrono() {
    for year in 1900..=2100u16 {
        for month in 1..=12u8 {
            let next = if month == 12 {
                NaiveDate::from_ymd_opt(year as i32 + 1, 1, 1)
            } else {
                NaiveDate::from_ymd_opt(year as i32, month as u32 + 1, 1)
            };
            let last = next.unwrap().pred_opt().unwrap();
            assert_eq!(days_in_month(year, month) as u32, last.day());
        }
    }
}

#[test]
fn day_facts_agree_with_chrono_over_four_decades() {
    let mut date = ymd(1995, 1, 1);
    let mut expected = NaiveDate::from_ymd_opt(1995, 1, 1).unwrap();
    while date.year < 2035 {
        assert_eq!(day_of_year(&date) as u32, expected.ordinal());
        assert_eq!(iso_week_number(&date) as u32, expected.iso_week().week());
        assert_eq!(
            weekday_from_sunday(&date) as u32,
            expected.weekday().num_days_from_sunday()
        );
        date = next_date(&date);
        expected = expected.succ_opt().unwrap();
    }
    assert_eq!(
        (expected.year(), expected.month(), expected.day()),
        (date.year as i32, date.month as u32, date.day as u32)
    );
}
