use calendar_core::date::{
    CalendarDate, days_in_month, first_of_month, last_of_month, next_date, next_month_anchor,
    previous_month_anchor, weekday_from_sunday,
};

fn ymd(year: u16, month: u8, day: u8) -> CalendarDate {
    CalendarDate { year, month, day }
}

#[test]
fn first_of_month_normalizes_day() {
    assert_eq!(first_of_month(&ymd(2024, 7, 19)), ymd(2024, 7, 1));
    assert_eq!(first_of_month(&ymd(2024, 7, 1)), ymd(2024, 7, 1));
}

#[test]
fn next_month_within_year() {
    assert_eq!(next_month_anchor(&ymd(2024, 1, 1)), ymd(2024, 2, 1));
    assert_eq!(next_month_anchor(&ymd(2024, 11, 1)), ymd(2024, 12, 1));
}

#[test]
fn next_month_across_year_boundary() {
    assert_eq!(next_month_anchor(&ymd(2023, 12, 1)), ymd(2024, 1, 1));
}

#[test]
fn previous_month_within_year() {
    assert_eq!(previous_month_anchor(&ymd(2024, 3, 1)), ymd(2024, 2, 1));
}

#[test]
fn previous_month_across_year_boundary() {
    assert_eq!(previous_month_anchor(&ymd(2024, 1, 1)), ymd(2023, 12, 1));
}

#[test]
fn last_of_month_handles_leap_february() {
    assert_eq!(last_of_month(&ymd(2024, 2, 1)), ymd(2024, 2, 29));
    assert_eq!(last_of_month(&ymd(2023, 2, 1)), ymd(2023, 2, 28));
    assert_eq!(last_of_month(&ymd(2024, 4, 1)), ymd(2024, 4, 30));
    assert_eq!(last_of_month(&ymd(2024, 12, 1)), ymd(2024, 12, 31));
}

#[test]
fn century_leap_rule() {
    assert_eq!(days_in_month(1900, 2), 28);
    assert_eq!(days_in_month(2000, 2), 29);
    assert_eq!(days_in_month(2100, 2), 28);
    assert_eq!(days_in_month(2004, 2), 29);
}

#[test]
fn next_date_steps_over_boundaries() {
    assert_eq!(next_date(&ymd(2024, 2, 28)), ymd(2024, 2, 29));
    assert_eq!(next_date(&ymd(2024, 2, 29)), ymd(2024, 3, 1));
    assert_eq!(next_date(&ymd(2023, 2, 28)), ymd(2023, 3, 1));
    assert_eq!(next_date(&ymd(2023, 12, 31)), ymd(2024, 1, 1));
    assert_eq!(next_date(&ymd(2024, 7, 14)), ymd(2024, 7, 15));
}

#[test]
fn known_weekdays() {
    // 2000-01-01 was a Saturday, 2024-02-01 a Thursday, 2023-12-31 a Sunday.
    assert_eq!(weekday_from_sunday(&ymd(2000, 1, 1)), 6);
    assert_eq!(weekday_from_sunday(&ymd(2024, 2, 1)), 4);
    assert_eq!(weekday_from_sunday(&ymd(2023, 12, 31)), 0);
}

#[test]
fn month_round_trip_concrete() {
    for &(y, m) in &[(2024u16, 1u8), (2024, 12), (2023, 6), (1999, 12), (2000, 1)] {
        let a = ymd(y, m, 1);
        assert_eq!(previous_month_anchor(&next_month_anchor(&a)), a);
        assert_eq!(next_month_anchor(&previous_month_anchor(&a)), a);
    }
}
