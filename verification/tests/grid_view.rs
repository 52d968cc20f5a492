use calendar_core::date::CalendarDate;
use calendar_core::grid::build_grid;

fn ymd(year: u16, month: u8, day: u8) -> CalendarDate {
    CalendarDate { year, month, day }
}

#[test]
fn grid_for_february_2024() {
    // Feb 1 2024 is a Thursday: a 5-week grid from Sun Jan 28 to Sat Mar 2.
    let cells = build_grid(&ymd(2024, 2, 1));
    assert_eq!(cells.len(), 35);
    assert_eq!(cells[0].date, ymd(2024, 1, 28));
    assert_eq!(cells[34].date, ymd(2024, 3, 2));
    for i in 0..4 {
        assert!(!cells[i].in_current_month);
        assert_eq!(cells[i].date, ymd(2024, 1, 28 + i as u8));
    }
    for i in 4..33 {
        assert!(cells[i].in_current_month);
        assert_eq!(cells[i].date, ymd(2024, 2, (i - 3) as u8));
    }
    for i in 33..35 {
        assert!(!cells[i].in_current_month);
        assert_eq!(cells[i].date, ymd(2024, 3, (i - 32) as u8));
    }
}

#[test]
fn grid_starting_on_sunday_has_no_leading_padding() {
    // Sep 1 2024 is a Sunday.
    let cells = build_grid(&ymd(2024, 9, 1));
    assert_eq!(cells[0].date, ymd(2024, 9, 1));
    assert!(cells[0].in_current_month);
    assert_eq!(cells.len(), 35);
}

#[test]
fn grid_of_six_weeks() {
    // Jun 1 2024 is a Saturday and June has 30 days: 6 + 30 = 36 cells round
    // up to six weeks.
    let cells = build_grid(&ymd(2024, 6, 1));
    assert_eq!(cells.len(), 42);
    assert_eq!(cells[0].date, ymd(2024, 5, 26));
    assert_eq!(cells[41].date, ymd(2024, 7, 6));
}

#[test]
fn grid_of_exactly_four_weeks() {
    // Feb 2015: 28 days, Feb 1 a Sunday — the only shape with no padding.
    let cells = build_grid(&ymd(2015, 2, 1));
    assert_eq!(cells.len(), 28);
    assert_eq!(cells[0].date, ymd(2015, 2, 1));
    assert_eq!(cells[27].date, ymd(2015, 2, 28));
    assert!(cells.iter().all(|c| c.in_current_month));
}

#[test]
fn grid_is_whole_weeks_and_consecutive() {
    for &(y, m) in &[(2024u16, 1u8), (2024, 2), (2023, 12), (2025, 3), (2000, 2), (1999, 12)] {
        let cells = build_grid(&ymd(y, m, 1));
        assert_eq!(cells.len() % 7, 0);
        assert!(cells.len() >= 28);
        for pair in cells.windows(2) {
            assert_eq!(calendar_core::date::next_date(&pair[0].date), pair[1].date);
        }
    }
}

#[test]
fn grid_holds_each_day_of_the_month_once() {
    let anchor = ymd(2025, 3, 1);
    let cells = build_grid(&anchor);
    for day in 1..=31u8 {
        let date = ymd(2025, 3, day);
        let hits: Vec<_> = cells.iter().filter(|c| c.date == date).collect();
        assert_eq!(hits.len(), 1);
        assert!(hits[0].in_current_month);
    }
    assert_eq!(cells.iter().filter(|c| c.in_current_month).count(), 31);
}

#[test]
fn grid_across_december_flags_january_as_padding() {
    let cells = build_grid(&ymd(2023, 12, 1));
    // Dec 1 2023 is a Friday: five leading November days, six trailing
    // January days.
    assert_eq!(cells.len(), 42);
    assert_eq!(cells[0].date, ymd(2023, 11, 26));
    assert_eq!(cells[41].date, ymd(2024, 1, 6));
    assert!(!cells[41].in_current_month);
    assert!(!cells[0].in_current_month);
}
