use calendar_core::date::CalendarDate;
use calendar_core::state::{AppState, CalendarEvent, apply_event, initial_state, startup_state};

fn ymd(year: u16, month: u8, day: u8) -> CalendarDate {
    CalendarDate { year, month, day }
}

fn grid_view(anchor: CalendarDate) -> AppState {
    AppState { current_month_anchor: anchor, selected_date: None }
}

#[test]
fn next_month_keeps_selection() {
    let mut state = AppState {
        current_month_anchor: ymd(2024, 12, 1),
        selected_date: Some(ymd(2024, 12, 25)),
    };
    apply_event(&mut state, &CalendarEvent::NextMonth);
    assert_eq!(state.current_month_anchor, ymd(2025, 1, 1));
    assert_eq!(state.selected_date, Some(ymd(2024, 12, 25)));
}

#[test]
fn previous_month_keeps_selection() {
    let mut state = grid_view(ymd(2024, 1, 1));
    apply_event(&mut state, &CalendarEvent::PreviousMonth);
    assert_eq!(state.current_month_anchor, ymd(2023, 12, 1));
    assert_eq!(state.selected_date, None);
}

#[test]
fn next_then_previous_restores_anchor() {
    for &(y, m) in &[(2024u16, 1u8), (2023, 12), (2000, 2), (1970, 6)] {
        let mut state = grid_view(ymd(y, m, 1));
        apply_event(&mut state, &CalendarEvent::NextMonth);
        apply_event(&mut state, &CalendarEvent::PreviousMonth);
        assert_eq!(state, grid_view(ymd(y, m, 1)));
        apply_event(&mut state, &CalendarEvent::PreviousMonth);
        apply_event(&mut state, &CalendarEvent::NextMonth);
        assert_eq!(state, grid_view(ymd(y, m, 1)));
    }
}

#[test]
fn select_then_back_restores_grid_view() {
    let mut state = grid_view(ymd(2024, 2, 1));
    apply_event(&mut state, &CalendarEvent::DateSelected(ymd(2024, 2, 29)));
    assert_eq!(state.selected_date, Some(ymd(2024, 2, 29)));
    assert_eq!(state.current_month_anchor, ymd(2024, 2, 1));
    apply_event(&mut state, &CalendarEvent::BackToCalendar);
    assert_eq!(state, grid_view(ymd(2024, 2, 1)));
}

#[test]
fn selection_may_lie_outside_displayed_month() {
    let mut state = grid_view(ymd(2024, 2, 1));
    apply_event(&mut state, &CalendarEvent::DateSelected(ymd(2024, 3, 2)));
    apply_event(&mut state, &CalendarEvent::NextMonth);
    assert_eq!(state.current_month_anchor, ymd(2024, 3, 1));
    assert_eq!(state.selected_date, Some(ymd(2024, 3, 2)));
}

#[test]
fn startup_state_uses_clock_reading() {
    let state = startup_state(2024, 5);
    assert_eq!(state.current_month_anchor, ymd(2024, 5, 1));
    assert_eq!(state.selected_date, None);
}

#[test]
fn startup_state_falls_back_on_out_of_range_reading() {
    assert_eq!(startup_state(0, 5).current_month_anchor, ymd(2000, 1, 1));
    assert_eq!(startup_state(-44, 3).current_month_anchor, ymd(2000, 1, 1));
    assert_eq!(startup_state(123456, 3).current_month_anchor, ymd(2000, 1, 1));
}

#[test]
fn initial_state_shows_current_month_grid() {
    let state = initial_state();
    assert_eq!(state.current_month_anchor.day, 1);
    assert!(state.current_month_anchor.year >= 1);
    assert!((1..=12).contains(&state.current_month_anchor.month));
    assert_eq!(state.selected_date, None);
}
