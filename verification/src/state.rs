//! The application's state and its event reducer: which month is shown,
//! which day (if any) is selected, and how one user event moves the state.

use vstd::prelude::*;

use chrono::Datelike;

use crate::date::{
    CalendarDate, MAX_YEAR, is_month_anchor, next_month_anchor, next_month_anchor_of,
    previous_month_anchor, previous_month_anchor_of, valid_date,
};

verus! {

/// One user interaction, as the view hands it to the reducer.
#[derive(Clone, Copy, PartialEq, Eq, Structural, Debug)]
pub enum CalendarEvent {
    PreviousMonth,
    NextMonth,
    DateSelected(CalendarDate),
    BackToCalendar,
}

/// The whole application state: the displayed month (a day-1 anchor) and the
/// selected day, if any. A present selection means the detail view is shown;
/// an absent one, the grid view.
#[derive(Clone, Copy, PartialEq, Eq, Structural, Debug)]
pub struct AppState {
    pub current_month_anchor: CalendarDate,
    pub selected_date: Option<CalendarDate>,
}

/// Well-formed state: the anchor is a day-1 date of a month whose grid can
/// be built (both neighboring months are inside the supported year range),
/// and a selected date, if present, is valid.
pub open spec fn state_wf(s: AppState) -> bool {
    &&& is_month_anchor(s.current_month_anchor)
    &&& 1 <= s.current_month_anchor.year < MAX_YEAR
    &&& match s.selected_date {
        Some(d) => valid_date(d),
        None => true,
    }
}

/// What one event does to a state: the month anchor steps backward or
/// forward by one month, a selection is recorded, or the selection is
/// cleared. Nothing else changes.
pub open spec fn apply_event_of(s: AppState, e: CalendarEvent) -> AppState {
    match e {
        CalendarEvent::PreviousMonth => AppState {
            current_month_anchor: previous_month_anchor_of(s.current_month_anchor),
            selected_date: s.selected_date,
        },
        CalendarEvent::NextMonth => AppState {
            current_month_anchor: next_month_anchor_of(s.current_month_anchor),
            selected_date: s.selected_date,
        },
        CalendarEvent::DateSelected(d) => AppState {
            current_month_anchor: s.current_month_anchor,
            selected_date: Some(d),
        },
        CalendarEvent::BackToCalendar => AppState {
            current_month_anchor: s.current_month_anchor,
            selected_date: None,
        },
    }
}

/// Whether an event keeps the anchor inside the supported range. Month
/// stepping at the very edge of the modeled years has no month to land in;
/// every other transition is total.
pub open spec fn event_in_range(s: AppState, e: CalendarEvent) -> bool {
    match e {
        CalendarEvent::PreviousMonth => !(s.current_month_anchor.year == 1
            && s.current_month_anchor.month == 1),
        CalendarEvent::NextMonth => !(s.current_month_anchor.year == MAX_YEAR - 1
            && s.current_month_anchor.month == 12),
        CalendarEvent::DateSelected(d) => valid_date(d),
        CalendarEvent::BackToCalendar => true,
    }
}

/// Applies one event to the state.
pub fn apply_event(s: &mut AppState, e: &CalendarEvent)
    requires
        state_wf(*old(s)),
        event_in_range(*old(s), *e),
    ensures
        *final(s) == apply_event_of(*old(s), *e),
        state_wf(*final(s)),
{
    match e {
        CalendarEvent::PreviousMonth => {
            s.current_month_anchor = previous_month_anchor(&s.current_month_anchor);
        },
        CalendarEvent::NextMonth => {
            s.current_month_anchor = next_month_anchor(&s.current_month_anchor);
        },
        CalendarEvent::DateSelected(d) => {
            s.selected_date = Some(*d);
        },
        CalendarEvent::BackToCalendar => {
            s.selected_date = None;
        },
    }
}

/// Stepping a month forward and then backward, or backward and then forward,
/// returns the anchor to its original value and leaves the selection alone.
pub proof fn lemma_month_step_round_trip(s: AppState)
    requires
        state_wf(s),
    ensures
        apply_event_of(apply_event_of(s, CalendarEvent::NextMonth), CalendarEvent::PreviousMonth)
            == s,
        apply_event_of(apply_event_of(s, CalendarEvent::PreviousMonth), CalendarEvent::NextMonth)
            == s,
{
    crate::date::lemma_month_anchor_round_trip(s.current_month_anchor);
}

/// Selecting a date and going back to the calendar leaves the state as it
/// was, with the grid view shown and the anchor unchanged.
pub proof fn lemma_select_then_back(s: AppState, d: CalendarDate)
    requires
        state_wf(s),
        s.selected_date is None,
    ensures
        apply_event_of(apply_event_of(s, CalendarEvent::DateSelected(d)), CalendarEvent::BackToCalendar)
            == s,
{
}

/// The state shown at startup for a clock reading: the first of the current
/// month, nothing selected. A reading outside the modeled years (the clock
/// alone decides that) falls back to January 2000.
pub open spec fn startup_state_of(year: int, month: int) -> AppState {
    if 1 <= year < MAX_YEAR && 1 <= month <= 12 {
        AppState {
            current_month_anchor: CalendarDate { year: year as u16, month: month as u8, day: 1 },
            selected_date: None,
        }
    } else {
        AppState {
            current_month_anchor: CalendarDate { year: 2000, month: 1, day: 1 },
            selected_date: None,
        }
    }
}

/// Builds the startup state from a clock reading, whatever it was.
pub fn startup_state(year: i32, month: u32) -> (s: AppState)
    ensures
        s == startup_state_of(year as int, month as int),
        state_wf(s),
        s.selected_date is None,
{
    if 1 <= year && year < MAX_YEAR as i32 && 1 <= month && month <= 12 {
        AppState {
            current_month_anchor: CalendarDate {
                year: year as u16,
                month: month as u8,
                day: 1,
            },
            selected_date: None,
        }
    } else {
        AppState {
            current_month_anchor: CalendarDate { year: 2000, month: 1, day: 1 },
            selected_date: None,
        }
    }
}

/// Relies on chrono's `Local::now` and `NaiveDate`'s `Datelike` accessors:
/// `month()` ranges over 1 to 12. Nothing more is assumed of the clock.
#[verifier::external_body]
fn current_local_year_month() -> (r: (i32, u32))
    ensures
        1 <= r.1 <= 12,
{
    let today = chrono::Local::now().date_naive();
    (today.year(), today.month())
}

/// The state the application starts in: the grid view of the current local
/// month. The clock reading is handed whole to `startup_state`, which is
/// verified for every value of it.
pub fn initial_state() -> (s: AppState)
    ensures
        state_wf(s),
        s.selected_date is None,
        s.current_month_anchor.day == 1,
{
    let (year, month): (i32, u32) = current_local_year_month();
    startup_state(year, month)
}

} // verus!
