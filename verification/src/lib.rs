//! Verified core of a month-view calendar: date navigation on the proleptic
//! Gregorian calendar, month-grid construction, per-day facts (day of year,
//! ISO 8601 week number, zodiac sign), and the application's event reducer.

pub mod date;
pub mod facts;
pub mod grid;
pub mod state;
