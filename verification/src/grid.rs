//! The month grid: the ordered run of day cells a month view renders,
//! Sunday-first, padded with days of the adjacent months to whole weeks.

use vstd::prelude::*;

use crate::date::{
    CalendarDate, MAX_YEAR, date_plus_days, day_index, days_in_month, days_in_month_of,
    first_of_month, first_of_month_of, is_month_anchor, lemma_date_plus_days,
    lemma_day_index_in_year, lemma_day_index_injective, lemma_days_before_month_monotone,
    lemma_days_before_year_step, lemma_months_fill_year, next_date, previous_month_anchor,
    previous_month_anchor_of, valid_date, weekday_from_sunday, weekday_from_sunday_of,
};

verus! {

/// One renderable day square of the month view.
#[derive(Clone, Copy, PartialEq, Eq, Structural, Debug)]
pub struct GridCell {
    pub date: CalendarDate,
    pub in_current_month: bool,
}

/// Sunday-first weekday of the first day of the anchor's month: how many
/// leading cells of the prior month the grid shows.
pub open spec fn grid_offset_of(a: CalendarDate) -> int {
    weekday_from_sunday_of(first_of_month_of(a))
}

/// The top-left date of the grid: the Sunday on or before the first of the
/// anchor's month.
pub open spec fn grid_start_of(a: CalendarDate) -> CalendarDate {
    if grid_offset_of(a) == 0 {
        first_of_month_of(a)
    } else {
        let p = previous_month_anchor_of(a);
        CalendarDate {
            year: p.year,
            month: p.month,
            day: (days_in_month_of(p.year as int, p.month as int) - grid_offset_of(a)
                + 1) as u8,
        }
    }
}

/// Number of grid cells: the month's days plus the leading padding, rounded
/// up to whole weeks.
pub open spec fn grid_len_of(a: CalendarDate) -> int {
    (grid_offset_of(a) + days_in_month_of(a.year as int, a.month as int) + 6) / 7 * 7
}

/// The cell at position `i` of the grid: `i` days past the grid start,
/// flagged by whether it lies in the anchor's month.
pub open spec fn grid_cell_of(a: CalendarDate, i: int) -> GridCell {
    let d = date_plus_days(grid_start_of(a), i as nat);
    GridCell { date: d, in_current_month: d.month == a.month }
}

/// The whole grid of the anchor's month.
pub open spec fn grid_of(a: CalendarDate) -> Seq<GridCell> {
    Seq::new(grid_len_of(a) as nat, |i: int| grid_cell_of(a, i))
}

/// The grid start is a valid date exactly `grid_offset_of(a)` days before the
/// first of the month.
pub proof fn lemma_grid_start(a: CalendarDate)
    requires
        is_month_anchor(a),
        a.year >= 1,
    ensures
        valid_date(grid_start_of(a)),
        day_index(grid_start_of(a)) == day_index(first_of_month_of(a)) - grid_offset_of(a),
        0 <= grid_offset_of(a) < 7,
{
    let w = grid_offset_of(a);
    if w != 0 {
        let p = previous_month_anchor_of(a);
        if a.month == 1 {
            lemma_months_fill_year(p.year as int);
            lemma_days_before_year_step(p.year as int);
        }
    }
}

/// The grid is 4, 5 or 6 whole weeks long, and long enough to hold the
/// leading padding and the whole month.
pub proof fn lemma_grid_len(a: CalendarDate)
    requires
        is_month_anchor(a),
    ensures
        grid_len_of(a) % 7 == 0,
        28 <= grid_len_of(a) <= 42,
        grid_offset_of(a) + days_in_month_of(a.year as int, a.month as int) <= grid_len_of(a),
{
    let w = grid_offset_of(a);
    let dim = days_in_month_of(a.year as int, a.month as int);
    assert(0 <= w < 7);
    assert(28 <= dim <= 31);
    let q = (w + dim + 6) / 7;
    assert(4 <= q <= 6);
    assert(q * 7 == grid_len_of(a));
    assert((q * 7) % 7 == 0) by (nonlinear_arith);
    assert(7 * q >= w + dim);
}

/// Every grid position denotes a valid date, `i` days past the grid start.
pub proof fn lemma_grid_cell_date(a: CalendarDate, i: int)
    requires
        is_month_anchor(a),
        1 <= a.year < MAX_YEAR,
        0 <= i < grid_len_of(a),
    ensures
        valid_date(grid_cell_of(a, i).date),
        day_index(grid_cell_of(a, i).date) == day_index(grid_start_of(a)) + i,
{
    let top = CalendarDate { year: MAX_YEAR, month: 12, day: 31 };
    lemma_grid_start(a);
    lemma_grid_len(a);
    lemma_day_index_in_year(first_of_month_of(a));
    lemma_days_before_year_step(a.year as int);
    lemma_day_index_in_year(top);
    lemma_days_before_month_monotone(MAX_YEAR as int, 1int, 12int);
    crate::date::lemma_days_before_year_monotone(a.year as int + 1, MAX_YEAR as int);
    lemma_date_plus_days(grid_start_of(a), i as nat);
}

/// Builds the month grid for a day-1 anchor: whole weeks, Sunday-first,
/// starting at the Sunday on or before the first of the month and ending at
/// the Saturday on or after its last day, each cell flagged by whether it
/// belongs to the anchor's month.
pub fn build_grid(a: &CalendarDate) -> (cells: Vec<GridCell>)
    requires
        is_month_anchor(*a),
        1 <= a.year < MAX_YEAR,
    ensures
        cells@ == grid_of(*a),
        cells@.len() % 7 == 0,
        28 <= cells@.len() <= 42,
{
    proof {
        lemma_grid_start(*a);
        lemma_grid_len(*a);
    }
    let first = first_of_month(a);
    let offset: u8 = weekday_from_sunday(&first);
    let dim: u8 = days_in_month(a.year, a.month);
    let total: usize = (offset as usize + dim as usize + 6) / 7 * 7;
    assert(total == grid_len_of(*a));
    let start: CalendarDate = if offset == 0 {
        first
    } else {
        let p = previous_month_anchor(a);
        let pdim: u8 = days_in_month(p.year, p.month);
        CalendarDate { year: p.year, month: p.month, day: pdim - offset + 1 }
    };
    assert(start == grid_start_of(*a));
    let mut cells: Vec<GridCell> = Vec::new();
    let mut cur: CalendarDate = start;
    let mut i: usize = 0;
    while i < total
        invariant
            is_month_anchor(*a),
            1 <= a.year < MAX_YEAR,
            total == grid_len_of(*a),
            i <= total,
            cells@.len() == i as int,
            forall|j: int| 0 <= j < i ==> cells@[j] == grid_cell_of(*a, j),
            cur == date_plus_days(grid_start_of(*a), i as nat),
        decreases total - i,
    {
        proof {
            lemma_grid_cell_date(*a, i as int);
            if i + 1 < total {
                lemma_grid_cell_date(*a, i as int + 1);
            } else {
                let top = CalendarDate { year: MAX_YEAR, month: 12, day: 31 };
                lemma_grid_start(*a);
                lemma_grid_len(*a);
                lemma_day_index_in_year(first_of_month_of(*a));
                crate::date::lemma_days_before_year_monotone(
                    a.year as int + 1,
                    MAX_YEAR as int,
                );
                lemma_day_index_in_year(top);
                lemma_days_before_month_monotone(MAX_YEAR as int, 1int, 12int);
                assert(day_index(cur) < day_index(top));
            }
        }
        cells.push(GridCell { date: cur, in_current_month: cur.month == a.month });
        cur = next_date(&cur);
        i = i + 1;
    }
    assert(cells@ =~= grid_of(*a));
    cells
}

/// The grid always shows whole weeks, and at least four of them: its length
/// is a multiple of 7 and at least 28.
pub proof fn lemma_grid_whole_weeks(a: CalendarDate)
    requires
        is_month_anchor(a),
    ensures
        grid_of(a).len() % 7 == 0,
        28 <= grid_of(a).len() <= 42,
{
    lemma_grid_len(a);
}

/// Every date of the anchor's month appears in the grid, exactly once, and
/// its cell is flagged as belonging to the current month.
pub proof fn lemma_grid_covers_month(a: CalendarDate, d: CalendarDate)
    requires
        is_month_anchor(a),
        1 <= a.year < MAX_YEAR,
        valid_date(d),
        d.year == a.year,
        d.month == a.month,
    ensures
        exists|i: int|
            0 <= i < grid_of(a).len() && (#[trigger] grid_of(a)[i]).date == d && grid_of(
                a,
            )[i].in_current_month,
        forall|i: int, j: int|
            0 <= i < grid_of(a).len() && 0 <= j < grid_of(a).len() && (#[trigger] grid_of(
                a,
            )[i]).date == d && (#[trigger] grid_of(a)[j]).date == d ==> i == j,
{
    lemma_grid_start(a);
    lemma_grid_len(a);
    let w = grid_offset_of(a);
    let i0 = w + d.day - 1;
    assert(0 <= i0 < grid_of(a).len());
    lemma_grid_cell_date(a, i0);
    assert(day_index(grid_cell_of(a, i0).date) == day_index(d));
    lemma_day_index_injective(grid_cell_of(a, i0).date, d);
    assert((grid_of(a)[i0]).date == d && grid_of(a)[i0].in_current_month);
    assert forall|i: int, j: int|
        0 <= i < grid_of(a).len() && 0 <= j < grid_of(a).len() && (#[trigger] grid_of(
            a,
        )[i]).date == d && (#[trigger] grid_of(a)[j]).date == d implies i == j by {
        lemma_grid_cell_date(a, i);
        lemma_grid_cell_date(a, j);
    }
}

} // verus!
