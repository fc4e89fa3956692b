//! Calendar arithmetic for the month grid: month names, days per month and
//! the layout of the day cells, with weekdays from `chrono`.

use vstd::prelude::*;
use chrono::{Datelike, NaiveDate};

verus! {

/// First year that `chrono::NaiveDate` represents.
pub const MIN_YEAR: i32 = -262143;

/// Last year that `chrono::NaiveDate` represents.
pub const MAX_YEAR: i32 = 262142;

/// Day of the week.
#[derive(Debug, Clone, Copy, PartialEq, Eq)]
pub enum Weekday {
    Mon,
    Tue,
    Wed,
    Thu,
    Fri,
    Sat,
    Sun,
}

/// Days since Monday.
pub open spec fn weekday_index(w: Weekday) -> nat {
    match w {
        Weekday::Mon => 0,
        Weekday::Tue => 1,
        Weekday::Wed => 2,
        Weekday::Thu => 3,
        Weekday::Fri => 4,
        Weekday::Sat => 5,
        Weekday::Sun => 6,
    }
}

/// Gregorian leap year rule (proleptic, astronomical year numbering).
pub open spec fn is_leap_year(y: int) -> bool {
    (y % 4 == 0 && y % 100 != 0) || y % 400 == 0
}

/// Number of days of month `m` (1–12) of year `y`.
pub open spec fn month_len(y: int, m: int) -> int {
    if m == 2 {
        if is_leap_year(y) {
            29
        } else {
            28
        }
    } else if m == 4 || m == 6 || m == 9 || m == 11 {
        30
    } else {
        31
    }
}

/// Whether `y-m-d` is a calendar date in the range of `chrono::NaiveDate`.
pub open spec fn valid_date(y: int, m: int, d: int) -> bool {
    &&& MIN_YEAR <= y <= MAX_YEAR
    &&& 1 <= m <= 12
    &&& 1 <= d <= month_len(y, m)
}

/// The calendar date before `y-m-d`.
pub open spec fn prev_date(y: int, m: int, d: int) -> (int, int, int) {
    if d > 1 {
        (y, m, d - 1)
    } else if m > 1 {
        (y, m - 1, month_len(y, m - 1))
    } else {
        (y - 1, 12, 31)
    }
}

/// Day of the week of `y-m-d`, counted from Monday = 0 (Sakamoto's formula
/// on the proleptic Gregorian calendar).
pub open spec fn day_of_week(y: int, m: int, d: int) -> int {
    let t: Seq<int> = seq![0, 3, 2, 5, 0, 3, 5, 1, 4, 6, 2, 4];
    let yy = if m < 3 {
        y - 1
    } else {
        y
    };
    let sunday_based = (yy + yy / 4 - yy / 100 + yy / 400 + t[m - 1] + d) % 7;
    (sunday_based + 6) % 7
}

/// Calls `NaiveDate::from_ymd_opt`. Trusted: chrono gives a date exactly for
/// the days of the proleptic Gregorian calendar within its year range.
#[verifier::external_body]
fn date_exists(year: i32, month: u32, day: u32) -> (r: bool)
    ensures
        r == valid_date(year as int, month as int, day as int),
{
    NaiveDate::from_ymd_opt(year, month, day).is_some()
}

/// Calls `NaiveDate::from_ymd_opt` and `NaiveDate::pred_opt` and reads the
/// year, month and day of the result. Trusted: `pred_opt` gives the calendar
/// date before, as [`prev_date`] states it, for every date but the first one.
#[verifier::external_body]
fn day_before(year: i32, month: u32, day: u32) -> (r: (i32, u32, u32))
    requires
        valid_date(year as int, month as int, day as int),
        !(year == MIN_YEAR && month == 1 && day == 1),
    ensures
        (r.0 as int, r.1 as int, r.2 as int) == prev_date(year as int, month as int, day as int),
{
    let p = NaiveDate::from_ymd_opt(year, month, day).unwrap().pred_opt().unwrap();
    (p.year(), p.month(), p.day())
}

/// Calls `Datelike::weekday` on the date `year-month-day`. Trusted: chrono's
/// weekday is that of the proleptic Gregorian calendar, which
/// [`day_of_week`] computes.
#[verifier::external_body]
fn weekday_of(year: i32, month: u32, day: u32) -> (r: Weekday)
    requires
        valid_date(year as int, month as int, day as int),
    ensures
        weekday_index(r) == day_of_week(year as int, month as int, day as int),
{
    match NaiveDate::from_ymd_opt(year, month, day).unwrap().weekday() {
        chrono::Weekday::Mon => Weekday::Mon,
        chrono::Weekday::Tue => Weekday::Tue,
        chrono::Weekday::Wed => Weekday::Wed,
        chrono::Weekday::Thu => Weekday::Thu,
        chrono::Weekday::Fri => Weekday::Fri,
        chrono::Weekday::Sat => Weekday::Sat,
        chrono::Weekday::Sun => Weekday::Sun,
    }
}

/// Column of a weekday in a Monday-first week.
pub fn weekday_to_idx(w: Weekday) -> (r: usize)
    ensures
        r == weekday_index(w),
{
    match w {
        Weekday::Mon => 0,
        Weekday::Tue => 1,
        Weekday::Wed => 2,
        Weekday::Thu => 3,
        Weekday::Fri => 4,
        Weekday::Sat => 5,
        Weekday::Sun => 6,
    }
}

/// English name of month `m` (1–12), `?` for any other number.
pub open spec fn month_name_of(m: int) -> Seq<char> {
    if m == 1 {
        "January"@
    } else if m == 2 {
        "February"@
    } else if m == 3 {
        "March"@
    } else if m == 4 {
        "April"@
    } else if m == 5 {
        "May"@
    } else if m == 6 {
        "June"@
    } else if m == 7 {
        "July"@
    } else if m == 8 {
        "August"@
    } else if m == 9 {
        "September"@
    } else if m == 10 {
        "October"@
    } else if m == 11 {
        "November"@
    } else if m == 12 {
        "December"@
    } else {
        "?"@
    }
}

pub fn month_name(m: u32) -> (r: &'static str)
    ensures
        r@ == month_name_of(m as int),
{
    match m {
        1 => "January",
        2 => "February",
        3 => "March",
        4 => "April",
        5 => "May",
        6 => "June",
        7 => "July",
        8 => "August",
        9 => "September",
        10 => "October",
        11 => "November",
        12 => "December",
        _ => "?",
    }
}

/// The inputs on which the month arithmetic stays within chrono's dates:
/// months 0–12, with the first day of the following month representable and
/// not the first representable date.
pub open spec fn month_in_range(year: int, month: int) -> bool {
    &&& 0 <= month <= 12
    &&& if month == 12 {
        MIN_YEAR < year + 1 <= MAX_YEAR
    } else if month == 0 {
        MIN_YEAR < year <= MAX_YEAR
    } else {
        MIN_YEAR <= year <= MAX_YEAR
    }
}

/// The last day of the month before the first day of the following month:
/// the length of `month` for months 1–12, and 31 (December of the year
/// before) for month 0.
pub open spec fn last_day_of(year: int, month: int) -> int {
    if 1 <= month <= 12 {
        month_len(year, month)
    } else {
        31
    }
}

/// Number of the last day of `month` in `year`, found as the day before the
/// first of the following month.
pub fn last_day_of_month(year: i32, month: u32) -> (r: u32)
    requires
        month_in_range(year as int, month as int),
    ensures
        r == last_day_of(year as int, month as int),
{
    let (ny, nm) = if month == 12 {
        (year + 1, 1)
    } else {
        (year, month + 1)
    };
    let (_, _, d) = day_before(ny, nm, 1);
    d
}

/// Weekday column of the first cell: that of the first of the month, or
/// that of the first representable date when the first of the month is not
/// a date (month 0).
pub open spec fn first_column(year: int, month: int) -> int {
    if valid_date(year, month, 1) {
        day_of_week(year, month, 1)
    } else {
        day_of_week(MIN_YEAR as int, 1, 1)
    }
}

/// The day shown in cell `cell` of a grid that starts `leading` cells in and
/// shows `days` days.
pub open spec fn cell_day(leading: int, days: int, cell: int) -> Option<int> {
    if leading <= cell && cell - leading < days {
        Some(cell - leading + 1)
    } else {
        None
    }
}

/// Layout of the month grid: empty cells before the first day, the number of
/// days, and the number of cells, whole weeks of seven.
#[derive(Debug, Clone, Copy, PartialEq, Eq)]
pub struct MonthGrid {
    pub leading: usize,
    pub days: u32,
    pub total_cells: usize,
}

/// The grid of `month` in `year`, weeks starting on Monday.
pub fn month_grid(year: i32, month: u32) -> (r: MonthGrid)
    requires
        month_in_range(year as int, month as int),
    ensures
        r.leading == first_column(year as int, month as int),
        r.days == last_day_of(year as int, month as int),
        r.total_cells == (r.leading + r.days + 6) / 7 * 7,
{
    let first = if date_exists(year, month, 1) {
        weekday_of(year, month, 1)
    } else {
        weekday_of(MIN_YEAR, 1, 1)
    };
    let leading = weekday_to_idx(first);
    let days = last_day_of_month(year, month);
    let cells = leading + days as usize;
    let total_cells = (cells + 6) / 7 * 7;
    MonthGrid { leading, days, total_cells }
}

impl MonthGrid {
    /// The day number shown in cell `cell`, if the cell holds a day.
    pub fn day_at(&self, cell: usize) -> (r: Option<u32>)
        ensures
            match cell_day(self.leading as int, self.days as int, cell as int) {
                None => r is None,
                Some(d) => r == Some(d as u32),
            },
    {
        if self.leading <= cell && cell - self.leading < self.days as usize {
            Some((cell - self.leading) as u32 + 1)
        } else {
            None
        }
    }
}

/// The grid is whole weeks, with room for every day and at most one week of
/// padding, and never more than six weeks; each day of the month appears in
/// exactly one cell, in order.
pub proof fn law_month_grid(year: int, month: int)
    requires
        month_in_range(year, month),
    ensures
        ({
            let leading = first_column(year, month);
            let days = last_day_of(year, month);
            let total = (leading + days + 6) / 7 * 7;
            &&& total % 7 == 0
            &&& leading + days <= total < leading + days + 7
            &&& total <= 42
            &&& forall|d: int| 1 <= d <= days ==> cell_day(leading, days, leading + d - 1) == Some(d)
            &&& forall|c1: int, c2: int|
                cell_day(leading, days, c1) is Some && cell_day(leading, days, c1) == cell_day(
                    leading,
                    days,
                    c2,
                ) ==> c1 == c2
        }),
{
    let leading = first_column(year, month);
    let days = last_day_of(year, month);
    assert(0 <= leading < 7);
    assert(28 <= days <= 31);
    let total = (leading + days + 6) / 7 * 7;
    assert(total % 7 == 0) by (nonlinear_arith)
        requires
            total == (leading + days + 6) / 7 * 7,
            leading + days >= 0,
    ;
    assert(leading + days <= total < leading + days + 7) by (nonlinear_arith)
        requires
            total == (leading + days + 6) / 7 * 7,
            leading + days >= 0,
    ;
}

/// In a month of a representable year, each day sits in the column of its
/// weekday.
pub proof fn law_day_column(year: int, month: int, day: int)
    requires
        month_in_range(year, month),
        1 <= month <= 12,
        1 <= day <= month_len(year, month),
    ensures
        (first_column(year, month) + day - 1) % 7 == day_of_week(year, month, day),
{
    let t: Seq<int> = seq![0, 3, 2, 5, 0, 3, 5, 1, 4, 6, 2, 4];
    let yy = if month < 3 {
        year - 1
    } else {
        year
    };
    let c = yy + yy / 4 - yy / 100 + yy / 400 + t[month - 1];
    assert(valid_date(year, month, 1));
    assert(first_column(year, month) == ((c + 1) % 7 + 6) % 7);
    assert(day_of_week(year, month, day) == ((c + day) % 7 + 6) % 7);
    assert((((c + 1) % 7 + 6) % 7 + day - 1) % 7 == ((c + day) % 7 + 6) % 7) by (nonlinear_arith)
        requires
            1 <= day,
    ;
}

} // verus!
