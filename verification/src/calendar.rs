//! Weekdays, the first week of a month in the month view, and today's date.

use crate::event::DayTime;
use crate::month::{get_month_by_index, month_of_number};
use chrono::Datelike;
use vstd::prelude::*;

verus! {

/// The earliest year `chrono::NaiveDate` holds.
pub const CHRONO_MIN_YEAR: i32 = -262143i32;

/// The latest year `chrono::NaiveDate` holds.
pub const CHRONO_MAX_YEAR: i32 = 262142i32;

/// The number of days from 0000-03-01 to `y-m-d` in the proleptic Gregorian
/// calendar (negative before it).
pub open spec fn civil_day_number(y: int, m: int, d: int) -> int {
    let yp = if m <= 2 {
        y - 1
    } else {
        y
    };
    let mp = if m > 2 {
        m - 3
    } else {
        m + 9
    };
    365 * yp + yp / 4 - yp / 100 + yp / 400 + (153 * mp + 2) / 5 + d - 1
}

/// The weekday of `y-m-d` in the proleptic Gregorian calendar, counted in days
/// from Monday (Monday = 0, Sunday = 6).
pub open spec fn weekday_from_monday(y: int, m: int, d: int) -> int {
    (civil_day_number(y, m, d) + 2) % 7
}

/// Calls `chrono::NaiveDate::from_ymd_opt(year, month, 1)` and turns the date it
/// gives into its weekday's distance from Monday (`Datelike::weekday`, then
/// `Weekday::num_days_from_monday`). chrono's dates are proleptic Gregorian; the
/// first of a month exists exactly when the month is in 1..=12 and the year in
/// chrono's range.
#[verifier::external_body]
fn first_day_weekday(year: i32, month: u32) -> (w: Option<u32>)
    ensures
        w is Some <==> (1 <= month <= 12 && CHRONO_MIN_YEAR <= year <= CHRONO_MAX_YEAR),
        w matches Some(v) ==> v == weekday_from_monday(year as int, month as int, 1),
{
    match chrono::NaiveDate::from_ymd_opt(year, month, 1) {
        Some(date) => Some(date.weekday().num_days_from_monday()),
        None => None,
    }
}

/// How many days of the first calendar week (Monday to Sunday) belong to the
/// month `month` (January = 1) of `year`.
pub fn days_in_first_week(year: u64, month: u64) -> (n: u64)
    requires
        1 <= month as u32 <= 12,
        CHRONO_MIN_YEAR <= year as i32 <= CHRONO_MAX_YEAR,
    ensures
        n == 7 - weekday_from_monday(year as i32 as int, month as u32 as int, 1),
        1 <= n <= 7,
{
    let weekday = first_day_weekday(year as i32, month as u32).unwrap();
    7 - weekday as u64
}

/// How many empty cells precede day 1 of the month at position `month`
/// (January = 0) of `year` in a grid whose weeks start on Monday.
pub fn month_start_offset(year: u64, month: u64) -> (n: u64)
    requires
        month as u32 <= 11,
        CHRONO_MIN_YEAR <= year as i32 <= CHRONO_MAX_YEAR,
    ensures
        n == weekday_from_monday(year as i32 as int, month as u32 + 1, 1),
        n <= 6,
{
    first_day_weekday(year as i32, month as u32 + 1).unwrap() as u64
}

/// A day of the week.
#[derive(Debug, Clone, Copy, PartialEq, Eq, Structural)]
pub enum Days {
    Monday,
    Tuesday,
    Wensday,
    Thursday,
    Friday,
    Saturday,
    Sunday,
}

/// The weekday at distance `n` from Monday.
pub open spec fn day_at(n: int) -> Days {
    if n == 0 {
        Days::Monday
    } else if n == 1 {
        Days::Tuesday
    } else if n == 2 {
        Days::Wensday
    } else if n == 3 {
        Days::Thursday
    } else if n == 4 {
        Days::Friday
    } else if n == 5 {
        Days::Saturday
    } else {
        Days::Sunday
    }
}

/// The weekday the recurrence rules give day number `day`: day numbers are
/// taken modulo seven, with 0 as Monday.
pub fn convert_day_num_to_day(day: &u64) -> (d: Days)
    ensures
        d == day_at(*day as int % 7),
{
    let final_day = day % 7;
    match final_day {
        0 => Days::Monday,
        1 => Days::Tuesday,
        2 => Days::Wensday,
        3 => Days::Thursday,
        4 => Days::Friday,
        5 => Days::Saturday,
        6 => Days::Sunday,
        _ => Days::Monday,
    }
}

/// Calls `chrono::offset::Local::now()` and reads its year, month and day
/// (`Datelike::year`, `month`, `day`). Which date that is depends on the clock
/// and the local time zone; chrono promises a month in 1..=12 and a day in
/// 1..=31.
#[verifier::external_body]
fn local_date() -> (d: (i32, u32, u32))
    ensures
        1 <= d.1 <= 12,
        1 <= d.2 <= 31,
{
    let now = chrono::offset::Local::now();
    (now.year(), now.month(), now.day())
}

/// The calendar day of a date read as year, month number (January = 1) and
/// day of the month.
pub fn day_time_of(year: i32, month: u32, day: u32) -> (d: DayTime)
    requires
        1 <= month <= 12,
    ensures
        d == (DayTime { year: year as u64, month: month_of_number(month as int), day: day as u64 }),
{
    DayTime { year: year as u64, month: get_month_by_index(month as usize), day: day as u64 }
}

/// Today's date in the local time zone.
pub(crate) fn today() -> (d: DayTime)
    ensures
        1 <= d.day <= 31,
{
    let (year, month, day) = local_date();
    day_time_of(year, month, day)
}

/// Equal day numbers modulo seven give the same weekday, so every seventh day
/// number repeats a weekday.
pub proof fn law_weekday_repeats_every_seven_days(day: u64)
    requires
        day + 7 <= u64::MAX,
    ensures
        day_at(day as int % 7) == day_at((day + 7) as int % 7),
{
}

/// The days of a month's first week and the empty cells before it fill exactly
/// one week of the month view.
pub proof fn law_first_week_fills_a_week(year: i32, month: int)
    requires
        1 <= month <= 12,
    ensures
        0 <= weekday_from_monday(year as int, month, 1) <= 6,
        (7 - weekday_from_monday(year as int, month, 1)) + weekday_from_monday(year as int, month, 1) == 7,
{
}

} // verus!
