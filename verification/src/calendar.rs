//! Proleptic Gregorian calendar arithmetic on plain integers: leap years,
//! day numbers relative to the Unix epoch, and the inverse decomposition of
//! a day number into year, month, day and weekday, used by the date
//! normalizer and the feed's date rendering.

use vstd::prelude::*;

verus! {

/// A calendar date held as plain values.
#[derive(Clone, Copy, PartialEq, Eq, Structural, Debug)]
pub struct Date {
    pub year: i64,
    pub month: u8,
    pub day: u8,
}

pub open spec fn is_leap_year(y: int) -> bool {
    (y % 4 == 0 && y % 100 != 0) || y % 400 == 0
}

pub open spec fn days_in_month(y: int, m: int) -> int {
    if m == 2 {
        if is_leap_year(y) {
            29
        } else {
            28
        }
    } else if m == 4 || m == 6 || m == 9 || m == 11 {
        30
    } else {
        31
    }
}

pub open spec fn is_valid_date(y: int, m: int, d: int) -> bool {
    1 <= m <= 12 && 1 <= d <= days_in_month(y, m)
}

pub open spec fn date_valid(d: Date) -> bool {
    is_valid_date(d.year as int, d.month as int, d.day as int)
}

/// Number of leap years k with 0 <= k < y, for y >= 0 (year 0 is a leap year).
pub open spec fn leaps_before(y: int) -> int {
    (y + 3) / 4 - (y + 99) / 100 + (y + 399) / 400
}

/// Days from 0000-01-01 to y-01-01, for y >= 0.
pub open spec fn days_before_year(y: int) -> int {
    365 * y + leaps_before(y)
}

/// Days from y-01-01 to y-m-01.
pub open spec fn days_before_month(y: int, m: int) -> int {
    let leap_add: int = if m > 2 && is_leap_year(y) {
        1
    } else {
        0
    };
    (if m <= 1 { 0int }
    else if m == 2 { 31 }
    else if m == 3 { 59 }
    else if m == 4 { 90 }
    else if m == 5 { 120 }
    else if m == 6 { 151 }
    else if m == 7 { 181 }
    else if m == 8 { 212 }
    else if m == 9 { 243 }
    else if m == 10 { 273 }
    else if m == 11 { 304 }
    else { 334 }) + leap_add
}

/// Day number of y-m-d relative to 1970-01-01 (which is day 0), for y >= 0.
pub open spec fn days_from_civil(y: int, m: int, d: int) -> int {
    days_before_year(y) + days_before_month(y, m) + (d - 1) - 719528
}

pub open spec fn year_length(y: int) -> int {
    if is_leap_year(y) {
        366
    } else {
        365
    }
}

/// Finds the year containing day `rem` counted from y-01-01 onwards.
/// Returns the year together with the remaining day-of-year.
pub open spec fn year_from_days(y: int, rem: int) -> (int, int)
    decreases rem,
{
    if rem < year_length(y) || rem < 0 {
        (y, rem)
    } else {
        year_from_days(y + 1, rem - year_length(y))
    }
}

/// Finds the month containing day `rem` counted from y-m-01 onwards.
/// Returns the month together with the remaining day-of-month.
pub open spec fn month_from_days(y: int, m: int, rem: int) -> (int, int)
    decreases 12 - m,
{
    if m >= 12 || rem < days_in_month(y, m) {
        (m, rem)
    } else {
        month_from_days(y, m + 1, rem - days_in_month(y, m))
    }
}

/// Decomposition of a day number (relative to 1970-01-01) into a calendar
/// date, by searching years from 0 upwards; defined for days at or after
/// 0000-01-01, that is `z >= -719528`.
pub open spec fn civil_from_days(z: int) -> (int, int, int) {
    let (y, rem) = year_from_days(0, z + 719528);
    let (m, rem2) = month_from_days(y, 1, rem);
    (y, m, rem2 + 1)
}

/// Day of the week of day number `z` (relative to 1970-01-01): 0 is Sunday,
/// 4 is Thursday (1970-01-01 was a Thursday).
pub open spec fn weekday_of_day(z: int) -> int {
    (z + 4) % 7
}

/// One year advances the day number by the year's length.
pub proof fn lemma_days_before_year_step(y: int)
    requires
        y >= 0,
    ensures
        days_before_year(y + 1) == days_before_year(y) + year_length(y),
{
    assert((y + 4) / 4 == (y + 3) / 4 + if y % 4 == 0 { 1int } else { 0 });
    assert((y + 100) / 100 == (y + 99) / 100 + if y % 100 == 0 { 1int } else { 0 });
    assert((y + 400) / 400 == (y + 399) / 400 + if y % 400 == 0 { 1int } else { 0 });
}

/// Computes the day number of a valid date relative to 1970-01-01.
pub fn days_from_civil_exec(y: i64, m: u8, d: u8) -> (r: i64)
    requires
        0 <= y <= 9999,
        is_valid_date(y as int, m as int, d as int),
    ensures
        r == days_from_civil(y as int, m as int, d as int),
        -719529 < r < 2932897,
{
    let leaps: i64 = (y + 3) / 4 - (y + 99) / 100 + (y + 399) / 400;
    let before_year: i64 = 365 * y + leaps;
    let is_leap: bool = (y % 4 == 0 && y % 100 != 0) || y % 400 == 0;
    let base: i64 = if m <= 1 { 0 }
    else if m == 2 { 31 }
    else if m == 3 { 59 }
    else if m == 4 { 90 }
    else if m == 5 { 120 }
    else if m == 6 { 151 }
    else if m == 7 { 181 }
    else if m == 8 { 212 }
    else if m == 9 { 243 }
    else if m == 10 { 273 }
    else if m == 11 { 304 }
    else { 334 };
    let before_month: i64 = if m > 2 && is_leap {
        base + 1
    } else {
        base
    };
    before_year + before_month + (d as i64 - 1) - 719528
}

/// Length of a year in days.
fn year_len_exec(y: i64) -> (r: i64)
    requires
        0 <= y,
    ensures
        r == year_length(y as int),
{
    if (y % 4 == 0 && y % 100 != 0) || y % 400 == 0 {
        366
    } else {
        365
    }
}

/// Decomposes a day number into (year, month, day), searching years from 0.
pub fn civil_from_days_exec(z: i64) -> (r: (i64, u8, u8))
    requires
        -719529 < z < 2932898,
    ensures
        (r.0 as int, r.1 as int, r.2 as int) == civil_from_days(z as int),
        0 <= r.0 <= 10000,
        1 <= r.1 <= 12,
        1 <= r.2 <= 31,
{
    let mut y: i64 = 0;
    let mut rem: i64 = z + 719528;
    while rem >= year_len_exec(y)
        invariant
            0 <= y,
            0 <= rem,
            year_from_days(0, z + 719528) == year_from_days(y as int, rem as int),
            days_before_year(y as int) + rem == z + 719528 < 3652426,
        decreases rem,
    {
        proof {
            lemma_days_before_year_step(y as int);
        }
        let yl: i64 = year_len_exec(y);
        rem = rem - yl;
        y = y + 1;
        proof {
            assert(days_before_year(y as int) >= 365 * y) by {
                assert(leaps_before(y as int) >= 0);
            }
        }
    }
    proof {
        assert(year_from_days(y as int, rem as int) == (y as int, rem as int));
        assert(days_before_year(10001) == 3652791);
        if y > 10000 {
            lemma_days_before_year_leq(10001, y as int);
        }
    }
    let leap: bool = (y % 4 == 0 && y % 100 != 0) || y % 400 == 0;
    let mut m: u8 = 1;
    while m < 12 && rem >= month_len_exec(leap, m) as i64
        invariant
            1 <= m <= 12,
            0 <= rem,
            leap == is_leap_year(y as int),
            month_from_days(y as int, 1, year_from_days(0, z + 719528).1)
                == month_from_days(y as int, m as int, rem as int),
            days_before_month(y as int, m as int) + rem == year_from_days(0, z + 719528).1,
            year_from_days(0, z + 719528).1 < year_length(y as int),
            rem < 366,
        decreases 12 - m,
    {
        rem = rem - month_len_exec(leap, m) as i64;
        m = m + 1;
    }
    proof {
        assert(month_from_days(y as int, m as int, rem as int) == (m as int, rem as int));
        if m == 12 {
            lemma_day_of_year_in_range(y as int, year_from_days(0, z + 719528).1);
        }
        if m < 12 {
            assert(rem < days_in_month(y as int, m as int));
        }
    }
    (y, m, (rem + 1) as u8)
}

/// Month lengths follow the fixed table, with February lengthened in a leap
/// year.
fn month_len_exec(leap: bool, m: u8) -> (r: u8)
    requires
        1 <= m <= 12,
    ensures
        forall|y: int| is_leap_year(y) == leap ==> r as int == days_in_month(y, m as int),
{
    if m == 2 {
        if leap {
            29
        } else {
            28
        }
    } else if m == 4 || m == 6 || m == 9 || m == 11 {
        30
    } else {
        31
    }
}

/// `days_before_year` grows with the year.
proof fn lemma_days_before_year_leq(a: int, b: int)
    requires
        0 <= a <= b,
    ensures
        days_before_year(a) <= days_before_year(b),
    decreases b - a,
{
    if a < b {
        lemma_days_before_year_step(a);
        lemma_days_before_year_leq(a + 1, b);
    }
}

/// A day-of-year below the year's length stays below 31 once the first
/// eleven months have been subtracted.
proof fn lemma_day_of_year_in_range(y: int, doy: int)
    requires
        0 <= doy < year_length(y),
    ensures
        doy - days_before_month(y, 12) < 31,
{
}

/// Checks whether y-m-d is a calendar date.
pub fn valid_date_exec(y: i64, m: u8, d: u8) -> (r: bool)
    requires
        0 <= y,
    ensures
        r == is_valid_date(y as int, m as int, d as int),
{
    if !(1 <= m && m <= 12) {
        return false;
    }
    let leap: bool = (y % 4 == 0 && y % 100 != 0) || y % 400 == 0;
    let dim: u8 = month_len_exec(leap, m);
    proof {
        assert(is_leap_year(y as int) == leap);
        assert(dim as int == days_in_month(y as int, m as int));
    }
    1 <= d && d <= dim
}

/// Day-number bounds for dates in years 1..=9999: strictly after the last
/// day of year 0 and strictly before year 10000.
pub proof fn lemma_days_from_civil_tight(y: int, m: int, d: int)
    requires
        1 <= y <= 9999,
        is_valid_date(y, m, d),
    ensures
        -719163 < days_from_civil(y, m, d) <= 2932896,
{
    lemma_days_before_year_leq(1, y);
    assert(days_before_year(1) == 366);
    if y == 9999 {
        assert(!is_leap_year(9999));
    } else {
        lemma_days_before_year_leq(y, 9998);
        assert(days_before_year(9998) == 3651695);
    }
}

/// Day of the week of a day number, 0 for Sunday through 6 for Saturday.
pub fn weekday_exec(z: i64) -> (r: u8)
    requires
        -719529 < z < 2932898,
    ensures
        r as int == weekday_of_day(z as int),
        r < 7,
{
    let shifted: i64 = z + 4 + 719530;
    proof {
        vstd::arithmetic::div_mod::lemma_mod_multiples_vanish(102790, z + 4, 7);
    }
    let r = (shifted % 7) as u8;
    r
}

} // verus!
