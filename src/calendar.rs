//! The proleptic Gregorian calendar counted in days from 1970-01-01, and the
//! conversion from such a day count to a civil date and a day of the week.
use vstd::arithmetic::div_mod::{
    lemma_fundamental_div_mod,
    lemma_mod_bound,
    lemma_mod_multiples_vanish,
};
use vstd::prelude::*;

verus! {

/// Whether `year` is a leap year of the proleptic Gregorian calendar.
pub open spec fn is_leap_year(year: int) -> bool {
    year % 4 == 0 && (year % 100 != 0 || year % 400 == 0)
}

/// The number of days of month `month` (1 = January) in `year`.
pub open spec fn days_in_month(year: int, month: int) -> int {
    if month == 2 {
        if is_leap_year(year) {
            29
        } else {
            28
        }
    } else if month == 4 || month == 6 || month == 9 || month == 11 {
        30
    } else {
        31
    }
}

/// Whether (`year`, `month`, `day`) names a day of the calendar.
pub open spec fn is_valid_date(year: int, month: int, day: int) -> bool {
    1 <= month <= 12 && 1 <= day <= days_in_month(year, month)
}

/// The number of leap years among the years 1 through `year`, for `year >= 0`.
pub open spec fn leap_years_through(year: int) -> int {
    year / 4 - year / 100 + year / 400
}

/// The signed number of days from 1970-01-01 to January 1 of `year`, for `year >= 1`.
pub open spec fn days_before_year(year: int) -> int {
    365 * (year - 1970) + leap_years_through(year - 1) - leap_years_through(1969)
}

/// The number of days in `year` before the first day of `month`.
pub open spec fn days_before_month(year: int, month: int) -> int {
    let common: int = if month <= 1 {
        0
    } else if month == 2 {
        31
    } else if month == 3 {
        59
    } else if month == 4 {
        90
    } else if month == 5 {
        120
    } else if month == 6 {
        151
    } else if month == 7 {
        181
    } else if month == 8 {
        212
    } else if month == 9 {
        243
    } else if month == 10 {
        273
    } else if month == 11 {
        304
    } else {
        334
    };
    if month > 2 && is_leap_year(year) {
        common + 1
    } else {
        common
    }
}

/// The signed number of days from 1970-01-01 to the given date.
pub open spec fn epoch_day(year: int, month: int, day: int) -> int {
    days_before_year(year) + days_before_month(year, month) + day - 1
}

/// The ISO day of the week (1 = Monday, ..., 7 = Sunday) of the day
/// `day_number` days after 1970-01-01, which was a Thursday.
pub open spec fn iso_weekday(day_number: int) -> int {
    (day_number + 3) % 7 + 1
}

/// The date that follows a valid date.
pub open spec fn next_date(year: int, month: int, day: int) -> (int, int, int) {
    if day < days_in_month(year, month) {
        (year, month, day + 1)
    } else if month < 12 {
        (year, month + 1, 1)
    } else {
        (year + 1, 1, 1)
    }
}

proof fn lemma_floor(x: int, k: int)
    requires
        k > 0,
    ensures
        k * (x / k) <= x < k * (x / k) + k,
{
    lemma_fundamental_div_mod(x, k);
    lemma_mod_bound(x, k);
}

/// Each year has 365 days, or 366 when it is a leap year.
pub proof fn lemma_year_length(year: int)
    requires
        year >= 1,
    ensures
        days_before_year(year + 1) - days_before_year(year) == if is_leap_year(year) {
            366int
        } else {
            365int
        },
{
    lemma_floor(year, 4);
    lemma_floor(year, 100);
    lemma_floor(year, 400);
    lemma_floor(year - 1, 4);
    lemma_floor(year - 1, 100);
    lemma_floor(year - 1, 400);
}

/// The months of a year follow one another without gap or overlap, and the
/// last one ends the year.
pub proof fn lemma_month_lengths(year: int, month: int)
    requires
        1 <= month <= 12,
    ensures
        month < 12 ==> days_before_month(year, month + 1) == days_before_month(year, month)
            + days_in_month(year, month),
        month == 12 ==> days_before_month(year, 12) + days_in_month(year, 12) == if is_leap_year(
            year,
        ) {
            366int
        } else {
            365int
        },
{
}

/// The day after the last day of a month is the first of the next month, or
/// of January of the next year; any other day is followed by the next day of
/// its month.
pub proof fn lemma_next_date(year: int, month: int, day: int)
    requires
        year >= 1,
        is_valid_date(year, month, day),
    ensures
        ({
            let (y, m, d) = next_date(year, month, day);
            is_valid_date(y, m, d) && epoch_day(y, m, d) == epoch_day(year, month, day) + 1
        }),
{
    lemma_month_lengths(year, month);
    lemma_year_length(year);
}

/// A valid date lies within its year: on or after January 1 and before the
/// next January 1.
proof fn lemma_epoch_day_within_year(year: int, month: int, day: int)
    requires
        year >= 1,
        is_valid_date(year, month, day),
    ensures
        days_before_year(year) <= epoch_day(year, month, day) < days_before_year(year + 1),
{
    lemma_month_lengths(year, 12);
    lemma_year_length(year);
}

/// A later year starts no earlier than the end of an earlier one.
proof fn lemma_days_before_year_ordered(y1: int, y2: int)
    requires
        1 <= y1 < y2,
    ensures
        days_before_year(y1 + 1) <= days_before_year(y2),
{
    lemma_floor(y1, 4);
    lemma_floor(y1, 100);
    lemma_floor(y1, 400);
    lemma_floor(y2 - 1, 4);
    lemma_floor(y2 - 1, 100);
    lemma_floor(y2 - 1, 400);
}

/// Distinct valid dates have distinct day counts, so a day count names at
/// most one date.
pub proof fn lemma_epoch_day_injective(y1: int, m1: int, d1: int, y2: int, m2: int, d2: int)
    requires
        y1 >= 1,
        y2 >= 1,
        is_valid_date(y1, m1, d1),
        is_valid_date(y2, m2, d2),
        epoch_day(y1, m1, d1) == epoch_day(y2, m2, d2),
    ensures
        y1 == y2,
        m1 == m2,
        d1 == d2,
{
    lemma_epoch_day_within_year(y1, m1, d1);
    lemma_epoch_day_within_year(y2, m2, d2);
    if y1 < y2 {
        lemma_days_before_year_ordered(y1, y2);
    } else if y2 < y1 {
        lemma_days_before_year_ordered(y2, y1);
    } else if m1 < m2 {
        lemma_month_lengths(y1, m1);
    } else if m2 < m1 {
        lemma_month_lengths(y1, m2);
    }
}

/// The day count of a date written with years that start on March 1: months
/// 3 to 14 of `shifted_year`, where 13 and 14 are January and February of the
/// year after.
spec fn march_epoch_day(shifted_year: int, shifted_month: int, day: int) -> int {
    365 * shifted_year + leap_years_through(shifted_year) + (153 * (shifted_month - 3) + 2) / 5
        + day - 1 - 719468
}

proof fn lemma_epoch_day_march_form(year: int, month: int, day: int)
    requires
        year >= 1,
        1 <= month <= 12,
    ensures
        epoch_day(year, month, day) == if month <= 2 {
            march_epoch_day(year - 1, month + 12, day)
        } else {
            march_epoch_day(year, month, day)
        },
{
    lemma_floor(year, 4);
    lemma_floor(year, 100);
    lemma_floor(year, 400);
    lemma_floor(year - 1, 4);
    lemma_floor(year - 1, 100);
    lemma_floor(year - 1, 400);
}

/// The first steps of the conversion find the year that starts on March 1
/// (`c`, counted from 4716 BC) and the day within it (`d`, from 123 on).
proof fn lemma_shifted_year(n: int, a: int, b: int, c: int, d: int)
    requires
        0 <= n,
        a == (4 * n + 102032) / 146097 + 15,
        b == n + 2442113 + a - a / 4,
        c == (20 * b - 2442) / 7305,
        d == b - 365 * c - c / 4,
    ensures
        100 * a + 5116 <= c <= 100 * a + 5215,
        (c - 4716) / 100 == a + 4,
        (c - 4716) / 400 == a / 4 + 1,
        (c - 4716) / 4 == c / 4 - 1179,
        123 <= d <= 488,
        d == 488 ==> c % 4 == 3 && (c % 100 == 15 ==> a % 4 == 3),
        a >= 15,
        c >= 6685,
{
    lemma_floor(4 * n + 102032, 146097);
    lemma_floor(a, 4);
    lemma_floor(20 * b - 2442, 7305);
    lemma_floor(c, 4);
    assert(100 * a + 5116 <= c <= 100 * a + 5215);
    lemma_floor(c - 4716, 4);
    lemma_floor(c - 4716, 100);
    lemma_floor(c - 4716, 400);
    lemma_floor(c, 100);
}

/// The number of days of a month numbered from March = 4 to January = 14.
spec fn shifted_month_length(e: int) -> int {
    if e == 5 || e == 7 || e == 10 || e == 12 {
        30
    } else {
        31
    }
}

/// The last steps of the conversion find the month (`e`, from March = 4 to
/// February = 15) and the day of the month (`f`) of day `d` of a year that
/// starts on March 1 at day 123.
proof fn lemma_shifted_month(d: int, e: int, f: int)
    requires
        123 <= d <= 488,
        e == d * 1000 / 30601,
        f == d - e * 30 - e * 601 / 1000,
    ensures
        4 <= e <= 15,
        (153 * (e - 4) + 2) / 5 == d - f - 122,
        1 <= f,
        e < 15 ==> f <= shifted_month_length(e),
        e == 15 ==> f <= 28 || (d == 488 && f == 29),
{
    lemma_floor(d * 1000, 30601);
    lemma_floor(e * 601, 1000);
    lemma_floor(153 * (e - 4) + 2, 5);
}

/// The date found from the year and the day within it that start on March 1.
proof fn lemma_civil_date(n: int, a: int, c: int, d: int, e: int, f: int)
    requires
        0 <= n,
        100 * a + 5116 <= c <= 100 * a + 5215,
        (c - 4716) / 100 == a + 4,
        (c - 4716) / 400 == a / 4 + 1,
        (c - 4716) / 4 == c / 4 - 1179,
        d == 488 ==> c % 4 == 3 && (c % 100 == 15 ==> a % 4 == 3),
        c >= 6685,
        n == (365 * c + c / 4 + d) - 2442113 - a + a / 4,
        4 <= e <= 15,
        (153 * (e - 4) + 2) / 5 == d - f - 122,
        1 <= f,
        e < 15 ==> f <= shifted_month_length(e),
        e == 15 ==> f <= 28 || (d == 488 && f == 29),
    ensures
        ({
            let (year, month) = if e <= 13 {
                (c - 4716, e - 1)
            } else {
                (c - 4715, e - 13)
            };
            &&& year >= 1970
            &&& is_valid_date(year, month, f)
            &&& epoch_day(year, month, f) == n
        }),
{
    let (year, month) = if e <= 13 {
        (c - 4716, e - 1)
    } else {
        (c - 4715, e - 13)
    };
    assert(march_epoch_day(c - 4716, e - 1, f) == n);
    lemma_epoch_day_march_form(year, month, f);
    if e == 15 && f == 29 {
        lemma_leap_end_of_february(a, c);
    }
    assert(is_valid_date(year, month, f));
    if year < 1970 {
        assert(year == 1969 && month >= 3);
        assert(epoch_day(year, month, f) < 0);
    }
}

/// A shifted year that reaches day 488 ends on February 29 of a leap year.
proof fn lemma_leap_end_of_february(a: int, c: int)
    requires
        100 * a + 5116 <= c <= 100 * a + 5215,
        c % 4 == 3,
        c % 100 == 15 ==> a % 4 == 3,
    ensures
        is_leap_year(c - 4715),
{
    lemma_floor(c, 4);
    lemma_floor(c, 100);
    lemma_floor(a, 4);
    lemma_floor(c - 4715, 4);
    lemma_floor(c - 4715, 100);
    lemma_floor(c - 4715, 400);
}

/// The largest day count that a `u64` count of seconds reaches.
pub const MAX_EPOCH_DAY: u64 = 213503982334601;

/// Converts a count of whole days since 1970-01-01 into the (year, month,
/// day) of that day. Months count from 1 = January.
pub fn civil_from_days(days: u64) -> (r: (u64, u8, u8))
    requires
        days <= MAX_EPOCH_DAY,
    ensures
        r.0 >= 1970,
        is_valid_date(r.0 as int, r.1 as int, r.2 as int),
        epoch_day(r.0 as int, r.1 as int, r.2 as int) == days,
{
    let a: u64 = (4 * days + 102032) / 146097 + 15;
    let b: u64 = days + 2442113 + a - a / 4;
    let c: u64 = (20 * b - 2442) / 7305;
    proof {
        lemma_shifted_year(days as int, a as int, b as int, c as int, b - 365 * c - c / 4);
    }
    let d: u64 = b - 365 * c - c / 4;
    let e: u64 = d * 1000 / 30601;
    proof {
        lemma_shifted_month(d as int, e as int, d - e * 30 - e * 601 / 1000);
    }
    let f: u64 = d - e * 30 - e * 601 / 1000;
    // January and February count as months 13 and 14 of the year before.
    let (year, month) = if e <= 13 {
        (c - 4716, e - 1)
    } else {
        (c - 4715, e - 13)
    };
    proof {
        lemma_civil_date(days as int, a as int, c as int, d as int, e as int, f as int);
    }
    (year, month as u8, f as u8)
}

/// Zeller's congruence on a date written with years that start on March 1
/// gives the day of the week of its day count.
proof fn lemma_zeller(shifted_year: int, shifted_month: int, day: int, h: int)
    requires
        shifted_year >= 0,
        3 <= shifted_month <= 14,
        h == day + 26 * (shifted_month + 1) / 10 + shifted_year % 100 + (shifted_year % 100) / 4
            + 5 * (shifted_year / 100) + (shifted_year / 100) / 4,
    ensures
        (h + 5) % 7 == (march_epoch_day(shifted_year, shifted_month, day) + 3) % 7,
{
    let j = shifted_year / 100;
    let k = shifted_year % 100;
    lemma_fundamental_div_mod(shifted_year, 100);
    lemma_mod_bound(shifted_year, 100);
    lemma_floor(shifted_year, 4);
    lemma_floor(shifted_year, 400);
    lemma_floor(k, 4);
    lemma_floor(j, 4);
    let z = 26 * (shifted_month + 1) / 10;
    let w = (153 * (shifted_month - 3) + 2) / 5;
    lemma_floor(26 * (shifted_month + 1), 10);
    lemma_floor(153 * (shifted_month - 3) + 2, 5);
    let u = (z - w - 3) / 7;
    lemma_floor(z - w - 3, 7);
    assert(z - w - 3 == 7 * u);
    let x = march_epoch_day(shifted_year, shifted_month, day) + 3;
    assert(h + 5 == 7 * (u - 52 * k - 5217 * j + 102782) + x);
    lemma_mod_multiples_vanish(u - 52 * k - 5217 * j + 102782, x, 7);
}

/// The ISO day of the week (1 = Monday, ..., 7 = Sunday) of a date, by
/// Zeller's congruence.
pub fn compute_day_of_week(year: u64, month: u8, day: u8) -> (r: u8)
    requires
        year >= 1,
        is_valid_date(year as int, month as int, day as int),
    ensures
        r == iso_weekday(epoch_day(year as int, month as int, day as int)),
{
    let mut y = year;
    let mut m = month;
    // January and February count as months 13 and 14 of the year before.
    if m <= 2 {
        m = m + 12;
        y = y - 1;
    }
    let j = y / 100;
    let k = y % 100;
    let h: u64 = day as u64 + (26 * (m as u64 + 1) / 10) + k + (k / 4) + (5 * j) + (j / 4);
    proof {
        lemma_zeller(y as int, m as int, day as int, h as int);
        lemma_epoch_day_march_form(year as int, month as int, day as int);
    }
    (((h + 5) % 7) as u8) + 1
}

} // verus!
