//! Civil-calendar arithmetic: converting a `YYYY-MM-DD HH:MM:SS` date
//! to seconds since the Unix epoch and back.  The supported range is
//! the years 1970 through 9999; dates outside it are rejected by the
//! parser and the formatter requires an in-range instant.

use vstd::prelude::*;

verus! {

/// Gregorian leap year.
pub open spec fn is_leap_year(y: int) -> bool {
    y % 4 == 0 && (y % 100 != 0 || y % 400 == 0)
}

/// Days in a year.
pub open spec fn days_in_year(y: int) -> int {
    if is_leap_year(y) { 366 } else { 365 }
}

/// Days in a month of a year.
pub open spec fn days_in_month(y: int, m: int) -> int
    recommends
        1 <= m <= 12,
{
    if m == 1 { 31 }
    else if m == 2 { if is_leap_year(y) { 29 } else { 28 } }
    else if m == 3 { 31 }
    else if m == 4 { 30 }
    else if m == 5 { 31 }
    else if m == 6 { 30 }
    else if m == 7 { 31 }
    else if m == 8 { 31 }
    else if m == 9 { 30 }
    else if m == 10 { 31 }
    else if m == 11 { 30 }
    else { 31 }
}

/// Days from 1970-01-01 to the first day of year `y`.
pub open spec fn days_before_year(y: int) -> int
    recommends
        y >= 1970,
    decreases y,
{
    if y <= 1970 {
        0
    } else {
        days_before_year(y - 1) + days_in_year(y - 1)
    }
}

/// Days from the first of January to the first day of month `m` of year `y`.
pub open spec fn days_before_month(y: int, m: int) -> int
    recommends
        1 <= m <= 12,
    decreases m,
{
    if m <= 1 {
        0
    } else {
        days_before_month(y, m - 1) + days_in_month(y, m - 1)
    }
}

/// A calendar date the library accepts.
pub open spec fn valid_civil_date(y: int, m: int, d: int) -> bool {
    1970 <= y <= 9999 && 1 <= m <= 12 && 1 <= d <= days_in_month(y, m)
}

/// A wall-clock time of day.
pub open spec fn valid_civil_time(h: int, mi: int, s: int) -> bool {
    0 <= h <= 23 && 0 <= mi <= 59 && 0 <= s <= 59
}

/// Days since 1970-01-01 of a date.
pub open spec fn civil_to_days(y: int, m: int, d: int) -> int {
    days_before_year(y) + days_before_month(y, m) + (d - 1)
}

/// Seconds since the epoch of a date and time of day.
pub open spec fn civil_to_epoch_secs(y: int, m: int, d: int, h: int, mi: int, s: int) -> int {
    civil_to_days(y, m, d) * 86400 + h * 3600 + mi * 60 + s
}

/// `days_before_year` grows at most 366 days per year.
proof fn lemma_days_before_year_bound(y: int)
    requires
        1970 <= y,
    ensures
        days_before_year(y) <= (y - 1970) * 366,
    decreases y,
{
    if y > 1970 {
        lemma_days_before_year_bound(y - 1);
    }
}

/// Exec leap-year test.
pub fn leap_year(y: u64) -> (r: bool)
    ensures
        r == is_leap_year(y as int),
{
    y % 4 == 0 && (y % 100 != 0 || y % 400 == 0)
}

/// Exec days-in-year.
pub fn year_len(y: u64) -> (r: u64)
    ensures
        r as int == days_in_year(y as int),
{
    if leap_year(y) { 366 } else { 365 }
}

/// Exec days-in-month.
pub fn month_len(y: u64, m: u64) -> (r: u64)
    requires
        1 <= m <= 12,
    ensures
        r as int == days_in_month(y as int, m as int),
{
    if m == 1 { 31 }
    else if m == 2 { if leap_year(y) { 29 } else { 28 } }
    else if m == 3 { 31 }
    else if m == 4 { 30 }
    else if m == 5 { 31 }
    else if m == 6 { 30 }
    else if m == 7 { 31 }
    else if m == 8 { 31 }
    else if m == 9 { 30 }
    else if m == 10 { 31 }
    else if m == 11 { 30 }
    else { 31 }
}

/// Days since the epoch of an in-range date.
pub fn days_of_civil(y: u64, m: u64, d: u64) -> (r: u64)
    requires
        valid_civil_date(y as int, m as int, d as int),
    ensures
        r as int == civil_to_days(y as int, m as int, d as int),
        r < 2940000,
{
    let mut days: u64 = 0;
    let mut i: u64 = 1970;
    while i < y
        invariant
            1970 <= i <= y <= 9999,
            days as int == days_before_year(i as int),
            days as int <= (i - 1970) * 366,
        decreases y - i,
    {
        days = days + year_len(i);
        i = i + 1;
    }
    proof {
        lemma_days_before_year_bound(y as int);
    }
    let mut j: u64 = 1;
    while j < m
        invariant
            1 <= j <= m <= 12,
            valid_civil_date(y as int, m as int, d as int),
            days as int == days_before_year(y as int) + days_before_month(y as int, j as int),
            days as int <= (y - 1970) * 366 + (j - 1) * 31,
        decreases m - j,
    {
        days = days + month_len(y, j);
        j = j + 1;
    }
    days + (d - 1)
}

/// Seconds since the epoch of an in-range date and time.
pub fn epoch_secs_of_civil(y: u64, m: u64, d: u64, h: u64, mi: u64, s: u64) -> (r: i64)
    requires
        valid_civil_date(y as int, m as int, d as int),
        valid_civil_time(h as int, mi as int, s as int),
    ensures
        r as int == civil_to_epoch_secs(y as int, m as int, d as int, h as int, mi as int, s as int),
        0 <= r < 254100000000,
{
    let days = days_of_civil(y, m, d);
    let secs: u64 = days * 86400 + h * 3600 + mi * 60 + s;
    secs as i64
}

/// Date of a day count, inverting `civil_to_days` over the supported range.
pub fn civil_of_days(days: u64) -> (r: (u64, u64, u64))
    requires
        (days as int) < civil_to_days(10000, 1, 1),
    ensures
        valid_civil_date(r.0 as int, r.1 as int, r.2 as int),
        civil_to_days(r.0 as int, r.1 as int, r.2 as int) == days as int,
{
    let mut y: u64 = 1970;
    let mut rest: u64 = days;
    proof {
        assert(days_before_year(1970) == 0);
    }
    while rest >= year_len(y)
        invariant
            1970 <= y,
            days_before_year(y as int) + rest as int == days as int,
            (days as int) < civil_to_days(10000, 1, 1),
        decreases rest,
    {
        proof {
            if y as int >= 10000 {
                lemma_days_before_year_monotonic(10000, y as int);
                assert(false);
            }
        }
        rest = rest - year_len(y);
        y = y + 1;
    }
    proof {
        if y > 9999 {
            lemma_days_before_year_monotonic(10000, y as int);
            assert(false);
        }
    }
    let mut m: u64 = 1;
    while m < 12 && rest >= month_len(y, m)
        invariant
            1 <= m <= 12,
            1970 <= y <= 9999,
            days_before_year(y as int) + days_before_month(y as int, m as int) + rest as int
                == days as int,
            (rest as int) < days_in_year(y as int) - days_before_month(y as int, m as int),
        decreases 12 - m,
    {
        proof {
            lemma_days_split(y as int, m as int + 1);
        }
        rest = rest - month_len(y, m);
        m = m + 1;
    }
    proof {
        lemma_days_split(y as int, 13);
    }
    (y, m, rest + 1)
}

/// `days_before_year` is monotonic.
proof fn lemma_days_before_year_monotonic(a: int, b: int)
    requires
        1970 <= a <= b,
    ensures
        days_before_year(a) <= days_before_year(b),
    decreases b,
{
    if a < b {
        lemma_days_before_year_monotonic(a, b - 1);
    }
}

/// The days of a year split into the months before `m` and the rest;
/// the rest is at least the length of month `m` when `m < 13`.
proof fn lemma_days_split(y: int, m: int)
    requires
        1 <= m <= 13,
    ensures
        m <= 12 ==> days_before_month(y, m) + days_in_month(y, m) <= days_in_year(y),
        m == 13 ==> days_before_month(y, m) == days_in_year(y),
    decreases 13 - m,
{
    if m == 13 {
        reveal_with_fuel(days_before_month, 14);
        assert(days_before_month(y, 13) == days_in_year(y));
    } else {
        lemma_days_split(y, m + 1);
    }
}

} // verus!

verus! {

/// The first day count past the supported range: the day of 10000-01-01.
pub fn epoch_day_limit() -> (r: u64)
    ensures
        r as int == civil_to_days(10000, 1, 1),
        1 <= r <= 2940000,
{
    let d = days_of_civil(9999, 12, 31);
    proof {
        lemma_days_split(9999, 13);
        assert(days_before_year(10000) == days_before_year(9999) + days_in_year(9999));
    }
    d + 1
}

} // verus!
