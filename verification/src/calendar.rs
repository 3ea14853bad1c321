//! Proleptic Gregorian calendar arithmetic: leap years, month lengths, and
//! the count of days between a calendar date and the unix epoch. Deadlines
//! are unix-epoch seconds computed from a year, month, day and hour.

use vstd::prelude::*;

verus! {

/// A loose bound on every timestamp the calendar can produce for years
/// 0 through 9999; used to keep the arithmetic visibly inside `i64`.
pub const TS_ABS_BOUND: i64 = 300_000_000_000;

/// Whether a timestamp lies within the range the calendar can produce.
pub open spec fn deadline_in_bounds_def(ts: i64) -> bool {
    -TS_ABS_BOUND <= ts <= TS_ABS_BOUND
}

pub open spec fn is_leap_year(y: int) -> bool {
    y % 4 == 0 && (y % 100 != 0 || y % 400 == 0)
}

pub open spec fn days_in_month(y: int, m: int) -> int
    recommends
        1 <= m <= 12,
{
    if m == 2 {
        if is_leap_year(y) {
            29
        } else {
            28
        }
    } else if m == 4 || m == 6 || m == 9 || m == 11 {
        30
    } else {
        31
    }
}

pub open spec fn days_in_year(y: int) -> int {
    if is_leap_year(y) {
        366
    } else {
        365
    }
}

/// Days from the unix epoch to the first day of year `y`; negative for years
/// before 1970.
pub open spec fn days_before_year(y: int) -> int
    decreases (if y >= 1970 { y - 1970 } else { 1970 - y }),
{
    if y > 1970 {
        days_before_year(y - 1) + days_in_year(y - 1)
    } else if y < 1970 {
        days_before_year(y + 1) - days_in_year(y)
    } else {
        0
    }
}

/// Days from the first day of year `y` to the first day of its month `m`.
pub open spec fn days_before_month(y: int, m: int) -> int
    recommends
        1 <= m <= 12,
    decreases m,
{
    if m <= 1 {
        0
    } else {
        days_before_month(y, m - 1) + days_in_month(y, m - 1)
    }
}

/// Days from the unix epoch to the given calendar date.
pub open spec fn days_from_epoch(y: int, m: int, d: int) -> int {
    days_before_year(y) + days_before_month(y, m) + (d - 1)
}

/// Unix-epoch seconds of the top of hour `h` on the given calendar date.
pub open spec fn timestamp_of(y: int, m: int, d: int, h: int) -> int {
    days_from_epoch(y, m, d) * 86400 + h * 3600
}

/// Whether the four components name a real calendar date and hour, with the
/// year in the four-digit range.
pub open spec fn valid_date(y: int, m: int, d: int, h: int) -> bool {
    &&& 0 <= y <= 9999
    &&& 1 <= m <= 12
    &&& 1 <= d <= days_in_month(y, m)
    &&& 0 <= h <= 23
}

proof fn lemma_days_before_year_bound(y: int)
    requires
        0 <= y <= 9999,
    ensures
        y >= 1970 ==> 365 * (y - 1970) <= days_before_year(y) <= 366 * (y - 1970),
        y < 1970 ==> -366 * (1970 - y) <= days_before_year(y) <= -365 * (1970 - y),
    decreases (if y >= 1970 { y - 1970 } else { 1970 - y }),
{
    if y > 1970 {
        lemma_days_before_year_bound(y - 1);
    } else if y < 1970 {
        lemma_days_before_year_bound(y + 1);
    }
}

proof fn lemma_days_before_month_bound(y: int, m: int)
    requires
        1 <= m <= 12,
    ensures
        0 <= days_before_month(y, m) <= 31 * (m - 1),
    decreases m,
{
    if m > 1 {
        lemma_days_before_month_bound(y, m - 1);
    }
}

/// Every valid date and hour gives a timestamp within the loose bound.
pub proof fn lemma_timestamp_bound(y: int, m: int, d: int, h: int)
    requires
        valid_date(y, m, d, h),
    ensures
        -TS_ABS_BOUND <= timestamp_of(y, m, d, h) <= TS_ABS_BOUND,
{
    lemma_days_before_year_bound(y);
    lemma_days_before_month_bound(y, m);
}

fn is_leap_year_exec(y: i64) -> (b: bool)
    requires
        0 <= y,
    ensures
        b == is_leap_year(y as int),
{
    y % 4 == 0 && (y % 100 != 0 || y % 400 == 0)
}

fn days_in_month_exec(y: i64, m: i64) -> (r: i64)
    requires
        0 <= y,
        1 <= m <= 12,
    ensures
        r == days_in_month(y as int, m as int),
{
    if m == 2 {
        if is_leap_year_exec(y) {
            29
        } else {
            28
        }
    } else if m == 4 || m == 6 || m == 9 || m == 11 {
        30
    } else {
        31
    }
}

fn days_before_year_exec(y: i64) -> (r: i64)
    requires
        0 <= y <= 9999,
    ensures
        r == days_before_year(y as int),
{
    proof {
        lemma_days_before_year_bound(y as int);
    }
    if y >= 1970 {
        let mut cur: i64 = 1970;
        let mut acc: i64 = 0;
        while cur < y
            invariant
                1970 <= cur <= y <= 9999,
                acc == days_before_year(cur as int),
            decreases y - cur,
        {
            proof {
                lemma_days_before_year_bound(cur as int);
                lemma_days_before_year_bound((cur + 1) as int);
            }
            let leap = is_leap_year_exec(cur);
            acc = acc + if leap { 366 } else { 365 };
            cur = cur + 1;
        }
        acc
    } else {
        let mut cur: i64 = 1970;
        let mut acc: i64 = 0;
        while cur > y
            invariant
                0 <= y <= cur <= 1970,
                acc == days_before_year(cur as int),
            decreases cur,
        {
            proof {
                lemma_days_before_year_bound(cur as int);
                lemma_days_before_year_bound((cur - 1) as int);
            }
            let leap = is_leap_year_exec(cur - 1);
            acc = acc - if leap { 366 } else { 365 };
            cur = cur - 1;
        }
        acc
    }
}

fn days_before_month_exec(y: i64, m: i64) -> (r: i64)
    requires
        0 <= y,
        1 <= m <= 12,
    ensures
        r == days_before_month(y as int, m as int),
        0 <= r <= 341,
{
    proof {
        lemma_days_before_month_bound(y as int, m as int);
    }
    let mut cur: i64 = 1;
    let mut acc: i64 = 0;
    while cur < m
        invariant
            0 <= y,
            1 <= cur <= m <= 12,
            acc == days_before_month(y as int, cur as int),
            0 <= acc <= 31 * (cur - 1),
        decreases m - cur,
    {
        proof {
            lemma_days_before_month_bound(y as int, cur as int);
            lemma_days_before_month_bound(y as int, (cur + 1) as int);
        }
        acc = acc + days_in_month_exec(y, cur);
        cur = cur + 1;
    }
    acc
}

/// Computes the unix timestamp of a valid calendar date and hour.
pub fn timestamp_exec(y: i64, m: i64, d: i64, h: i64) -> (r: i64)
    requires
        valid_date(y as int, m as int, d as int, h as int),
    ensures
        r == timestamp_of(y as int, m as int, d as int, h as int),
        -TS_ABS_BOUND <= r <= TS_ABS_BOUND,
{
    proof {
        lemma_timestamp_bound(y as int, m as int, d as int, h as int);
        lemma_days_before_year_bound(y as int);
        lemma_days_before_month_bound(y as int, m as int);
    }
    let days = days_before_year_exec(y) + days_before_month_exec(y, m) + (d - 1);
    days * 86400 + h * 3600
}

/// Checks a candidate date and hour against the calendar.
pub fn valid_date_exec(y: i64, m: i64, d: i64, h: i64) -> (b: bool)
    requires
        0 <= y <= 9999,
    ensures
        b == valid_date(y as int, m as int, d as int, h as int),
{
    if m < 1 || m > 12 {
        return false;
    }
    if h < 0 || h > 23 {
        return false;
    }
    let dim = days_in_month_exec(y, m);
    1 <= d && d <= dim
}

} // verus!
