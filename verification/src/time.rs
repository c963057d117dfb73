use vstd::prelude::*;

verus! {

/// The Gregorian leap-year rule: every fourth year, except centuries not
/// divisible by 400.
pub open spec fn spec_is_leap_year(year: int) -> bool {
    (year % 4 == 0 && year % 100 != 0) || year % 400 == 0
}

pub open spec fn spec_days_in_year(year: int) -> int {
    if spec_is_leap_year(year) {
        366
    } else {
        365
    }
}

/// The length of a calendar month.
pub open spec fn spec_days_in_month(year: int, month: int) -> int
    recommends
        1 <= month <= 12,
{
    if month == 2 {
        if spec_is_leap_year(year) {
            29
        } else {
            28
        }
    } else if month == 4 || month == 6 || month == 9 || month == 11 {
        30
    } else {
        31
    }
}

/// Days from 1970-01-01 to the first day of `year`: the lengths of all the
/// years in between, summed.
pub open spec fn spec_days_to_year(year: int) -> int
    recommends
        year >= 1970,
    decreases year,
{
    if year <= 1970 {
        0
    } else {
        spec_days_to_year(year - 1) + spec_days_in_year(year - 1)
    }
}

/// Days from the first day of `year` to the first day of its `month`: the
/// lengths of the preceding months of that year, summed.
pub open spec fn spec_days_before_month(year: int, month: int) -> int
    recommends
        1 <= month <= 12,
    decreases month,
{
    if month <= 1 {
        0
    } else {
        spec_days_before_month(year, month - 1) + spec_days_in_month(year, month - 1)
    }
}

/// Seconds from the Unix epoch to 00:00:00 UTC on the first day of the given
/// month.
pub open spec fn spec_month_start_seconds(year: int, month: int) -> int {
    (spec_days_to_year(year) + spec_days_before_month(year, month)) * 86400
}

/// Every year is at most 366 days, so the day count to any supported year
/// stays small.
proof fn lemma_days_to_year_bound(year: int)
    requires
        1970 <= year,
    ensures
        0 <= spec_days_to_year(year) <= 366 * (year - 1970),
    decreases year,
{
    if year > 1970 {
        lemma_days_to_year_bound(year - 1);
    }
}

/// The Unix timestamp of the first instant of a month, used by queries that
/// bound a project's creation or a commit's authoring time.
pub fn month_start_timestamp(year: u64, month: u64) -> (r: i64)
    requires
        1970 <= year <= 9999,
        1 <= month <= 12,
    ensures
        r as int == spec_month_start_seconds(year as int, month as int),
{
    let mut days: u64 = 0;
    let mut y: u64 = 1970;
    while y < year
        invariant
            1970 <= y <= year <= 9999,
            days == spec_days_to_year(y as int),
        decreases year - y,
    {
        proof {
            lemma_days_to_year_bound(y as int);
        }
        let leap = (y % 4 == 0 && y % 100 != 0) || y % 400 == 0;
        let add: u64 = if leap {
            366
        } else {
            365
        };
        days = days + add;
        y = y + 1;
    }
    proof {
        lemma_days_to_year_bound(year as int);
    }
    let year_leap = (year % 4 == 0 && year % 100 != 0) || year % 400 == 0;
    let mut m: u64 = 1;
    while m < month
        invariant
            1 <= m <= month <= 12,
            year_leap == spec_is_leap_year(year as int),
            days == spec_days_to_year(year as int) + spec_days_before_month(year as int, m as int),
            days <= 366 * 8029 + 31 * (m - 1),
        decreases month - m,
    {
        let dim: u64 = if m == 2 {
            if year_leap {
                29
            } else {
                28
            }
        } else if m == 4 || m == 6 || m == 9 || m == 11 {
            30
        } else {
            31
        };
        days = days + dim;
        m = m + 1;
    }
    (days as i64) * 86400
}

} // verus!
