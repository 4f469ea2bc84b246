//! Calendar arithmetic for the watch mode's time stamps: days since 1970-01-01 to a
//! (proleptic Gregorian) date, and the `YYYY-MM-DD HH:MM:SS` text of a Unix time.
use vstd::prelude::*;
use crate::text::{decimal, decimal_string};

verus! {

/// A leap year of the Gregorian calendar.
pub open spec fn is_leap_spec(y: int) -> bool {
    (y % 4 == 0 && y % 100 != 0) || y % 400 == 0
}

/// Whether `year` is a leap year.
pub fn is_leap(year: u64) -> (r: bool)
    ensures
        r == is_leap_spec(year as int),
{
    (year % 4 == 0 && year % 100 != 0) || (year % 400 == 0)
}

/// Days in year `y`.
pub open spec fn year_length(y: int) -> int {
    if is_leap_spec(y) {
        366
    } else {
        365
    }
}

/// Days in month `m` (1 to 12) of year `y`.
pub open spec fn month_length(y: int, m: int) -> int {
    if m == 2 {
        if is_leap_spec(y) {
            29
        } else {
            28
        }
    } else if m == 4 || m == 6 || m == 9 || m == 11 {
        30
    } else {
        31
    }
}

/// Days from 1970-01-01 to January 1st of year `y` (from 1970 on).
pub open spec fn days_before_year(y: int) -> int
    decreases y - 1970,
{
    if y <= 1970 {
        0
    } else {
        days_before_year(y - 1) + year_length(y - 1)
    }
}

/// Days from January 1st to the first of month `m` in year `y`.
pub open spec fn days_before_month(y: int, m: int) -> int
    decreases m,
{
    if m <= 1 {
        0
    } else {
        days_before_month(y, m - 1) + month_length(y, m - 1)
    }
}

/// A date from 1970 on whose month and day exist.
pub open spec fn valid_date(y: int, m: int, d: int) -> bool {
    y >= 1970 && 1 <= m <= 12 && 1 <= d <= month_length(y, m)
}

/// Days from 1970-01-01 to the date.
pub open spec fn days_since_epoch(y: int, m: int, d: int) -> int {
    days_before_year(y) + days_before_month(y, m) + d - 1
}

/// The date `days` days after 1970-01-01.
pub open spec fn date_of(days: int) -> (int, int, int) {
    choose|t: (int, int, int)| valid_date(t.0, t.1, t.2) && days_since_epoch(t.0, t.1, t.2) == days
}

proof fn lemma_months_fill_year(y: int)
    ensures
        days_before_month(y, 13) == year_length(y),
{
    reveal_with_fuel(days_before_month, 13);
}

proof fn lemma_month_bounds(y: int, m1: int, m2: int)
    requires
        1 <= m1 < m2 <= 13,
    ensures
        days_before_month(y, m1) + month_length(y, m1) <= days_before_month(y, m2),
    decreases m2 - m1,
{
    if m2 > m1 + 1 {
        lemma_month_bounds(y, m1, m2 - 1);
    }
}

proof fn lemma_year_bounds(y1: int, y2: int)
    requires
        1970 <= y1 < y2,
    ensures
        days_before_year(y1) + year_length(y1) <= days_before_year(y2),
    decreases y2 - y1,
{
    if y2 > y1 + 1 {
        lemma_year_bounds(y1, y2 - 1);
    }
}

proof fn lemma_before_month_nonneg(y: int, m: int)
    ensures
        days_before_month(y, m) >= 0,
    decreases m,
{
    if m > 1 {
        lemma_before_month_nonneg(y, m - 1);
    }
}

proof fn lemma_date_within_year(y: int, m: int, d: int)
    requires
        valid_date(y, m, d),
    ensures
        days_before_year(y) <= days_since_epoch(y, m, d) < days_before_year(y) + year_length(y),
{
    lemma_before_month_nonneg(y, m);
    lemma_months_fill_year(y);
    lemma_month_bounds(y, m, 13);
    if m == 12 {
        assert(days_before_month(y, 13) == days_before_month(y, 12) + month_length(y, 12));
    }
}

/// Each day count names at most one date: two valid dates the same number of days after
/// 1970-01-01 are the same date.
pub proof fn lemma_date_unique(a: (int, int, int), b: (int, int, int))
    requires
        valid_date(a.0, a.1, a.2),
        valid_date(b.0, b.1, b.2),
        days_since_epoch(a.0, a.1, a.2) == days_since_epoch(b.0, b.1, b.2),
    ensures
        a == b,
{
    lemma_date_within_year(a.0, a.1, a.2);
    lemma_date_within_year(b.0, b.1, b.2);
    if a.0 < b.0 {
        lemma_year_bounds(a.0, b.0);
    } else if b.0 < a.0 {
        lemma_year_bounds(b.0, a.0);
    }
    assert(a.0 == b.0);
    if a.1 < b.1 {
        lemma_month_bounds(a.0, a.1, b.1);
    } else if b.1 < a.1 {
        lemma_month_bounds(a.0, b.1, a.1);
    }
}

fn month_length_exec(y: u64, m: u64) -> (r: u64)
    ensures
        r == month_length(y as int, m as int),
{
    if m == 2 {
        if is_leap(y) {
            29
        } else {
            28
        }
    } else if m == 4 || m == 6 || m == 9 || m == 11 {
        30
    } else {
        31
    }
}

/// The date `days` days after 1970-01-01, as year, month (1 to 12) and day (from 1).
pub fn days_to_ymd(days: u64) -> (r: (u64, u64, u64))
    ensures
        valid_date(r.0 as int, r.1 as int, r.2 as int),
        days_since_epoch(r.0 as int, r.1 as int, r.2 as int) == days,
        (r.0 as int, r.1 as int, r.2 as int) == date_of(days as int),
{
    let mut rem: u64 = days;
    let mut year: u64 = 1970;
    loop
        invariant
            1970 <= year,
            rem <= days,
            rem + days_before_year(year as int) == days,
            (year - 1970) * 365 <= days - rem,
        ensures
            1970 <= year,
            rem + days_before_year(year as int) == days,
            rem < year_length(year as int),
        decreases rem,
    {
        let days_in_year: u64 = if is_leap(year) {
            366
        } else {
            365
        };
        if rem < days_in_year {
            break;
        }
        rem -= days_in_year;
        year += 1;
    }
    let ghost in_year = rem;
    let mut month: u64 = 1;
    proof {
        lemma_months_fill_year(year as int);
    }
    loop
        invariant
            1 <= month <= 12,
            rem <= in_year,
            in_year < year_length(year as int),
            rem + days_before_month(year as int, month as int) == in_year,
            days_before_month(year as int, 13) == year_length(year as int),
        ensures
            1 <= month <= 12,
            rem + days_before_month(year as int, month as int) == in_year,
            rem < month_length(year as int, month as int),
        decreases 12 - month,
    {
        let dim = month_length_exec(year, month);
        if rem < dim {
            break;
        }
        proof {
            if month == 12 {
                assert(days_before_month(year as int, 13) == days_before_month(year as int, 12) + month_length(
                    year as int,
                    12,
                ));
            }
        }
        rem -= dim;
        month += 1;
    }
    let r = (year, month, rem + 1);
    proof {
        let t = (year as int, month as int, rem + 1);
        assert(valid_date(t.0, t.1, t.2) && days_since_epoch(t.0, t.1, t.2) == days);
        let c = date_of(days as int);
        lemma_date_unique(t, c);
    }
    r
}

/// `n` in decimal, padded with leading zeros to at least `width` digits.
pub open spec fn zero_padded(n: nat, width: nat) -> Seq<char> {
    let d = decimal(n);
    if d.len() < width {
        Seq::new((width - d.len()) as nat, |i: int| '0') + d
    } else {
        d
    }
}

fn zero_padded_exec(n: u64, width: usize) -> (r: String)
    ensures
        r@ == zero_padded(n as nat, width as nat),
{
    let d = decimal_string(n);
    let digits = crate::text::chars_of(d.as_str());
    if digits.len() < width {
        let mut v: Vec<char> = Vec::new();
        let pad = width - digits.len();
        let mut i: usize = 0;
        while i < pad
            invariant
                0 <= i <= pad,
                v@ == Seq::new(i as nat, |k: int| '0'),
            decreases pad - i,
        {
            v.push('0');
            i += 1;
            assert(v@ =~= Seq::new(i as nat, |k: int| '0'));
        }
        let mut j: usize = 0;
        let ghost zeros = v@;
        while j < digits.len()
            invariant
                0 <= j <= digits.len(),
                v@ == zeros + digits@.take(j as int),
            decreases digits.len() - j,
        {
            v.push(digits[j]);
            j += 1;
            assert(v@ =~= zeros + digits@.take(j as int));
        }
        assert(digits@.take(j as int) =~= digits@);
        crate::text::string_from_chars(v.as_slice())
    } else {
        d
    }
}

/// The `YYYY-MM-DD HH:MM:SS` text (UTC) of `secs` seconds after 1970-01-01 00:00:00.
pub open spec fn timestamp_spec(secs: nat) -> Seq<char> {
    let date = date_of((secs / 86400) as int);
    zero_padded(date.0 as nat, 4) + "-"@ + zero_padded(date.1 as nat, 2) + "-"@ + zero_padded(date.2 as nat, 2)
        + " "@ + zero_padded((secs / 3600) % 24, 2) + ":"@ + zero_padded((secs / 60) % 60, 2) + ":"@ + zero_padded(
        secs % 60,
        2,
    )
}

/// The time stamp text of a Unix time in seconds.
pub fn timestamp_from_secs(secs: u64) -> (r: String)
    ensures
        r@ == timestamp_spec(secs as nat),
{
    let s = secs % 60;
    let m = (secs / 60) % 60;
    let h = (secs / 3600) % 24;
    let days = secs / 86400;
    let (year, month, day) = days_to_ymd(days);
    let mut out = zero_padded_exec(year, 4);
    out.append("-");
    out.append(zero_padded_exec(month, 2).as_str());
    out.append("-");
    out.append(zero_padded_exec(day, 2).as_str());
    out.append(" ");
    out.append(zero_padded_exec(h, 2).as_str());
    out.append(":");
    out.append(zero_padded_exec(m, 2).as_str());
    out.append(":");
    out.append(zero_padded_exec(s, 2).as_str());
    out
}

} // verus!
