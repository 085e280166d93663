//! Days since the Unix epoch as dates of the proleptic Gregorian calendar,
//! and durations as clock readings.

use vstd::prelude::*;

use crate::song::{decimal_chars, decimal_digits};
use crate::text::string_from_chars;

verus! {

/// Whether `y` is a leap year.
pub open spec fn is_leap_year(y: int) -> bool {
    (y % 4 == 0 && y % 100 != 0) || y % 400 == 0
}

/// The number of days in year `y`.
pub open spec fn year_length(y: int) -> int {
    if is_leap_year(y) {
        366
    } else {
        365
    }
}

/// The number of days in month `m` (counted from 1) of year `y`.
pub open spec fn month_length(y: int, m: int) -> int {
    if m == 2 {
        if is_leap_year(y) {
            29
        } else {
            28
        }
    } else if m == 4 || m == 6 || m == 9 || m == 11 {
        30
    } else {
        31
    }
}

/// The number of days in the `n` years that start with year `y`.
pub open spec fn years_span(y: int, n: nat) -> int
    decreases n,
{
    if n == 0 {
        0
    } else {
        years_span(y, (n - 1) as nat) + year_length(y + n - 1)
    }
}

/// The number of days in the months of year `y` before month `m`.
pub open spec fn months_span(y: int, m: nat) -> int
    decreases m,
{
    if m <= 1 {
        0
    } else {
        months_span(y, (m - 1) as nat) + month_length(y, m - 1)
    }
}

/// Whether `y-m-d` is a date, in 1970 or later.
pub open spec fn is_date(y: int, m: int, d: int) -> bool {
    &&& y >= 1970
    &&& 1 <= m <= 12
    &&& 1 <= d <= month_length(y, m)
}

/// How many days `y-m-d` comes after 1970-01-01.
pub open spec fn day_number(y: int, m: int, d: int) -> int {
    years_span(1970, (y - 1970) as nat) + months_span(y, m as nat) + d - 1
}

proof fn lemma_years_split(y: int, n: nat, k: nat)
    ensures
        years_span(y, n + k) == years_span(y, n) + years_span(y + n, k),
    decreases k,
{
    if k > 0 {
        lemma_years_split(y, n, (k - 1) as nat);
        assert(years_span(y, n + k) == years_span(y, (n + k - 1) as nat) + year_length(y + n + k - 1));
    }
}

/// The leap years among the years 1 to `y`.
spec fn leap_count(y: int) -> int {
    y / 4 - y / 100 + y / 400
}

proof fn lemma_leap_count_step(y: int)
    ensures
        leap_count(y) - leap_count(y - 1) == if is_leap_year(y) {
            1int
        } else {
            0int
        },
{
    assert(y / 4 - (y - 1) / 4 == if y % 4 == 0 { 1int } else { 0int });
    assert(y / 100 - (y - 1) / 100 == if y % 100 == 0 { 1int } else { 0int });
    assert(y / 400 - (y - 1) / 400 == if y % 400 == 0 { 1int } else { 0int });
    if y % 400 == 0 {
        assert(y % 100 == 0);
        assert(y % 4 == 0);
    } else if y % 100 == 0 {
        assert(y % 4 == 0);
    }
}

proof fn lemma_years_closed(y: int, n: nat)
    ensures
        years_span(y, n) == 365 * n + leap_count(y + n - 1) - leap_count(y - 1),
    decreases n,
{
    if n > 0 {
        lemma_years_closed(y, (n - 1) as nat);
        lemma_leap_count_step(y + n - 1);
    }
}

proof fn lemma_four_centuries_from(y: int)
    ensures
        years_span(y, 400) == 146097,
{
    lemma_years_closed(y, 400);
    assert((y + 399) / 4 == (y - 1) / 4 + 100);
    assert((y + 399) / 100 == (y - 1) / 100 + 4);
    assert((y + 399) / 400 == (y - 1) / 400 + 1);
}

proof fn lemma_cycles(c: nat)
    ensures
        years_span(1970, 400 * c) == 146097 * c,
    decreases c,
{
    if c > 0 {
        lemma_cycles((c - 1) as nat);
        lemma_years_split(1970, 400 * (c - 1) as nat, 400);
        lemma_four_centuries_from(1970 + 400 * (c - 1));
        assert(400 * (c - 1) as nat + 400 == 400 * c) by (nonlinear_arith)
            requires
                c > 0,
        ;
        assert(146097 * (c - 1) + 146097 == 146097 * c) by (nonlinear_arith);
    }
}

proof fn lemma_whole_year(y: int)
    ensures
        months_span(y, 13) == year_length(y),
{
    reveal_with_fuel(months_span, 13);
}

proof fn lemma_months_nonnegative(y: int, m: nat)
    ensures
        months_span(y, m) >= 0,
    decreases m,
{
    if m > 1 {
        lemma_months_nonnegative(y, (m - 1) as nat);
    }
}

proof fn lemma_months_grow(y: int, a: nat, b: nat)
    requires
        1 <= a <= b,
    ensures
        months_span(y, a) <= months_span(y, b),
    decreases b - a,
{
    if a < b {
        lemma_months_grow(y, a, (b - 1) as nat);
    }
}

proof fn lemma_years_grow(a: nat, b: nat)
    requires
        a <= b,
    ensures
        years_span(1970, a) <= years_span(1970, b),
    decreases b - a,
{
    if a < b {
        lemma_years_grow(a, (b - 1) as nat);
    }
}

/// A date's day number falls within its own year.
proof fn lemma_day_number_within_year(y: int, m: int, d: int)
    requires
        is_date(y, m, d),
    ensures
        years_span(1970, (y - 1970) as nat) <= day_number(y, m, d),
        day_number(y, m, d) < years_span(1970, (y - 1970 + 1) as nat),
        months_span(y, m as nat) + d - 1 < months_span(y, (m + 1) as nat),
{
    lemma_months_nonnegative(y, m as nat);
    lemma_months_grow(y, (m + 1) as nat, 13);
    lemma_whole_year(y);
}

/// Different dates have different day numbers, so a day number names one
/// date.
pub proof fn lemma_day_number_identifies_the_date(y1: int, m1: int, d1: int, y2: int, m2: int, d2: int)
    requires
        is_date(y1, m1, d1),
        is_date(y2, m2, d2),
        day_number(y1, m1, d1) == day_number(y2, m2, d2),
    ensures
        y1 == y2,
        m1 == m2,
        d1 == d2,
{
    lemma_day_number_within_year(y1, m1, d1);
    lemma_day_number_within_year(y2, m2, d2);
    if y1 < y2 {
        lemma_years_grow((y1 - 1970 + 1) as nat, (y2 - 1970) as nat);
    } else if y2 < y1 {
        lemma_years_grow((y2 - 1970 + 1) as nat, (y1 - 1970) as nat);
    }
    assert(y1 == y2);
    if m1 < m2 {
        lemma_months_grow(y1, (m1 + 1) as nat, m2 as nat);
    } else if m2 < m1 {
        lemma_months_grow(y1, (m2 + 1) as nat, m1 as nat);
    }
}

fn leap_year(y: u64) -> (r: bool)
    ensures
        r == is_leap_year(y as int),
{
    (y % 4 == 0 && y % 100 != 0) || y % 400 == 0
}

fn days_in_year(y: u64) -> (r: u64)
    ensures
        r == year_length(y as int),
{
    if leap_year(y) {
        366
    } else {
        365
    }
}

fn days_in_month(y: u64, m: u64) -> (r: u64)
    ensures
        r == month_length(y as int, m as int),
{
    if m == 2 {
        if leap_year(y) {
            29
        } else {
            28
        }
    } else if m == 4 || m == 6 || m == 9 || m == 11 {
        30
    } else {
        31
    }
}

/// The date `days` days after 1970-01-01, as year, month and day.
pub fn civil_from_days(days: u64) -> (r: (u64, u8, u8))
    ensures
        is_date(r.0 as int, r.1 as int, r.2 as int),
        day_number(r.0 as int, r.1 as int, r.2 as int) == days,
{
    let cycles: u64 = days / 146097;
    let start: u64 = days % 146097;
    assert(cycles * 400 <= 400 * (u64::MAX / 146097)) by (nonlinear_arith)
        requires
            cycles == days / 146097,
    ;
    let base: u64 = 1970 + cycles * 400;
    let mut year: u64 = base;
    let mut rem: u64 = start;
    proof {
        lemma_four_centuries_from(base as int);
    }
    while rem >= days_in_year(year)
        invariant
            base <= year <= base + 400,
            base == 1970 + cycles * 400,
            cycles * 400 <= 400 * (u64::MAX / 146097),
            start < 146097,
            years_span(base as int, 400) == 146097,
            years_span(base as int, (year - base) as nat) + rem == start,
        decreases rem,
    {
        let length = days_in_year(year);
        if year - base == 400 {
            assert(false);
        }
        assert(years_span(base as int, (year + 1 - base) as nat) == years_span(base as int, (year - base) as nat)
            + year_length(year as int));
        rem = rem - length;
        year = year + 1;
    }
    let after_years: u64 = rem;
    let mut month: u64 = 1;
    proof {
        lemma_whole_year(year as int);
    }
    while rem >= days_in_month(year, month)
        invariant
            1 <= month <= 12,
            months_span(year as int, month as nat) + rem == after_years,
            after_years < year_length(year as int),
            months_span(year as int, 13) == year_length(year as int),
        decreases rem,
    {
        let length = days_in_month(year, month);
        if month == 12 {
            assert(months_span(year as int, 13) == months_span(year as int, 12) + month_length(year as int, 12));
            assert(false);
        }
        rem = rem - length;
        month = month + 1;
    }
    proof {
        lemma_cycles(cycles as nat);
        lemma_years_split(1970, (400 * cycles) as nat, (year - base) as nat);
        assert(146097 * cycles + start == days) by (nonlinear_arith)
            requires
                cycles == days / 146097,
                start == days % 146097,
        ;
    }
    (year, month as u8, (rem + 1) as u8)
}

// ---------------------------------------------------------------------------
// As text
// ---------------------------------------------------------------------------

/// `n` in decimal, with a leading zero below ten.
pub open spec fn two_digits(n: nat) -> Seq<char> {
    if n < 10 {
        seq!['0'] + decimal_digits(n)
    } else {
        decimal_digits(n)
    }
}

/// A date as `YYYY-MM-DD`.
pub open spec fn date_text(y: nat, m: nat, d: nat) -> Seq<char> {
    decimal_digits(y) + seq!['-'] + two_digits(m) + seq!['-'] + two_digits(d)
}

/// Whether `text` is what a song list shows for a file last modified
/// `secs` seconds after the Unix epoch: `unknown` for zero, else the UTC
/// date.
pub open spec fn is_mtime_text(secs: u64, text: Seq<char>) -> bool {
    if secs == 0 {
        text == "unknown"@
    } else {
        exists|y: int, m: int, d: int|
            #![trigger date_text(y as nat, m as nat, d as nat)]
            is_date(y, m, d) && day_number(y, m, d) == secs / 86400 && text == date_text(
                y as nat,
                m as nat,
                d as nat,
            )
    }
}

/// A length of `secs` seconds as a clock reading: `MM:SS` below an hour,
/// `H:MM:SS` from an hour on.
pub open spec fn duration_text(secs: nat) -> Seq<char> {
    if secs >= 3600 {
        decimal_digits(secs / 3600) + seq![':'] + two_digits((secs / 60) % 60) + seq![':'] + two_digits(
            secs % 60,
        )
    } else {
        two_digits(secs / 60) + seq![':'] + two_digits(secs % 60)
    }
}

fn decimal(n: u64) -> (r: String)
    ensures
        r@ == decimal_digits(n as nat),
{
    string_from_chars(&decimal_chars(n))
}

fn padded(n: u64) -> (r: String)
    requires
        n < 100,
    ensures
        r@ == two_digits(n as nat),
{
    let digits = decimal(n);
    if n < 10 {
        let out = "0".to_string();
        proof {
            reveal_strlit("0");
        }
        out.concat(digits.as_str())
    } else {
        digits
    }
}

/// A length of `secs` seconds as a clock reading.
pub fn format_duration(secs: u64) -> (r: String)
    ensures
        r@ == duration_text(secs as nat),
{
    let colon = ":";
    proof {
        reveal_strlit(":");
    }
    if secs >= 3600 {
        let out = decimal(secs / 3600);
        let out = out.concat(colon);
        let minutes = padded((secs / 60) % 60);
        let out = out.concat(minutes.as_str());
        let out = out.concat(colon);
        let seconds = padded(secs % 60);
        out.concat(seconds.as_str())
    } else {
        assert(secs / 60 < 100);
        let out = padded(secs / 60);
        let out = out.concat(colon);
        let seconds = padded(secs % 60);
        out.concat(seconds.as_str())
    }
}

/// When a file was last modified, `secs` seconds after the Unix epoch, as
/// its UTC date; `unknown` for zero.
pub fn format_mtime(secs: u64) -> (r: String)
    ensures
        is_mtime_text(secs, r@),
{
    if secs == 0 {
        let out = "unknown".to_string();
        proof {
            reveal_strlit("unknown");
        }
        return out;
    }
    let (y, m, d) = civil_from_days(secs / 86400);
    let dash = "-";
    proof {
        reveal_strlit("-");
    }
    let out = decimal(y);
    let out = out.concat(dash);
    let month = padded(m as u64);
    let out = out.concat(month.as_str());
    let out = out.concat(dash);
    let day = padded(d as u64);
    let out = out.concat(day.as_str());
    proof {
        let (yy, mm, dd) = (y as int, m as int, d as int);
        assert(out@ == date_text(yy as nat, mm as nat, dd as nat));
        assert(is_date(yy, mm, dd) && day_number(yy, mm, dd) == secs / 86400);
    }
    out
}

} // verus!
