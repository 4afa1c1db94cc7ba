//! The calendar year of a Unix timestamp, and its decimal digits.

use vstd::prelude::*;
use vstd::string::StringExecFns;

verus! {

/// Leap years of the proleptic Gregorian calendar.
pub open spec fn spec_is_leap(y: int) -> bool {
    y % 4 == 0 && (y % 100 != 0 || y % 400 == 0)
}

/// Number of days in year `y`.
pub open spec fn spec_days_in_year(y: int) -> int {
    if spec_is_leap(y) {
        366
    } else {
        365
    }
}

/// The year that contains the day `days` whole days after the first day
/// of year `y`.
pub open spec fn spec_year_from(y: int, days: nat) -> int
    decreases days,
{
    if days < spec_days_in_year(y) {
        y
    } else {
        spec_year_from(y + 1, (days - spec_days_in_year(y)) as nat)
    }
}

/// The calendar year of a timestamp given in whole seconds since the
/// Unix epoch (1970-01-01 00:00:00).
pub open spec fn spec_year_of(secs: u64) -> int {
    spec_year_from(1970, (secs as nat) / 86400)
}

/// Executable twin of `spec_is_leap`.
pub fn is_leap(y: u64) -> (r: bool)
    ensures
        r == spec_is_leap(y as int),
{
    y % 4 == 0 && (y % 100 != 0 || y % 400 == 0)
}

/// Executable twin of `spec_days_in_year`.
pub fn days_in_year(y: u64) -> (d: u64)
    ensures
        d == spec_days_in_year(y as int),
{
    if is_leap(y) {
        366
    } else {
        365
    }
}

/// Computes the calendar year of a timestamp in seconds since the epoch.
pub fn year_of_secs(secs: u64) -> (y: u64)
    ensures
        y == spec_year_of(secs),
        y >= 1970,
{
    let total: u64 = secs / 86400;
    proof {
        vstd::arithmetic::div_mod::lemma_div_is_ordered_by_denominator(secs as int, 2, 86400);
    }
    let mut days: u64 = total;
    let mut y: u64 = 1970;
    loop
        invariant
            y >= 1970,
            days <= total,
            total <= secs / 2,
            y - 1970 <= total - days,
            spec_year_from(y as int, days as nat) == spec_year_of(secs),
        decreases days,
    {
        let in_year = days_in_year(y);
        if days < in_year {
            return y;
        }
        days = days - in_year;
        y = y + 1;
    }
}

/// The character of a single decimal digit.
pub open spec fn spec_digit_char(d: int) -> char {
    if d == 0 {
        '0'
    } else if d == 1 {
        '1'
    } else if d == 2 {
        '2'
    } else if d == 3 {
        '3'
    } else if d == 4 {
        '4'
    } else if d == 5 {
        '5'
    } else if d == 6 {
        '6'
    } else if d == 7 {
        '7'
    } else if d == 8 {
        '8'
    } else {
        '9'
    }
}

/// The decimal digits of `n`, most significant first, with no leading
/// zeros (a single `'0'` for zero).
pub open spec fn spec_decimal(n: nat) -> Seq<char>
    decreases n,
{
    if n < 10 {
        seq![spec_digit_char(n as int)]
    } else {
        spec_decimal(n / 10).push(spec_digit_char((n % 10) as int))
    }
}

/// A one-character string for a single decimal digit.
pub fn digit_str(d: u64) -> (s: &'static str)
    requires
        d < 10,
    ensures
        s@ == seq![spec_digit_char(d as int)],
{
    proof {
        reveal_strlit("0");
        reveal_strlit("1");
        reveal_strlit("2");
        reveal_strlit("3");
        reveal_strlit("4");
        reveal_strlit("5");
        reveal_strlit("6");
        reveal_strlit("7");
        reveal_strlit("8");
        reveal_strlit("9");
    }
    if d == 0 {
        "0"
    } else if d == 1 {
        "1"
    } else if d == 2 {
        "2"
    } else if d == 3 {
        "3"
    } else if d == 4 {
        "4"
    } else if d == 5 {
        "5"
    } else if d == 6 {
        "6"
    } else if d == 7 {
        "7"
    } else if d == 8 {
        "8"
    } else {
        "9"
    }
}

/// Renders `n` in decimal, most significant digit first.
pub fn u64_decimal(n: u64) -> (s: String)
    ensures
        s@ == spec_decimal(n as nat),
    decreases n,
{
    if n < 10 {
        String::from_str(digit_str(n))
    } else {
        let mut s = u64_decimal(n / 10);
        s.append(digit_str(n % 10));
        s
    }
}

} // verus!
