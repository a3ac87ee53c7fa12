//! The Gregorian calendar, from 1970 on.

use crate::text;
use vstd::prelude::*;
use vstd::string::*;

verus! {

/// Whether a year is a leap year.
pub open spec fn leap(y: int) -> bool {
    (y % 4 == 0 && y % 100 != 0) || y % 400 == 0
}

/// The number of days of a year.
pub open spec fn days_in_year(y: int) -> int {
    if leap(y) {
        366
    } else {
        365
    }
}

/// The number of days of a month.
pub open spec fn days_in_month(y: int, m: int) -> int {
    if m == 2 {
        if leap(y) {
            29
        } else {
            28
        }
    } else if m == 4 || m == 6 || m == 9 || m == 11 {
        30
    } else {
        31
    }
}

/// The number of days from the start of 1970 to the start of the year `y`.
pub open spec fn days_before_year(y: int) -> int
    decreases y,
{
    if y <= 1970 {
        0
    } else {
        days_before_year(y - 1) + days_in_year(y - 1)
    }
}

/// The number of days from the start of the year to the start of the month `m`.
pub open spec fn days_before_month(y: int, m: int) -> int
    decreases m,
{
    if m <= 1 {
        0
    } else {
        days_before_month(y, m - 1) + days_in_month(y, m - 1)
    }
}

/// Whether the calendar has such a day.
pub open spec fn is_date(y: int, m: int, d: int) -> bool {
    y >= 1970 && 1 <= m <= 12 && 1 <= d <= days_in_month(y, m)
}

/// The number of days from the start of 1970 to a date.
pub open spec fn day_number(y: int, m: int, d: int) -> int {
    days_before_year(y) + days_before_month(y, m) + d - 1
}

proof fn lemma_year_length(y: int)
    ensures
        days_before_month(y, 13) == days_in_year(y),
{
    reveal_with_fuel(days_before_month, 13);
}

proof fn lemma_months_grow(y: int, m: int, n: int)
    requires
        1 <= m <= n,
    ensures
        days_before_month(y, m) <= days_before_month(y, n),
        m < n ==> days_before_month(y, m) + days_in_month(y, m) <= days_before_month(y, n),
    decreases n,
{
    if m < n {
        lemma_months_grow(y, m, n - 1);
    }
}

proof fn lemma_years_grow(x: int, y: int)
    requires
        1970 <= x <= y,
    ensures
        days_before_year(x) <= days_before_year(y),
        x < y ==> days_before_year(x) + days_in_year(x) <= days_before_year(y),
        days_before_year(y) >= 365 * (y - 1970),
    decreases y,
{
    if x < y {
        lemma_years_grow(x, y - 1);
    } else if y > 1970 {
        lemma_years_grow(1970, y - 1);
    }
}

/// Two dates with the same number are the same: a number names one date.
pub proof fn day_numbers_are_distinct(y: int, m: int, d: int, y2: int, m2: int, d2: int)
    requires
        is_date(y, m, d),
        is_date(y2, m2, d2),
        day_number(y, m, d) == day_number(y2, m2, d2),
    ensures
        y == y2,
        m == m2,
        d == d2,
{
    lemma_within_year(y, m, d);
    lemma_within_year(y2, m2, d2);
    if y < y2 {
        lemma_years_grow(y, y2);
    } else if y2 < y {
        lemma_years_grow(y2, y);
    } else if m < m2 {
        lemma_months_grow(y, m, m2);
    } else if m2 < m {
        lemma_months_grow(y, m2, m);
    }
}

proof fn lemma_within_year(y: int, m: int, d: int)
    requires
        is_date(y, m, d),
    ensures
        0 <= days_before_month(y, m) + d - 1 < days_in_year(y),
{
    lemma_months_grow(y, m, 13);
    lemma_months_grow(y, 1, m);
    lemma_year_length(y);
}

/// Whether a year is a leap year.
pub fn is_leap(y: u64) -> (b: bool)
    ensures
        b == leap(y as int),
{
    (y % 4 == 0 && y % 100 != 0) || y % 400 == 0
}

fn month_days(y: u64, m: u64) -> (n: u64)
    ensures
        n == days_in_month(y as int, m as int),
{
    if m == 2 {
        if is_leap(y) {
            29
        } else {
            28
        }
    } else if m == 4 || m == 6 || m == 9 || m == 11 {
        30
    } else {
        31
    }
}

/// The date that is `days` days after the start of 1970: year, month, day.
pub fn days_to_ymd(days: u64) -> (r: (u64, u64, u64))
    ensures
        is_date(r.0 as int, r.1 as int, r.2 as int),
        day_number(r.0 as int, r.1 as int, r.2 as int) == days,
{
    let mut left: u64 = days;
    let mut year: u64 = 1970;
    let mut length: u64 = 365;
    while left >= length
        invariant
            1970 <= year,
            length == days_in_year(year as int),
            left + days_before_year(year as int) == days,
        decreases left,
    {
        left = left - length;
        proof {
            lemma_years_grow(1970, year as int);
            assert(days_before_year(year + 1) == days_before_year(year as int) + days_in_year(
                year as int,
            ));
        }
        year = year + 1;
        length = if is_leap(year) { 366 } else { 365 };
    }
    let mut month: u64 = 1;
    let ghost in_year = left;
    proof {
        lemma_year_length(year as int);
    }
    while month < 12 && left >= month_days(year, month)
        invariant
            1 <= month <= 12,
            in_year < days_in_year(year as int),
            days_before_month(year as int, 13) == days_in_year(year as int),
            left + days_before_month(year as int, month as int) == in_year,
        decreases 12 - month,
    {
        left = left - month_days(year, month);
        month = month + 1;
    }
    (year, month, left + 1)
}

/// A moment as the calendar and the clock show it, in UTC.
#[derive(Debug, Clone, Copy, PartialEq, Eq, Structural)]
pub struct Moment {
    pub year: u64,
    pub month: u64,
    pub day: u64,
    pub hour: u64,
    pub minute: u64,
    pub second: u64,
}

/// Whether `t` is the moment that is `secs` seconds after the start of 1970.
pub open spec fn is_moment(t: Moment, secs: int) -> bool {
    &&& is_date(t.year as int, t.month as int, t.day as int)
    &&& t.hour < 24
    &&& t.minute < 60
    &&& t.second < 60
    &&& secs == ((day_number(t.year as int, t.month as int, t.day as int) * 24 + t.hour) * 60
        + t.minute) * 60 + t.second
}

/// The moment that is `secs` seconds after the start of 1970.
pub fn epoch_to_ymd_hms(secs: u64) -> (t: Moment)
    ensures
        is_moment(t, secs as int),
{
    let second = secs % 60;
    let mins = secs / 60;
    let minute = mins % 60;
    let hours = mins / 60;
    let hour = hours % 24;
    let days = hours / 24;
    let (year, month, day) = days_to_ymd(days);
    Moment { year, month, day, hour, minute, second }
}

/// A number of seconds names one moment.
pub proof fn moments_are_distinct(a: Moment, b: Moment, secs: int)
    requires
        is_moment(a, secs),
        is_moment(b, secs),
    ensures
        a == b,
{
    let x = day_number(a.year as int, a.month as int, a.day as int);
    let y = day_number(b.year as int, b.month as int, b.day as int);
    assert(x == y);
    day_numbers_are_distinct(
        a.year as int,
        a.month as int,
        a.day as int,
        b.year as int,
        b.month as int,
        b.day as int,
    );
}

/// `n` zeros.
pub open spec fn zeros(n: int) -> Seq<char>
    decreases n,
{
    if n <= 0 {
        Seq::empty()
    } else {
        seq!['0'] + zeros(n - 1)
    }
}

/// A number in at least `width` digits.
pub open spec fn padded(n: nat, width: int) -> Seq<char> {
    zeros(width - text::decimal(n).len()) + text::decimal(n)
}

fn padded_string(n: u64, width: usize) -> (s: String)
    ensures
        s@ == padded(n as nat, width as int),
{
    let digits = text::decimal_string(n);
    let mut s = String::new();
    let mut k: usize = digits.as_str().unicode_len();
    let ghost len = k as int;
    let ghost full = zeros(width - len);
    assert(s@ + zeros(width - k) =~= full);
    while k < width
        invariant
            s@ + zeros(width - k) == full,
        decreases width - k,
    {
        let ghost before = s@;
        s.push('0');
        k = k + 1;
        proof {
            assert(before + (seq!['0'] + zeros(width - k)) =~= before.push('0') + zeros(width - k));
        }
    }
    assert(s@ =~= full);
    s.append(digits.as_str());
    s
}

/// A moment as text that sorts by time and can stand in a file name, such as
/// `20250131T235959Z`.
pub open spec fn stamp_text(t: Moment) -> Seq<char> {
    padded(t.year as nat, 4) + padded(t.month as nat, 2) + padded(t.day as nat, 2) + "T"@ + padded(
        t.hour as nat,
        2,
    ) + padded(t.minute as nat, 2) + padded(t.second as nat, 2) + "Z"@
}

/// A moment as text that can stand in a file name.
pub fn stamp(t: &Moment) -> (s: String)
    ensures
        s@ == stamp_text(*t),
{
    let mut s = padded_string(t.year, 4);
    s.append(padded_string(t.month, 2).as_str());
    s.append(padded_string(t.day, 2).as_str());
    s.append("T");
    s.append(padded_string(t.hour, 2).as_str());
    s.append(padded_string(t.minute, 2).as_str());
    s.append(padded_string(t.second, 2).as_str());
    s.append("Z");
    s
}

} // verus!
