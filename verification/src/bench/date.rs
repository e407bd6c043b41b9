//! The date of a report.

use vstd::prelude::*;

use crate::text;

verus! {

/// Whether a year has a day more.
pub open spec fn leap(y: int) -> bool {
    y % 4 == 0 && (y % 100 != 0 || y % 400 == 0)
}

/// The days of a year.
pub open spec fn year_days(y: int) -> int {
    if leap(y) {
        366
    } else {
        365
    }
}

/// The days of a month, January being 1.
pub open spec fn month_days(y: int, m: int) -> int {
    if m == 2 {
        if leap(y) {
            29
        } else {
            28
        }
    } else if m == 4 || m == 6 || m == 9 || m == 11 {
        30
    } else {
        31
    }
}

/// The days from the start of year 0 to the start of a year.
pub open spec fn days_before_year(y: int) -> int {
    365 * y + (y + 3) / 4 - (y + 99) / 100 + (y + 399) / 400
}

/// The days of a year before a month.
pub open spec fn days_before_month(y: int, m: int) -> int
    decreases m,
{
    if m <= 1 {
        0
    } else {
        days_before_month(y, m - 1) + month_days(y, m - 1)
    }
}

/// The days from the first of January 1970 to a date.
pub open spec fn day_number(y: int, m: int, d: int) -> int {
    days_before_year(y) - days_before_year(1970) + days_before_month(y, m) + d - 1
}

/// Whether there is such a date.
pub open spec fn is_date(y: int, m: int, d: int) -> bool {
    1 <= m <= 12 && 1 <= d <= month_days(y, m)
}

/// A year starts as many days after the one before as that one has.
pub proof fn law_years_follow(y: int)
    ensures
        days_before_year(y + 1) == days_before_year(y) + year_days(y),
        days_before_year(0) == 0,
{
}

/// The twelve months make up the year.
pub proof fn law_months_fill_years(y: int)
    ensures
        days_before_month(y, 13) == year_days(y),
{
    reveal_with_fuel(days_before_month, 14);
}

/// After 400 years the calendar repeats.
pub proof fn law_calendar_repeats(y: int)
    ensures
        days_before_year(y + 400) == days_before_year(y) + 146097,
        leap(y + 400) == leap(y),
{
}

proof fn lemma_month_within(y: int, m: int)
    requires
        1 <= m <= 13,
    ensures
        0 <= days_before_month(y, m) <= days_before_month(y, 13),
    decreases 13 - m,
{
    if m < 13 {
        lemma_month_within(y, m + 1);
    }
    lemma_month_nonnegative(y, m);
}

proof fn lemma_month_nonnegative(y: int, m: int)
    ensures
        0 <= days_before_month(y, m),
    decreases m,
{
    if m > 1 {
        lemma_month_nonnegative(y, m - 1);
    }
}

proof fn lemma_months_ordered(y: int, a: int, b: int)
    requires
        1 <= a < b <= 13,
    ensures
        days_before_month(y, a) + month_days(y, a) <= days_before_month(y, b),
    decreases b - a,
{
    if a + 1 < b {
        lemma_months_ordered(y, a, b - 1);
    }
}

proof fn lemma_years_ordered(a: int, b: int)
    requires
        a < b,
    ensures
        days_before_year(a) + year_days(a) <= days_before_year(b),
    decreases b - a,
{
    law_years_follow(b - 1);
    if a + 1 < b {
        lemma_years_ordered(a, b - 1);
    }
}

/// Different dates have different numbers.
pub proof fn law_dates_differ(y: int, m: int, d: int, y2: int, m2: int, d2: int)
    requires
        is_date(y, m, d),
        is_date(y2, m2, d2),
        day_number(y, m, d) == day_number(y2, m2, d2),
    ensures
        y == y2,
        m == m2,
        d == d2,
{
    law_months_fill_years(y);
    law_months_fill_years(y2);
    lemma_months_ordered(y, m, 13);
    lemma_months_ordered(y2, m2, 13);
    lemma_month_within(y, m);
    lemma_month_within(y2, m2);
    if y < y2 {
        lemma_years_ordered(y, y2);
    } else if y2 < y {
        lemma_years_ordered(y2, y);
    } else if m < m2 {
        lemma_months_ordered(y, m, m2);
    } else if m2 < m {
        lemma_months_ordered(y, m2, m);
    }
}

fn is_leap(y: u64) -> (r: bool)
    ensures
        r == leap(y as int),
{
    y % 4 == 0 && (y % 100 != 0 || y % 400 == 0)
}

fn length_of_year(y: u64) -> (r: u64)
    ensures
        r == year_days(y as int),
{
    if is_leap(y) {
        366
    } else {
        365
    }
}

fn length_of_month(y: u64, m: u64) -> (r: u64)
    ensures
        r == month_days(y as int, m as int),
{
    if m == 2 {
        if is_leap(y) {
            29
        } else {
            28
        }
    } else if m == 4 || m == 6 || m == 9 || m == 11 {
        30
    } else {
        31
    }
}

/// The date that is `days` days after the first of January 1970: year, month and day.
pub fn civil_from_days(days: u64) -> (r: (u64, u64, u64))
    requires
        days <= u64::MAX / 86400,
    ensures
        is_date(r.0 as int, r.1 as int, r.2 as int),
        day_number(r.0 as int, r.1 as int, r.2 as int) == days,
{
    let cycles: u64 = days / 146097;
    let mut left: u64 = days % 146097;
    let mut y: u64 = 1970 + 400 * cycles;
    proof {
        lemma_cycles(cycles as int);
    }
    while left >= length_of_year(y)
        invariant
            1970 <= y <= 1970 + 400 * cycles + 146097 - left,
            cycles <= u64::MAX / 86400,
            left < 146097,
            days == days_before_year(y as int) - days_before_year(1970) + left,
        decreases left,
    {
        proof {
            law_years_follow(y as int);
        }
        left = left - length_of_year(y);
        y = y + 1;
    }
    let mut m: u64 = 1;
    let mut d: u64 = left;
    loop
        invariant
            1 <= m <= 12,
            left < year_days(y as int),
            left == days_before_month(y as int, m as int) + d,
            days == days_before_year(y as int) - days_before_year(1970) + left,
        ensures
            1 <= m <= 12,
            d < month_days(y as int, m as int),
            left == days_before_month(y as int, m as int) + d,
            days == days_before_year(y as int) - days_before_year(1970) + left,
        decreases 12 - m,
    {
        let len: u64 = length_of_month(y, m);
        if d < len {
            break ;
        }
        proof {
            if m == 12 {
                law_months_fill_years(y as int);
            }
        }
        d = d - len;
        m = m + 1;
    }
    (y, m, d + 1)
}

proof fn lemma_cycles(c: int)
    requires
        0 <= c,
    ensures
        days_before_year(1970 + 400 * c) == days_before_year(1970) + 146097 * c,
    decreases c,
{
    if c > 0 {
        lemma_cycles(c - 1);
        law_calendar_repeats(1970 + 400 * (c - 1));
    }
}

/// A number with zeros in front, up to a width.
pub open spec fn padded(n: nat, width: nat) -> Seq<char> {
    let digits = text::decimal(n);
    if digits.len() < width {
        Seq::new((width - digits.len()) as nat, |i: int| '0') + digits
    } else {
        digits
    }
}

fn push_padded(out: &mut String, n: u64, width: usize)
    ensures
        final(out)@ == old(out)@ + padded(n as nat, width as nat),
{
    let digits: String = text::decimal_text(n);
    let len: usize = digits.as_str().unicode_len();
    let mut k: usize = len;
    proof {
        reveal_strlit("0");
        assert("0"@ =~= seq!['0']);
    }
    assert(out@ =~= old(out)@ + Seq::new(0, |i: int| '0'));
    while k < width
        invariant
            len == text::decimal(n as nat).len(),
            len <= k,
            k <= width || k == len,
            "0"@ == seq!['0'],
            out@ == old(out)@ + Seq::new((k - len) as nat, |i: int| '0'),
        decreases width - k,
    {
        out.append("0");
        k += 1;
        assert(out@ =~= old(out)@ + Seq::new((k - len) as nat, |i: int| '0'));
    }
    out.append(digits.as_str());
    assert(out@ =~= old(out)@ + padded(n as nat, width as nat));
}

/// A date in digits.
pub open spec fn date_text(y: int, m: int, d: int) -> Seq<char> {
    padded(y as nat, 4) + "-"@ + padded(m as nat, 2) + "-"@ + padded(d as nat, 2)
}

/// The date, in digits, of a time given in seconds after the start of 1970.
pub fn humantime_date(secs: u64) -> (r: String)
    ensures
        exists|y: int, m: int, d: int|
            is_date(y, m, d) && #[trigger] day_number(y, m, d) == secs / 86400 && r@ == date_text(y, m, d),
{
    let (y, m, d) = civil_from_days(secs / 86400);
    let mut out = String::new();
    push_padded(&mut out, y, 4);
    out.append("-");
    push_padded(&mut out, m, 2);
    out.append("-");
    push_padded(&mut out, d, 2);
    assert(out@ =~= date_text(y as int, m as int, d as int));
    assert(day_number(y as int, m as int, d as int) == secs / 86400);
    out
}

/// The calendar: the months' lengths, the leap years, and the days that follow each other from the
/// first of January 1970 on.
pub proof fn law_days_follow(y: int, m: int, d: int)
    ensures
        day_number(1970, 1, 1) == 0,
        day_number(y, m, d + 1) == day_number(y, m, d) + 1,
        1 <= m < 12 ==> day_number(y, m + 1, 1) == day_number(y, m, month_days(y, m)) + 1,
        day_number(y + 1, 1, 1) == day_number(y, 12, 31) + 1,
        month_days(y, 1) == 31 && month_days(y, 3) == 31 && month_days(y, 5) == 31 && month_days(y, 7) == 31,
        month_days(y, 8) == 31 && month_days(y, 10) == 31 && month_days(y, 12) == 31,
        month_days(y, 4) == 30 && month_days(y, 6) == 30 && month_days(y, 9) == 30 && month_days(y, 11) == 30,
        y % 4 != 0 ==> month_days(y, 2) == 28,
        y % 4 == 0 && y % 100 != 0 ==> month_days(y, 2) == 29,
        y % 100 == 0 && y % 400 != 0 ==> month_days(y, 2) == 28,
        y % 400 == 0 ==> month_days(y, 2) == 29,
{
    law_years_follow(y);
    law_months_fill_years(y);
    assert(days_before_month(y, 13) == days_before_month(y, 12) + month_days(y, 12));
    assert(days_before_month(y, m + 1) == days_before_month(y, m) + month_days(y, m) || m < 1);
}

/// A date is spelled with four digits, two and two, with zeros in front where there are fewer.
pub proof fn law_dates_are_spelled(y: int, m: int, d: int, n: nat, width: nat)
    ensures
        date_text(y, m, d) == padded(y as nat, 4) + "-"@ + padded(m as nat, 2) + "-"@ + padded(d as nat, 2),
        padded(n, width).len() >= width,
        padded(n, width).len() == (if text::decimal(n).len() < width { width } else { text::decimal(n).len() }),
        padded(n, width).skip(padded(n, width).len() - text::decimal(n).len()) == text::decimal(n),
        forall|i: int| 0 <= i < padded(n, width).len() - text::decimal(n).len() ==> #[trigger] padded(n, width)[i] == '0',
{
    let p = padded(n, width);
    assert(p.skip(p.len() - text::decimal(n).len()) =~= text::decimal(n));
}

} // verus!
