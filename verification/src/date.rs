//! Calendar dates of Unix timestamps (proleptic Gregorian, UTC), and their
//! `YYYY-MM-DD` text.

use vstd::prelude::*;

use crate::text::string_of;

verus! {

// ---------------------------------------------------------------------------
// The calendar
// ---------------------------------------------------------------------------

/// Gregorian leap year: divisible by 4 and not by 100, or divisible by 400.
pub open spec fn leap(y: int) -> bool {
    (y % 4 == 0 && y % 100 != 0) || y % 400 == 0
}

/// Days in year `y`.
pub open spec fn year_len(y: int) -> int {
    if leap(y) {
        366
    } else {
        365
    }
}

/// Days in month `m` (1 to 12) of year `y`.
pub open spec fn month_len(y: int, m: int) -> int {
    if m == 2 {
        if leap(y) {
            29
        } else {
            28
        }
    } else if m == 4 || m == 6 || m == 9 || m == 11 {
        30
    } else {
        31
    }
}

/// Days from 1970-01-01 to the first day of year `y`.
pub open spec fn days_before_year(y: int) -> int
    decreases y - 1970,
{
    if y <= 1970 {
        0
    } else {
        days_before_year(y - 1) + year_len(y - 1)
    }
}

/// Days from the first of January to the first of month `m` in year `y`.
pub open spec fn days_before_month(y: int, m: int) -> int
    decreases m,
{
    if m <= 1 {
        0
    } else {
        days_before_month(y, m - 1) + month_len(y, m - 1)
    }
}

/// `y-m-d` is a valid date, `days` days after 1970-01-01.
pub open spec fn is_civil_date(days: int, y: int, m: int, d: int) -> bool {
    &&& 1970 <= y
    &&& 1 <= m <= 12
    &&& 1 <= d <= month_len(y, m)
    &&& days == days_before_year(y) + days_before_month(y, m) + d - 1
}

/// The twelve months fill the year.
proof fn lemma_months_fill_year(y: int)
    ensures
        days_before_month(y, 13) == year_len(y),
        forall|m: int| 1 <= m <= 12 ==> days_before_month(y, m) + month_len(y, m) == #[trigger] days_before_month(y, m + 1),
{
    reveal_with_fuel(days_before_month, 13);
}

/// Later years start later.
proof fn lemma_days_before_year_mono(a: int, b: int)
    requires
        1970 <= a <= b,
    ensures
        days_before_year(a) <= days_before_year(b),
    decreases b - a,
{
    if a < b {
        lemma_days_before_year_mono(a, b - 1);
    }
}

/// Later months start later in the year.
proof fn lemma_days_before_month_mono(y: int, a: int, b: int)
    requires
        1 <= a < b <= 13,
    ensures
        days_before_month(y, a) + month_len(y, a) <= days_before_month(y, b),
    decreases b - a,
{
    if a + 1 < b {
        lemma_days_before_month_mono(y, a + 1, b);
    }
    lemma_months_fill_year(y);
    assert(days_before_month(y, a) + month_len(y, a) == days_before_month(y, a + 1));
}

/// Each day count names exactly one date.
pub proof fn law_date_unique(days: int, y1: int, m1: int, d1: int, y2: int, m2: int, d2: int)
    requires
        is_civil_date(days, y1, m1, d1),
        is_civil_date(days, y2, m2, d2),
    ensures
        y1 == y2 && m1 == m2 && d1 == d2,
{
    lemma_months_fill_year(y1);
    lemma_months_fill_year(y2);
    if m1 < 13 {
        lemma_days_before_month_mono(y1, m1, 13);
    }
    if m2 < 13 {
        lemma_days_before_month_mono(y2, m2, 13);
    }
    if m1 > 1 {
        lemma_days_before_month_mono(y1, 1, m1);
    }
    if m2 > 1 {
        lemma_days_before_month_mono(y2, 1, m2);
    }
    assert(days < days_before_year(y1 + 1));
    assert(days < days_before_year(y2 + 1));
    if y1 < y2 {
        lemma_days_before_year_mono(y1 + 1, y2);
    }
    if y2 < y1 {
        lemma_days_before_year_mono(y2 + 1, y1);
    }
    assert(y1 == y2);
    if m1 < m2 {
        lemma_days_before_month_mono(y1, m1, m2);
    }
    if m2 < m1 {
        lemma_days_before_month_mono(y1, m2, m1);
    }
}

// ---------------------------------------------------------------------------
// Conversion
// ---------------------------------------------------------------------------

/// Whether `year` is a leap year.
pub fn is_leap(year: u32) -> (b: bool)
    ensures
        b == leap(year as int),
{
    (year % 4 == 0 && year % 100 != 0) || year % 400 == 0
}

/// The date `days` days after 1970-01-01, as (year, month, day).
pub fn civil_from_days(days: u64) -> (r: (u32, u32, u64))
    requires
        days < days_before_year(u32::MAX as int),
    ensures
        is_civil_date(days as int, r.0 as int, r.1 as int, r.2 as int),
{
    let mut year: u32 = 1970;
    let mut remaining: u64 = days;
    loop
        invariant
            1970 <= year,
            days < days_before_year(u32::MAX as int),
            days == days_before_year(year as int) + remaining,
        ensures
            1970 <= year,
            days == days_before_year(year as int) + remaining,
            remaining < year_len(year as int),
        decreases remaining,
    {
        let days_in_year: u64 = if is_leap(year) {
            366
        } else {
            365
        };
        if remaining < days_in_year {
            break;
        }
        proof {
            if year as int + 1 >= u32::MAX as int {
                lemma_days_before_year_mono(year as int + 1, u32::MAX as int);
            }
        }
        remaining = remaining - days_in_year;
        year = year + 1;
    }
    let leap_year = is_leap(year);
    let mut month: u32 = 1;
    proof {
        lemma_months_fill_year(year as int);
    }
    loop
        invariant
            1 <= month <= 12,
            leap_year == leap(year as int),
            1970 <= year,
            days == days_before_year(year as int) + days_before_month(year as int, month as int)
                + remaining,
            days_before_month(year as int, month as int) + remaining < year_len(year as int),
            days_before_month(year as int, 13) == year_len(year as int),
            forall|m: int|
                1 <= m <= 12 ==> days_before_month(year as int, m) + month_len(year as int, m)
                    == #[trigger] days_before_month(year as int, m + 1),
        ensures
            1 <= month <= 12,
            days == days_before_year(year as int) + days_before_month(year as int, month as int)
                + remaining,
            remaining < month_len(year as int, month as int),
        decreases 12 - month,
    {
        let md: u64 = if month == 2 {
            if leap_year {
                29
            } else {
                28
            }
        } else if month == 4 || month == 6 || month == 9 || month == 11 {
            30
        } else {
            31
        };
        if remaining < md {
            break;
        }
        remaining = remaining - md;
        month = month + 1;
    }
    (year, month, remaining + 1)
}

// ---------------------------------------------------------------------------
// Text
// ---------------------------------------------------------------------------

/// The decimal digit for `d` (0 to 9).
pub open spec fn digit_char(d: int) -> char {
    (48 + d) as char
}

/// Decimal digits of `n`, most significant first, without leading zeros
/// (`0` gives "0").
pub open spec fn decimal(n: nat) -> Seq<char>
    decreases n,
{
    if n < 10 {
        seq![digit_char(n as int)]
    } else {
        decimal(n / 10).push(digit_char((n % 10) as int))
    }
}

/// `s` preceded by zeros up to `width` characters.
pub open spec fn zero_pad(s: Seq<char>, width: int) -> Seq<char> {
    Seq::new((if width > s.len() { width - s.len() } else { 0 }) as nat, |i: int| '0') + s
}

/// `YYYY-MM-DD`: each part zero-padded (the year to at least four digits).
pub open spec fn date_text(y: nat, m: nat, d: nat) -> Seq<char> {
    zero_pad(decimal(y), 4) + seq!['-'] + zero_pad(decimal(m), 2) + seq!['-'] + zero_pad(
        decimal(d),
        2,
    )
}

/// Append the decimal digits of `n`.
pub(crate) fn push_decimal(out: &mut Vec<char>, n: u64)
    ensures
        final(out)@ == old(out)@ + decimal(n as nat),
    decreases n,
{
    if n >= 10 {
        push_decimal(out, n / 10);
    }
    let d = (n % 10) as u8;
    let c = (48 + d) as char;
    proof {
        assert(c == digit_char((n % 10) as int));
    }
    out.push(c);
    proof {
        if n >= 10 {
            assert(out@ =~= old(out)@ + decimal(n as nat));
        } else {
            assert(out@ =~= old(out)@ + decimal(n as nat));
        }
    }
}

/// Append `n` in decimal, zero-padded to at least `width` digits.
fn push_padded(out: &mut Vec<char>, n: u64, width: usize)
    ensures
        final(out)@ == old(out)@ + zero_pad(decimal(n as nat), width as int),
{
    let ghost o0 = out@;
    let mut digits: Vec<char> = Vec::new();
    push_decimal(&mut digits, n);
    assert(digits@ =~= decimal(n as nat));
    let k = digits.len();
    let zeros: usize = if width > k {
        width - k
    } else {
        0
    };
    let mut i: usize = 0;
    while i < zeros
        invariant
            i <= zeros,
            out@ == o0 + Seq::new(i as nat, |j: int| '0'),
        decreases zeros - i,
    {
        out.push('0');
        proof {
            assert(out@ =~= o0 + Seq::new((i + 1) as nat, |j: int| '0'));
        }
        i = i + 1;
    }
    let ghost o1 = out@;
    let mut t: usize = 0;
    while t < k
        invariant
            k == digits@.len(),
            t <= k,
            out@ == o1 + digits@.subrange(0, t as int),
        decreases k - t,
    {
        out.push(digits[t]);
        proof {
            assert(digits@.subrange(0, t + 1) =~= digits@.subrange(0, t as int).push(digits@[t as int]));
        }
        t = t + 1;
    }
    proof {
        assert(digits@.subrange(0, k as int) =~= digits@);
        assert(out@ =~= o0 + zero_pad(decimal(n as nat), width as int));
    }
}

/// Format a Unix timestamp (seconds) as `YYYY-MM-DD` (UTC).
pub fn format_date_from_secs(secs: u64) -> (s: String)
    requires
        secs / 86400 < days_before_year(u32::MAX as int),
    ensures
        exists|y: nat, m: nat, d: nat|
            is_civil_date((secs / 86400) as int, y as int, m as int, d as int) && s@
                == date_text(y, m, d),
{
    let days = secs / 86400;
    let (year, month, day) = civil_from_days(days);
    let mut out: Vec<char> = Vec::new();
    push_padded(&mut out, year as u64, 4);
    out.push('-');
    push_padded(&mut out, month as u64, 2);
    out.push('-');
    push_padded(&mut out, day, 2);
    let s = string_of(out.as_slice());
    proof {
        assert(s@ =~= date_text(year as nat, month as nat, day as nat));
        assert(is_civil_date(days as int, year as nat as int, month as nat as int, day as nat as int));
    }
    s
}

} // verus!
