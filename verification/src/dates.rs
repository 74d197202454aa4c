//! Calendar logic for upload dates: strict `YYYYMMDD` parsing, conversion
//! between calendar dates and days since the epoch, and RFC 2822 rendering
//! of a date at UTC midnight.

use vstd::prelude::*;
use vstd::string::*;
use crate::text::dec_digits;
use crate::text::push_decimal;

verus! {

/// A calendar date, year 0 through 9999.
#[derive(Debug, Clone, Copy, PartialEq, Eq, Structural)]
pub struct Date {
    pub year: u32,
    pub month: u32,
    pub day: u32,
}

/// Gregorian leap-year rule.
pub open spec fn is_leap_year(y: int) -> bool {
    y % 4 == 0 && (y % 100 != 0 || y % 400 == 0)
}

/// Days in a year.
pub open spec fn year_length(y: int) -> int {
    if is_leap_year(y) {
        366
    } else {
        365
    }
}

/// Days in a month of a year.
pub open spec fn days_in_month(y: int, m: int) -> int {
    if m == 2 {
        if is_leap_year(y) {
            29
        } else {
            28
        }
    } else if m == 4 || m == 6 || m == 9 || m == 11 {
        30
    } else {
        31
    }
}

/// A calendar date this library accepts: four-digit year, real month and a
/// day the month has.
pub open spec fn valid_date(y: int, m: int, d: int) -> bool {
    0 <= y <= 9999 && 1 <= m <= 12 && 1 <= d <= days_in_month(y, m)
}

/// Days from the epoch (1970-01-01) to the start of year `y`; negative for
/// years before 1970.
pub open spec fn days_before_year(y: int) -> int
    decreases
            (if y >= 1970 {
                y - 1970
            } else {
                1970 - y
            }),
    when 0 <= y <= 10000
{
    if y == 1970 {
        0
    } else if y > 1970 {
        days_before_year(y - 1) + year_length(y - 1)
    } else {
        days_before_year(y + 1) - year_length(y)
    }
}

/// Days from the start of year `y` to the start of month `m` of that year.
pub open spec fn days_before_month(y: int, m: int) -> int
    decreases m,
    when 1 <= m <= 13
{
    if m <= 1 {
        0
    } else {
        days_before_month(y, m - 1) + days_in_month(y, m - 1)
    }
}

/// The day number of a date: days since 1970-01-01, negative before it.
pub open spec fn date_day_number(y: int, m: int, d: int) -> int {
    days_before_year(y) + days_before_month(y, m) + d - 1
}

pub proof fn lemma_days_before_year_bounds(y: int)
    requires
        0 <= y <= 10000,
    ensures
        y >= 1970 ==> 0 <= days_before_year(y) <= 366 * (y - 1970),
        y <= 1970 ==> -(366 * (1970 - y)) <= days_before_year(y) <= 0,
    decreases
            (if y >= 1970 {
                y - 1970
            } else {
                1970 - y
            }),
{
    if y > 1970 {
        lemma_days_before_year_bounds(y - 1);
    } else if y < 1970 {
        lemma_days_before_year_bounds(y + 1);
    }
}

pub proof fn lemma_days_before_year_monotonic(y1: int, y2: int)
    requires
        0 <= y1 <= y2 <= 10000,
    ensures
        days_before_year(y1) <= days_before_year(y2),
        days_before_year(y1) + 365 * (y2 - y1) <= days_before_year(y2),
    decreases y2 - y1,
{
    if y1 < y2 {
        lemma_days_before_year_monotonic(y1, y2 - 1);
        lemma_days_before_year_bounds(y2);
        if y2 - 1 >= 1970 {
            assert(days_before_year(y2) == days_before_year(y2 - 1) + year_length(y2 - 1));
        } else {
            assert(days_before_year(y2 - 1) == days_before_year(y2) - year_length(y2 - 1));
        }
    }
}

pub proof fn lemma_days_before_month_bounds(y: int, m: int)
    requires
        1 <= m <= 13,
    ensures
        0 <= days_before_month(y, m) <= 366,
        m <= 12 ==> days_before_month(y, m) + days_in_month(y, m) <= year_length(y),
    decreases m,
{
    reveal_with_fuel(days_before_month, 14);
}

/// The months of a year sum to its length.
pub proof fn lemma_year_months_sum(y: int)
    ensures
        days_before_month(y, 13) == year_length(y),
{
    reveal_with_fuel(days_before_month, 14);
}

fn leap_year(y: u32) -> (r: bool)
    ensures
        r == is_leap_year(y as int),
{
    y % 4 == 0 && (y % 100 != 0 || y % 400 == 0)
}

fn year_length_x(y: u32) -> (r: u32)
    ensures
        r == year_length(y as int),
{
    if leap_year(y) {
        366
    } else {
        365
    }
}

fn days_in_month_x(y: u32, m: u32) -> (r: u32)
    requires
        1 <= m <= 12,
    ensures
        r == days_in_month(y as int, m as int),
{
    if m == 2 {
        if leap_year(y) {
            29
        } else {
            28
        }
    } else if m == 4 || m == 6 || m == 9 || m == 11 {
        30
    } else {
        31
    }
}

/// The day number of a valid date, as an executable computation.
pub fn day_number(date: &Date) -> (r: i64)
    requires
        valid_date(date.year as int, date.month as int, date.day as int),
    ensures
        r == date_day_number(date.year as int, date.month as int, date.day as int),
{
    let mut acc: i64 = 0;
    if date.year >= 1970 {
        let mut y: u32 = 1970;
        while y < date.year
            invariant
                1970 <= y <= date.year,
                date.year <= 9999,
                acc == days_before_year(y as int),
            decreases date.year - y,
        {
            proof {
                lemma_days_before_year_bounds(y as int);
                lemma_days_before_year_bounds(y + 1);
            }
            acc = acc + year_length_x(y) as i64;
            y = y + 1;
        }
    } else {
        let mut y: u32 = 1970;
        while y > date.year
            invariant
                date.year <= y <= 1970,
                acc == days_before_year(y as int),
            decreases y,
        {
            proof {
                lemma_days_before_year_bounds(y as int);
                lemma_days_before_year_bounds(y - 1);
            }
            y = y - 1;
            acc = acc - year_length_x(y) as i64;
        }
    }
    proof {
        lemma_days_before_year_bounds(date.year as int);
    }
    let mut m: u32 = 1;
    while m < date.month
        invariant
            1 <= m <= date.month,
            valid_date(date.year as int, date.month as int, date.day as int),
            acc == days_before_year(date.year as int) + days_before_month(date.year as int, m as int),
        decreases date.month - m,
    {
        proof {
            lemma_days_before_year_bounds(date.year as int);
            lemma_days_before_month_bounds(date.year as int, m as int);
            lemma_days_before_month_bounds(date.year as int, m + 1);
        }
        acc = acc + days_in_month_x(date.year, m) as i64;
        m = m + 1;
    }
    proof {
        lemma_days_before_year_bounds(date.year as int);
        lemma_days_before_month_bounds(date.year as int, date.month as int);
    }
    acc + date.day as i64 - 1
}

/// An ASCII decimal digit.
pub open spec fn is_digit(c: char) -> bool {
    '0' <= c && c <= '9'
}

/// The value of an ASCII decimal digit.
pub open spec fn digit_value(c: char) -> int {
    c as u32 - 48
}

/// Strict `YYYYMMDD` parsing: exactly eight ASCII digits that form a valid
/// calendar date; anything else is rejected.
pub open spec fn parse_date_spec(s: Seq<char>) -> Option<(int, int, int)> {
    if s.len() == 8 && (forall|i: int| 0 <= i < 8 ==> is_digit(#[trigger] s[i])) {
        let y = digit_value(s[0]) * 1000 + digit_value(s[1]) * 100 + digit_value(s[2]) * 10
            + digit_value(s[3]);
        let m = digit_value(s[4]) * 10 + digit_value(s[5]);
        let d = digit_value(s[6]) * 10 + digit_value(s[7]);
        if valid_date(y, m, d) {
            Option::Some((y, m, d))
        } else {
            Option::None
        }
    } else {
        Option::None
    }
}

fn digit_at(s: &str, i: usize, len: usize) -> (r: Option<u32>)
    requires
        len == s@.len(),
        i < len,
    ensures
        r is Some <==> is_digit(s@[i as int]),
        r matches Some(v) ==> v == digit_value(s@[i as int]) && v <= 9,
    {
    let c = s.get_char(i);
    if '0' <= c && c <= '9' {
        Some(c as u32 - 48)
    } else {
        None
    }
}

/// Parses an upload date in strict `YYYYMMDD` form; returns the date exactly
/// when the text is eight digits forming a valid calendar date.
pub fn parse_upload_date(s: &str) -> (r: Option<Date>)
    ensures
        r is Some <==> parse_date_spec(s@) is Some,
        r matches Some(date) ==> parse_date_spec(s@) == Option::Some(
            (date.year as int, date.month as int, date.day as int),
        ) && valid_date(date.year as int, date.month as int, date.day as int),
{
    let len = s.unicode_len();
    if len != 8 {
        return None;
    }
    let mut digits: [u32; 8] = [0; 8];
    let mut i: usize = 0;
    while i < 8
        invariant
            0 <= i <= 8,
            len == s@.len(),
            s@.len() == 8,
            forall|k: int| 0 <= k < i ==> is_digit(#[trigger] s@[k]),
            forall|k: int| 0 <= k < i ==> digits@[k] == digit_value(#[trigger] s@[k]),
            forall|k: int| 0 <= k < i ==> digits@[k] <= 9,
        decreases 8 - i,
    {
        match digit_at(s, i, len) {
            Some(v) => {
                digits[i] = v;
            },
            None => {
                return None;
            },
        }
        i += 1;
    }
    let y = digits[0] * 1000 + digits[1] * 100 + digits[2] * 10 + digits[3];
    let m = digits[4] * 10 + digits[5];
    let d = digits[6] * 10 + digits[7];
    let month_days = if 1 <= m && m <= 12 {
        days_in_month_x(y, m)
    } else {
        0
    };
    if 1 <= m && m <= 12 && 1 <= d && d <= month_days {
        assert(valid_date(y as int, m as int, d as int));
        Some(Date { year: y, month: m, day: d })
    } else {
        assert(parse_date_spec(s@) is None);
        None
    }
}

/// Weekday of a day number, 0 for Sunday through 6 for Saturday. The shift
/// keeps the dividend non-negative for every representable date (the epoch,
/// day 0, was a Thursday: result 4).
pub open spec fn weekday_of_day(days: int) -> int {
    (days + 721312) % 7
}

fn weekday_x(days: i64) -> (r: u64)
    requires
        -721100 <= days <= 3000000,
    ensures
        r == weekday_of_day(days as int),
        r <= 6,
{
    ((days + 721312) as u64) % 7
}

/// Three-letter weekday name, as RFC 2822 uses.
pub open spec fn weekday_name(w: int) -> Seq<char> {
    if w == 0 {
        "Sun"@
    } else if w == 1 {
        "Mon"@
    } else if w == 2 {
        "Tue"@
    } else if w == 3 {
        "Wed"@
    } else if w == 4 {
        "Thu"@
    } else if w == 5 {
        "Fri"@
    } else {
        "Sat"@
    }
}

fn weekday_name_x(w: u64) -> (r: &'static str)
    requires
        w <= 6,
    ensures
        r@ == weekday_name(w as int),
{
    if w == 0 {
        "Sun"
    } else if w == 1 {
        "Mon"
    } else if w == 2 {
        "Tue"
    } else if w == 3 {
        "Wed"
    } else if w == 4 {
        "Thu"
    } else if w == 5 {
        "Fri"
    } else {
        "Sat"
    }
}

/// Three-letter month name, as RFC 2822 uses.
pub open spec fn month_name(m: int) -> Seq<char> {
    if m == 1 {
        "Jan"@
    } else if m == 2 {
        "Feb"@
    } else if m == 3 {
        "Mar"@
    } else if m == 4 {
        "Apr"@
    } else if m == 5 {
        "May"@
    } else if m == 6 {
        "Jun"@
    } else if m == 7 {
        "Jul"@
    } else if m == 8 {
        "Aug"@
    } else if m == 9 {
        "Sep"@
    } else if m == 10 {
        "Oct"@
    } else if m == 11 {
        "Nov"@
    } else {
        "Dec"@
    }
}

fn month_name_x(m: u32) -> (r: &'static str)
    requires
        1 <= m <= 12,
    ensures
        r@ == month_name(m as int),
{
    if m == 1 {
        "Jan"
    } else if m == 2 {
        "Feb"
    } else if m == 3 {
        "Mar"
    } else if m == 4 {
        "Apr"
    } else if m == 5 {
        "May"
    } else if m == 6 {
        "Jun"
    } else if m == 7 {
        "Jul"
    } else if m == 8 {
        "Aug"
    } else if m == 9 {
        "Sep"
    } else if m == 10 {
        "Oct"
    } else if m == 11 {
        "Nov"
    } else {
        "Dec"
    }
}

/// A number padded to at least two digits with leading zeros.
pub open spec fn padded2(n: nat) -> Seq<char> {
    if n < 10 {
        seq!['0'] + dec_digits(n)
    } else {
        dec_digits(n)
    }
}

/// A number padded to at least four digits with leading zeros.
pub open spec fn padded4(n: nat) -> Seq<char> {
    if n < 10 {
        seq!['0', '0', '0'] + dec_digits(n)
    } else if n < 100 {
        seq!['0', '0'] + dec_digits(n)
    } else if n < 1000 {
        seq!['0'] + dec_digits(n)
    } else {
        dec_digits(n)
    }
}

/// The RFC 2822 rendering of a valid date at UTC midnight, such as
/// `Thu, 01 Jan 1970 00:00:00 +0000`.
pub open spec fn rfc2822_spec(y: int, m: int, d: int) -> Seq<char> {
    weekday_name(weekday_of_day(date_day_number(y, m, d))) + ", "@ + padded2(d as nat) + " "@
        + month_name(m) + " "@ + padded4(y as nat) + " 00:00:00 +0000"@
}

/// Renders a valid date as an RFC 2822 timestamp at UTC midnight.
pub fn rfc2822_utc_midnight(date: &Date) -> (r: String)
    requires
        valid_date(date.year as int, date.month as int, date.day as int),
    ensures
        r@ == rfc2822_spec(date.year as int, date.month as int, date.day as int),
{
    let days = day_number(date);
    proof {
        lemma_days_before_year_bounds(date.year as int);
        lemma_days_before_month_bounds(date.year as int, date.month as int);
    }
    let wd = weekday_x(days);
    let mut out = String::new();
    out.append(weekday_name_x(wd));
    out.append(", ");
    if date.day < 10 {
        out.push('0');
    }
    push_decimal(&mut out, date.day as u64);
    out.append(" ");
    out.append(month_name_x(date.month));
    out.append(" ");
    if date.year < 10 {
        out.push('0');
        out.push('0');
        out.push('0');
    } else if date.year < 100 {
        out.push('0');
        out.push('0');
    } else if date.year < 1000 {
        out.push('0');
    }
    push_decimal(&mut out, date.year as u64);
    out.append(" 00:00:00 +0000");
    assert(out@ =~= rfc2822_spec(date.year as int, date.month as int, date.day as int));
    out
}

/// The calendar date of a non-negative day number: the inverse of
/// `day_number` for dates from the epoch through year 9999.
pub fn civil_of_day_number(days: i64) -> (r: Date)
    requires
        0 <= days,
        days <= date_day_number(9999, 12, 31),
    ensures
        valid_date(r.year as int, r.month as int, r.day as int),
        date_day_number(r.year as int, r.month as int, r.day as int) == days,
{
    let mut y: u32 = 1970;
    let mut rem: i64 = days;
    proof {
        lemma_days_before_year_bounds(9999);
        lemma_days_before_month_bounds(9999, 12);
    }
    loop
        invariant
            1970 <= y <= 9999,
            rem == days - days_before_year(y as int),
            0 <= rem,
            days <= date_day_number(9999, 12, 31),
        ensures
            1970 <= y <= 9999,
            rem == days - days_before_year(y as int),
            0 <= rem < year_length(y as int),
        decreases date_day_number(9999, 12, 31) - days_before_year(y as int) + 366,
    {
        let yl = year_length_x(y);
        if rem < yl as i64 {
            break ;
        }
        proof {
            // the year cannot run past 9999: everything through year 9999
            // fits below the start of year 10000
            lemma_year_months_sum(9999);
            lemma_days_before_month_bounds(9999, 12);
            if y == 9999 {
                assert(days_before_year(10000) == days_before_year(9999) + year_length(9999));
                assert(date_day_number(9999, 12, 31) < days_before_year(10000));
                assert(false);
            }
            lemma_days_before_year_bounds(y as int);
            lemma_days_before_year_monotonic(y as int, 10000);
        }
        rem = rem - yl as i64;
        y = y + 1;
        proof {
            assert(days_before_year(y as int) == days_before_year(y - 1) + year_length(y - 1));
        }
    }
    let mut m: u32 = 1;
    loop
        invariant
            1 <= m <= 12,
            1970 <= y <= 9999,
            rem == days - days_before_year(y as int) - days_before_month(y as int, m as int),
            0 <= rem,
            days - days_before_year(y as int) < year_length(y as int),
        ensures
            1 <= m <= 12,
            rem == days - days_before_year(y as int) - days_before_month(y as int, m as int),
            0 <= rem < days_in_month(y as int, m as int),
        decreases 12 - m,
    {
        let dim = days_in_month_x(y, m);
        if rem < dim as i64 {
            break ;
        }
        proof {
            lemma_days_before_month_bounds(y as int, m as int);
            if m == 12 {
                lemma_year_months_sum(y as int);
                assert(false);
            }
            lemma_days_before_month_bounds(y as int, m + 1);
        }
        rem = rem - dim as i64;
        m = m + 1;
    }
    let d: u32 = (rem + 1) as u32;
    Date { year: y, month: m, day: d }
}

} // verus!
