//! The calendar-date class: parsing of `YYYY-MM-DD`, validation against the
//! real calendar (month lengths, leap years), and the two renderings the
//! store needs (canonical ISO and local `DD/MM/YYYY`).

use crate::identifier::digit_val;
use crate::identifier::is_digit_char;
use vstd::prelude::*;
use vstd::string::StrSliceExecFns;
use vstd::string::StringExecFns;

verus! {

/// Leap years: divisible by 4, except centuries not divisible by 400.
pub open spec fn is_leap_year(y: int) -> bool {
    y % 4 == 0 && (y % 100 != 0 || y % 400 == 0)
}

/// Number of days of month `m` in year `y`.
pub open spec fn days_in_month(y: int, m: int) -> int {
    if m == 2 {
        if is_leap_year(y) {
            29
        } else {
            28
        }
    } else if m == 4 || m == 6 || m == 9 || m == 11 {
        30
    } else {
        31
    }
}

/// A real calendar date with a four-digit year.
pub open spec fn date_fields_valid(y: int, m: int, d: int) -> bool {
    &&& 0 <= y <= 9999
    &&& 1 <= m <= 12
    &&& 1 <= d <= days_in_month(y, m)
}

/// A calendar date, held as plain year, month and day numbers.
#[derive(Clone, Copy, PartialEq, Eq, Structural, Debug)]
pub struct Date {
    pub year: u32,
    pub month: u32,
    pub day: u32,
}

impl Date {
    /// The date exists in the real calendar.
    pub open spec fn wf(self) -> bool {
        date_fields_valid(self.year as int, self.month as int, self.day as int)
    }
}

/// The exact `YYYY-MM-DD` shape: ten characters, digits in the date
/// positions, dashes between the groups.
pub open spec fn iso_shape(s: Seq<char>) -> bool {
    &&& s.len() == 10
    &&& is_digit_char(s[0])
    &&& is_digit_char(s[1])
    &&& is_digit_char(s[2])
    &&& is_digit_char(s[3])
    &&& s[4] == '-'
    &&& is_digit_char(s[5])
    &&& is_digit_char(s[6])
    &&& s[7] == '-'
    &&& is_digit_char(s[8])
    &&& is_digit_char(s[9])
}

/// Year encoded by an `iso_shape` sequence.
pub open spec fn iso_year(s: Seq<char>) -> int {
    digit_val(s[0]) * 1000 + digit_val(s[1]) * 100 + digit_val(s[2]) * 10 + digit_val(s[3])
}

/// Month encoded by an `iso_shape` sequence.
pub open spec fn iso_month(s: Seq<char>) -> int {
    digit_val(s[5]) * 10 + digit_val(s[6])
}

/// Day encoded by an `iso_shape` sequence.
pub open spec fn iso_day(s: Seq<char>) -> int {
    digit_val(s[8]) * 10 + digit_val(s[9])
}

/// An `YYYY-MM-DD` string that names a real calendar date.
pub open spec fn iso_date_valid(s: Seq<char>) -> bool {
    &&& iso_shape(s)
    &&& 1 <= iso_month(s) <= 12
    &&& 1 <= iso_day(s) <= 31
    &&& iso_day(s) <= days_in_month(iso_year(s), iso_month(s))
}

/// Why a candidate date value was rejected: bad shape, then month out of
/// range, then day out of its syntactic range, then a combination that the
/// calendar does not contain.
#[derive(Clone, Copy, PartialEq, Eq, Structural, Debug)]
pub enum DateError {
    BadFormat,
    BadMonth,
    BadDay,
    BadCalendarDate,
}

/// The outcome `parse_iso_date` must report.
pub open spec fn spec_parse_iso_date(s: Seq<char>) -> Result<Date, DateError> {
    if !iso_shape(s) {
        Err(DateError::BadFormat)
    } else if !(1 <= iso_month(s) <= 12) {
        Err(DateError::BadMonth)
    } else if !(1 <= iso_day(s) <= 31) {
        Err(DateError::BadDay)
    } else if iso_day(s) > days_in_month(iso_year(s), iso_month(s)) {
        Err(DateError::BadCalendarDate)
    } else {
        Ok(Date { year: iso_year(s) as u32, month: iso_month(s) as u32, day: iso_day(s) as u32 })
    }
}

/// Reads one digit character at index `i`.
fn digit_at(s: &str, i: usize) -> (r: Option<u32>)
    requires
        i < s@.len(),
    ensures
        r is Some <==> is_digit_char(s@[i as int]),
        r is Some ==> r.unwrap() as int == digit_val(s@[i as int]),
{
    let c = s.get_char(i);
    let u = c as u32;
    if 48 <= u && u <= 57 {
        Some(u - 48)
    } else {
        None
    }
}

/// Parses a `YYYY-MM-DD` value and validates it against the real calendar.
pub fn parse_iso_date(s: &str) -> (r: Result<Date, DateError>)
    ensures
        r == spec_parse_iso_date(s@),
{
    if s.unicode_len() != 10 {
        return Err(DateError::BadFormat);
    }
    if s.get_char(4) != '-' || s.get_char(7) != '-' {
        return Err(DateError::BadFormat);
    }
    let y = match (digit_at(s, 0), digit_at(s, 1), digit_at(s, 2), digit_at(s, 3)) {
        (Some(a), Some(b), Some(c), Some(d)) => a * 1000 + b * 100 + c * 10 + d,
        _ => {
            return Err(DateError::BadFormat);
        },
    };
    let m = match (digit_at(s, 5), digit_at(s, 6)) {
        (Some(a), Some(b)) => a * 10 + b,
        _ => {
            return Err(DateError::BadFormat);
        },
    };
    let d = match (digit_at(s, 8), digit_at(s, 9)) {
        (Some(a), Some(b)) => a * 10 + b,
        _ => {
            return Err(DateError::BadFormat);
        },
    };
    if m < 1 || m > 12 {
        return Err(DateError::BadMonth);
    }
    if d < 1 || d > 31 {
        return Err(DateError::BadDay);
    }
    if d > days_in_month_exec(y, m) {
        return Err(DateError::BadCalendarDate);
    }
    Ok(Date { year: y, month: m, day: d })
}

/// Number of days of month `m` in year `y`.
fn days_in_month_exec(y: u32, m: u32) -> (r: u32)
    ensures
        r as int == days_in_month(y as int, m as int),
{
    if m == 2 {
        if y % 4 == 0 && (y % 100 != 0 || y % 400 == 0) {
            29
        } else {
            28
        }
    } else if m == 4 || m == 6 || m == 9 || m == 11 {
        30
    } else {
        31
    }
}

/// The character for one decimal digit value.
pub open spec fn digit_char(d: int) -> char {
    if d == 1 {
        '1'
    } else if d == 2 {
        '2'
    } else if d == 3 {
        '3'
    } else if d == 4 {
        '4'
    } else if d == 5 {
        '5'
    } else if d == 6 {
        '6'
    } else if d == 7 {
        '7'
    } else if d == 8 {
        '8'
    } else if d == 9 {
        '9'
    } else {
        '0'
    }
}

/// The canonical `YYYY-MM-DD` rendering of a date, zero-padded.
pub open spec fn iso_of(y: int, m: int, d: int) -> Seq<char> {
    seq![
        digit_char(y / 1000),
        digit_char((y / 100) % 10),
        digit_char((y / 10) % 10),
        digit_char(y % 10),
        '-',
        digit_char(m / 10),
        digit_char(m % 10),
        '-',
        digit_char(d / 10),
        digit_char(d % 10),
    ]
}

/// The local `DD/MM/YYYY` rendering of a date, zero-padded.
pub open spec fn local_of(y: int, m: int, d: int) -> Seq<char> {
    seq![
        digit_char(d / 10),
        digit_char(d % 10),
        '/',
        digit_char(m / 10),
        digit_char(m % 10),
        '/',
        digit_char(y / 1000),
        digit_char((y / 100) % 10),
        digit_char((y / 10) % 10),
        digit_char(y % 10),
    ]
}

/// One digit value as a borrowed one-character string.
fn digit_str(d: u32) -> (r: &'static str)
    requires
        d < 10,
    ensures
        r@ =~= seq![digit_char(d as int)],
{
    proof {
        reveal_strlit("0");
        reveal_strlit("1");
        reveal_strlit("2");
        reveal_strlit("3");
        reveal_strlit("4");
        reveal_strlit("5");
        reveal_strlit("6");
        reveal_strlit("7");
        reveal_strlit("8");
        reveal_strlit("9");
    }
    match d {
        1 => "1",
        2 => "2",
        3 => "3",
        4 => "4",
        5 => "5",
        6 => "6",
        7 => "7",
        8 => "8",
        9 => "9",
        _ => "0",
    }
}

/// Renders a date in the canonical `YYYY-MM-DD` form.
pub fn format_iso(date: &Date) -> (r: String)
    requires
        date.year <= 9999,
        date.month <= 99,
        date.day <= 99,
    ensures
        r@ == iso_of(date.year as int, date.month as int, date.day as int),
{
    let y = date.year;
    let m = date.month;
    let d = date.day;
    let mut out = String::new();
    out.append(digit_str(y / 1000));
    out.append(digit_str((y / 100) % 10));
    out.append(digit_str((y / 10) % 10));
    out.append(digit_str(y % 10));
    out.append("-");
    out.append(digit_str(m / 10));
    out.append(digit_str(m % 10));
    out.append("-");
    out.append(digit_str(d / 10));
    out.append(digit_str(d % 10));
    proof {
        reveal_strlit("-");
        assert(out@ =~= iso_of(date.year as int, date.month as int, date.day as int));
    }
    out
}

/// Renders a date in the local `DD/MM/YYYY` form.
pub fn format_local(date: &Date) -> (r: String)
    requires
        date.year <= 9999,
        date.month <= 99,
        date.day <= 99,
    ensures
        r@ == local_of(date.year as int, date.month as int, date.day as int),
{
    let y = date.year;
    let m = date.month;
    let d = date.day;
    let mut out = String::new();
    out.append(digit_str(d / 10));
    out.append(digit_str(d % 10));
    out.append("/");
    out.append(digit_str(m / 10));
    out.append(digit_str(m % 10));
    out.append("/");
    out.append(digit_str(y / 1000));
    out.append(digit_str((y / 100) % 10));
    out.append(digit_str((y / 10) % 10));
    out.append(digit_str(y % 10));
    proof {
        reveal_strlit("/");
        assert(out@ =~= local_of(date.year as int, date.month as int, date.day as int));
    }
    out
}

/// A digit character comes back from its own value.
pub proof fn lemma_digit_char_of_val(c: char)
    requires
        is_digit_char(c),
    ensures
        digit_char(digit_val(c)) == c,
{
}

/// Re-serializing the fields read out of a well-shaped `YYYY-MM-DD` value
/// yields that value again: the canonical form of a parsed date is the
/// string it was parsed from.
pub proof fn lemma_iso_round_trip(s: Seq<char>)
    requires
        iso_shape(s),
    ensures
        iso_of(iso_year(s), iso_month(s), iso_day(s)) == s,
{
    let y = iso_year(s);
    let m = iso_month(s);
    let d = iso_day(s);
    assert(y / 1000 == digit_val(s[0]) && (y / 100) % 10 == digit_val(s[1]) && (y / 10) % 10
        == digit_val(s[2]) && y % 10 == digit_val(s[3])) by (nonlinear_arith)
        requires
            y == digit_val(s[0]) * 1000 + digit_val(s[1]) * 100 + digit_val(s[2]) * 10 + digit_val(
                s[3],
            ),
            0 <= digit_val(s[0]) <= 9,
            0 <= digit_val(s[1]) <= 9,
            0 <= digit_val(s[2]) <= 9,
            0 <= digit_val(s[3]) <= 9,
    ;
    assert(m / 10 == digit_val(s[5]) && m % 10 == digit_val(s[6])) by (nonlinear_arith)
        requires
            m == digit_val(s[5]) * 10 + digit_val(s[6]),
            0 <= digit_val(s[5]) <= 9,
            0 <= digit_val(s[6]) <= 9,
    ;
    assert(d / 10 == digit_val(s[8]) && d % 10 == digit_val(s[9])) by (nonlinear_arith)
        requires
            d == digit_val(s[8]) * 10 + digit_val(s[9]),
            0 <= digit_val(s[8]) <= 9,
            0 <= digit_val(s[9]) <= 9,
    ;
    lemma_digit_char_of_val(s[0]);
    lemma_digit_char_of_val(s[1]);
    lemma_digit_char_of_val(s[2]);
    lemma_digit_char_of_val(s[3]);
    lemma_digit_char_of_val(s[5]);
    lemma_digit_char_of_val(s[6]);
    lemma_digit_char_of_val(s[8]);
    lemma_digit_char_of_val(s[9]);
    assert(iso_of(y, m, d) =~= s);
}

} // verus!
