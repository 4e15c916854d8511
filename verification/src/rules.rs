//! The built-in rule set: routes a key to the identifier-checksum class, the
//! calendar-date class, or pass-through, and gives the exact transform each
//! class performs on add and on get.

use crate::date::iso_date_valid;
use crate::date::iso_day;
use crate::date::iso_month;
use crate::date::iso_of;
use crate::date::iso_year;
use crate::date::local_of;
use crate::date::parse_iso_date;
use crate::date::format_local;
use crate::date::spec_parse_iso_date;
use crate::date::Date;
use crate::date::DateError;
use crate::identifier::all_digits;
use crate::identifier::check_identifier;
use crate::identifier::format_identifier;
use crate::identifier::grouped;
use crate::identifier::identifier_valid;
use crate::identifier::spec_check_identifier;
use crate::identifier::IdentCheck;
use crate::transform::TransformResult;
use vstd::prelude::*;
use vstd::string::StrSliceExecFns;

verus! {

/// Keys of the identifier-checksum class: the reserved prefix `id_`.
pub open spec fn id_class(key: Seq<char>) -> bool {
    key.len() >= 3 && key[0] == 'i' && key[1] == 'd' && key[2] == '_'
}

/// Keys of the calendar-date class: the reserved prefix `date_`.
pub open spec fn date_class(key: Seq<char>) -> bool {
    &&& key.len() >= 5
    &&& key[0] == 'd'
    &&& key[1] == 'a'
    &&& key[2] == 't'
    &&& key[3] == 'e'
    &&& key[4] == '_'
}

/// The validator class a key routes to.
#[derive(Clone, Copy, PartialEq, Eq, Structural, Debug)]
pub enum KeyClass {
    Identifier,
    CalendarDate,
    Plain,
}

/// The class `classify_key` must report.
pub open spec fn spec_classify_key(key: Seq<char>) -> KeyClass {
    if id_class(key) {
        KeyClass::Identifier
    } else if date_class(key) {
        KeyClass::CalendarDate
    } else {
        KeyClass::Plain
    }
}

/// Routes a key to its validator class by its reserved prefix.
pub fn classify_key(key: &str) -> (r: KeyClass)
    ensures
        r == spec_classify_key(key@),
{
    let n = key.unicode_len();
    if n >= 3 && key.get_char(0) == 'i' && key.get_char(1) == 'd' && key.get_char(2) == '_' {
        return KeyClass::Identifier;
    }
    if n >= 5 && key.get_char(0) == 'd' && key.get_char(1) == 'a' && key.get_char(2) == 't'
        && key.get_char(3) == 'e' && key.get_char(4) == '_' {
        return KeyClass::CalendarDate;
    }
    KeyClass::Plain
}

/// Whether the built-in rules accept `value` for `key` on add.
pub open spec fn add_ok(key: Seq<char>, value: Seq<char>) -> bool {
    if id_class(key) {
        identifier_valid(value)
    } else if date_class(key) {
        iso_date_valid(value)
    } else {
        true
    }
}

/// What the built-in rules store for an accepted add: the raw digits for
/// the identifier class, the canonical ISO form for the date class, and the
/// input unchanged otherwise. For well-shaped dates the canonical form is
/// the input itself.
pub open spec fn add_stored(key: Seq<char>, value: Seq<char>) -> Seq<char> {
    if date_class(key) {
        iso_of(iso_year(value), iso_month(value), iso_day(value))
    } else {
        value
    }
}

/// Whether the built-in rules accept the stored `value` for `key` on get:
/// the identifier class re-checks the eleven-digit shape, the date class
/// re-parses, everything else passes through.
pub open spec fn get_ok(key: Seq<char>, value: Seq<char>) -> bool {
    if id_class(key) {
        value.len() == 11 && all_digits(value)
    } else if date_class(key) {
        iso_date_valid(value)
    } else {
        true
    }
}

/// What the built-in rules return for an accepted get: the grouped
/// identifier form, the local date form, or the stored value unchanged.
pub open spec fn get_out(key: Seq<char>, value: Seq<char>) -> Seq<char> {
    if id_class(key) {
        grouped(value)
    } else if date_class(key) {
        local_of(iso_year(value), iso_month(value), iso_day(value))
    } else {
        value
    }
}

/// The reason the built-in rules give when they reject an add.
pub open spec fn add_error_view(key: Seq<char>, value: Seq<char>) -> Seq<char> {
    if id_class(key) {
        ident_error_view(spec_check_identifier(value))
    } else {
        date_error_view(spec_parse_iso_date(value))
    }
}

/// The message for each identifier rejection.
pub open spec fn ident_error_view(c: IdentCheck) -> Seq<char> {
    match c {
        IdentCheck::Valid => Seq::empty(),
        IdentCheck::NotDigits => "identifier must contain only digits"@,
        IdentCheck::WrongLength => "identifier must have 11 digits"@,
        IdentCheck::RepeatedDigits => "identifier with repeated digits is invalid"@,
        IdentCheck::WrongCheckDigit => "identifier check digit does not match"@,
    }
}

/// The message for each date rejection.
pub open spec fn date_error_view(r: Result<Date, DateError>) -> Seq<char> {
    match r {
        Ok(_) => Seq::empty(),
        Err(DateError::BadFormat) => "invalid ISO date: expected YYYY-MM-DD"@,
        Err(DateError::BadMonth) => "invalid ISO date: month out of range"@,
        Err(DateError::BadDay) => "invalid ISO date: day out of range"@,
        Err(DateError::BadCalendarDate) => "invalid ISO date: no such calendar date"@,
    }
}

/// The built-in `on_add` hook: validates `value` for `key`'s class and says
/// what to store.
pub fn default_on_add(key: &str, value: &str) -> (r: TransformResult)
    ensures
        r.ok == add_ok(key@, value@),
        r.ok ==> r.value is Some && r.value.unwrap()@ == add_stored(key@, value@) && r.error
            is None,
        !r.ok ==> r.value is None && r.error is Some && r.error.unwrap()@ == add_error_view(
            key@,
            value@,
        ),
{
    match classify_key(key) {
        KeyClass::Identifier => {
            match check_identifier(value) {
                IdentCheck::Valid => TransformResult::accept(value.to_owned()),
                IdentCheck::NotDigits => TransformResult::reject(
                    "identifier must contain only digits".to_owned(),
                ),
                IdentCheck::WrongLength => TransformResult::reject(
                    "identifier must have 11 digits".to_owned(),
                ),
                IdentCheck::RepeatedDigits => TransformResult::reject(
                    "identifier with repeated digits is invalid".to_owned(),
                ),
                IdentCheck::WrongCheckDigit => TransformResult::reject(
                    "identifier check digit does not match".to_owned(),
                ),
            }
        },
        KeyClass::CalendarDate => {
            match parse_iso_date(value) {
                Ok(date) => TransformResult::accept(crate::date::format_iso(&date)),
                Err(DateError::BadFormat) => TransformResult::reject(
                    "invalid ISO date: expected YYYY-MM-DD".to_owned(),
                ),
                Err(DateError::BadMonth) => TransformResult::reject(
                    "invalid ISO date: month out of range".to_owned(),
                ),
                Err(DateError::BadDay) => TransformResult::reject(
                    "invalid ISO date: day out of range".to_owned(),
                ),
                Err(DateError::BadCalendarDate) => TransformResult::reject(
                    "invalid ISO date: no such calendar date".to_owned(),
                ),
            }
        },
        KeyClass::Plain => TransformResult::accept(value.to_owned()),
    }
}

/// The reason the built-in rules give when they reject a get: the stored
/// value no longer passes the shape it was validated against at add time.
pub open spec fn get_error_view(key: Seq<char>, value: Seq<char>) -> Seq<char> {
    if id_class(key) {
        "stored identifier value is invalid"@
    } else {
        "stored date value is invalid"@
    }
}

/// The built-in `on_get` hook: re-validates the stored value for `key`'s
/// class and says what to return to the caller.
pub fn default_on_get(key: &str, value: &str) -> (r: TransformResult)
    ensures
        r.ok == get_ok(key@, value@),
        r.ok ==> r.value is Some && r.value.unwrap()@ == get_out(key@, value@) && r.error is None,
        !r.ok ==> r.value is None && r.error is Some && r.error.unwrap()@ == get_error_view(
            key@,
            value@,
        ),
{
    match classify_key(key) {
        KeyClass::Identifier => {
            if eleven_digits(value) {
                TransformResult::accept(format_identifier(value))
            } else {
                TransformResult::reject("stored identifier value is invalid".to_owned())
            }
        },
        KeyClass::CalendarDate => {
            match parse_iso_date(value) {
                Ok(date) => TransformResult::accept(format_local(&date)),
                Err(_) => TransformResult::reject("stored date value is invalid".to_owned()),
            }
        },
        KeyClass::Plain => TransformResult::accept(value.to_owned()),
    }
}

/// Whether a string is exactly eleven decimal digits.
fn eleven_digits(s: &str) -> (r: bool)
    ensures
        r == (s@.len() == 11 && all_digits(s@)),
{
    let n = s.unicode_len();
    if n != 11 {
        return false;
    }
    let mut i: usize = 0;
    while i < 11
        invariant
            s@.len() == 11,
            i <= 11,
            forall|j: int| 0 <= j < i ==> crate::identifier::is_digit_char(#[trigger] s@[j]),
        decreases 11 - i,
    {
        let u = s.get_char(i) as u32;
        if u < 48 || u > 57 {
            assert(!crate::identifier::is_digit_char(s@[i as int]));
            return false;
        }
        i += 1;
    }
    assert(all_digits(s@));
    true
}

} // verus!
