//! Properties of the built-in rule set and the store, stated once for all
//! inputs and proved.

use crate::date::iso_date_valid;
use crate::date::iso_day;
use crate::date::iso_month;
use crate::date::iso_year;
use crate::date::lemma_iso_round_trip;
use crate::date::local_of;
use crate::identifier::all_digits;
use crate::identifier::check_digit;
use crate::identifier::digit_val;
use crate::identifier::grouped;
use crate::rules::add_ok;
use crate::rules::add_stored;
use crate::rules::date_class;
use crate::rules::get_ok;
use crate::rules::get_out;
use crate::rules::id_class;
use crate::store::fallback_applies;
use crate::store::lookup_spec;
use vstd::prelude::*;

verus! {

/// For identifier-class keys, get accepts exactly the eleven-digit stored
/// values and renders them in the grouped-and-dashed form.
pub proof fn law_identifier_get_grouped(key: Seq<char>, stored: Seq<char>)
    requires
        id_class(key),
        stored.len() == 11,
        all_digits(stored),
    ensures
        get_ok(key, stored),
        get_out(key, stored) == grouped(stored),
{
}

/// For identifier-class keys, add rejects every value that fails either
/// check-digit equation.
pub proof fn law_identifier_add_rejects(key: Seq<char>, value: Seq<char>)
    requires
        id_class(key),
        value.len() == 11,
        digit_val(value[9]) != check_digit(value, 9) || digit_val(value[10]) != check_digit(
            value,
            10,
        ),
    ensures
        !add_ok(key, value),
{
}

/// Round trip for the date class: a validly added date, read back, is the
/// local rendering of exactly the calendar date that was supplied.
pub proof fn law_date_round_trip(key: Seq<char>, value: Seq<char>)
    requires
        date_class(key),
        iso_date_valid(value),
    ensures
        add_ok(key, value),
        add_stored(key, value) == value,
        get_ok(key, add_stored(key, value)),
        get_out(key, add_stored(key, value)) == local_of(
            iso_year(value),
            iso_month(value),
            iso_day(value),
        ),
{
    lemma_iso_round_trip(value);
}

/// Pass-through: a key of no reserved class stores its value unchanged, and
/// a get right after the add returns that value unchanged.
pub proof fn law_pass_through(m: Map<Seq<char>, Seq<char>>, key: Seq<char>, value: Seq<char>)
    requires
        !id_class(key),
        !date_class(key),
    ensures
        add_ok(key, value),
        add_stored(key, value) == value,
        lookup_spec(m.insert(key, value), key) == Some((key, value)),
        get_ok(key, value),
        get_out(key, value) == value,
{
}

/// Idempotence: adding the same key and value twice yields the same stored
/// state as adding it once.
pub proof fn law_add_idempotent(m: Map<Seq<char>, Seq<char>>, key: Seq<char>, value: Seq<char>)
    requires
        add_ok(key, value),
    ensures
        m.insert(key, add_stored(key, value)).insert(key, add_stored(key, value)) == m.insert(
            key,
            add_stored(key, value),
        ),
{
    assert(m.insert(key, add_stored(key, value)).insert(key, add_stored(key, value)) =~= m.insert(
        key,
        add_stored(key, value),
    ));
}

/// The alternate-key fallback serves only the identifier class: a lookup
/// miss on a key outside that class reports not-found, with no second
/// lookup.
pub proof fn law_fallback_only_identifier(m: Map<Seq<char>, Seq<char>>, key: Seq<char>)
    requires
        !fallback_applies(key),
        !m.dom().contains(key),
    ensures
        lookup_spec(m, key) is None,
{
}

} // verus!
