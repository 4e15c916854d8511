//! The two store operations, each mediated by the rule engine: add runs the
//! `on_add` hook and writes only on success; get looks the key up (with the
//! identifier-class fallback) and runs the `on_get` hook on the stored value.

use crate::engine::Engine;
use crate::rules::add_error_view;
use crate::rules::add_ok;
use crate::rules::add_stored;
use crate::rules::get_error_view;
use crate::rules::get_ok;
use crate::rules::get_out;
use crate::store::lookup_spec;
use crate::store::Store;
use vstd::prelude::*;
use vstd::string::StringExecFns;

verus! {

/// Outcome of an add operation.
pub enum AddOutcome {
    /// The value was validated, transformed and stored.
    Added,
    /// The rule rejected the value; nothing was written.
    Rejected(String),
    /// The engine itself failed; nothing was written.
    EngineFailed(String),
}

/// Outcome of a get operation.
pub enum GetOutcome {
    /// The stored value, as the `on_get` hook rendered it.
    Found(String),
    /// Neither the key nor (for the identifier class) its alternate form is
    /// stored.
    NotFound,
    /// The stored value no longer passes the rule's check.
    Rejected(String),
    /// The engine itself failed.
    EngineFailed(String),
}

/// Adds `key` / `value`: the engine's `on_add` hook validates and
/// transforms the value, and only a successful outcome is written.
pub fn apply_add(store: &mut Store, engine: &Engine, key: &str, value: &str) -> (r: AddOutcome)
    requires
        old(store).wf(),
    ensures
        final(store).wf(),
        r is Added ==> exists|v: Seq<char>| final(store)@ == old(store)@.insert(key@, v),
        !(r is Added) ==> final(store)@ == old(store)@,
        *engine is Builtin ==> r.ok_matches_rules(old(store)@, final(store)@, key@, value@),
{
    match engine.on_add(key, value) {
        Err(e) => AddOutcome::EngineFailed(e),
        Ok(t) => {
            if t.ok {
                let stored = t.effective_value(value.to_owned());
                let ghost stored_view = stored@;
                store.insert(key, stored);
                proof {
                    assert(final(store)@ == old(store)@.insert(key@, stored_view));
                }
                AddOutcome::Added
            } else {
                let msg = match t.error {
                    Some(m) => m,
                    None => String::from_str("unknown reason"),
                };
                AddOutcome::Rejected(msg)
            }
        },
    }
}

impl AddOutcome {
    /// What an add must do under the built-in rules: accepted values are
    /// stored as the rules transform them, rejected values leave the store
    /// unchanged and carry the rules' reason.
    pub open spec fn ok_matches_rules(
        self,
        before: Map<Seq<char>, Seq<char>>,
        after: Map<Seq<char>, Seq<char>>,
        key: Seq<char>,
        value: Seq<char>,
    ) -> bool {
        &&& add_ok(key, value) ==> self is Added && after == before.insert(
            key,
            add_stored(key, value),
        )
        &&& !add_ok(key, value) ==> (self matches AddOutcome::Rejected(m) && m@ == add_error_view(
            key,
            value,
        ))
    }
}

/// Gets `key`: the store is searched (with the identifier-class alternate
/// form on a miss), and the engine's `on_get` hook renders the stored value.
pub fn apply_get(store: &Store, engine: &Engine, key: &str) -> (r: GetOutcome)
    requires
        store.wf(),
    ensures
        r is NotFound <==> lookup_spec(store@, key@) is None,
        *engine is Builtin ==> (lookup_spec(store@, key@) matches Some(hit) ==> {
            &&& get_ok(hit.0, hit.1) ==> (r matches GetOutcome::Found(out) && out@ == get_out(
                hit.0,
                hit.1,
            ))
            &&& !get_ok(hit.0, hit.1) ==> (r matches GetOutcome::Rejected(m) && m@
                == get_error_view(hit.0, hit.1))
        }),
{
    match store.get_with_fallback(key) {
        None => GetOutcome::NotFound,
        Some((used_key, raw)) => {
            match engine.on_get(used_key.as_str(), raw.as_str()) {
                Err(e) => GetOutcome::EngineFailed(e),
                Ok(t) => {
                    if t.ok {
                        GetOutcome::Found(t.effective_value(raw))
                    } else {
                        let msg = match t.error {
                            Some(m) => m,
                            None => String::from_str("unknown reason"),
                        };
                        GetOutcome::Rejected(msg)
                    }
                },
            }
        },
    }
}

} // verus!
