//! The rule engine: the built-in rule set, or an externally loaded Lua rule
//! set exposing `on_add` and `on_get` callbacks. The Lua calls stand behind
//! trusted wrappers; everything decided about their outcome is verified.

use crate::rules::add_error_view;
use crate::rules::add_ok;
use crate::rules::add_stored;
use crate::rules::default_on_add;
use crate::rules::default_on_get;
use crate::rules::get_error_view;
use crate::rules::get_ok;
use crate::rules::get_out;
use crate::transform::TransformResult;
use vstd::prelude::*;

verus! {

#[verifier::external_type_specification]
#[verifier::external_body]
pub struct ExLua(mlua::Lua);

/// What one raw Lua callback invocation came back with, as plain values.
pub enum RawHook {
    /// No global function of the callback's name exists.
    Missing,
    /// The callback returned something other than a table.
    Untyped,
    /// The callback returned a table; a field that is absent or unreadable
    /// is `None`.
    Table { ok: Option<bool>, value: Option<String>, error: Option<String> },
}

/// Relies on mlua's `Lua::globals` and `Table::get` to fetch the global
/// named `name`, on `Function::call` to invoke it with `(key, value)`, and
/// on `Table::get` to read the `ok`, `value` and `error` fields of a
/// returned table. What comes back depends on the loaded Lua program, so
/// nothing is promised of the result; a Lua failure surfaces as `Err`.
#[verifier::external_body]
fn call_hook_raw(lua: &mlua::Lua, name: &str, key: &str, value: &str) -> Result<RawHook, String> {
    let func: Option<mlua::Function> = lua.globals().get(name).map_err(|e| e.to_string())?;
    let f = match func {
        Some(f) => f,
        None => return Ok(RawHook::Missing),
    };
    let args = (key.to_string(), value.to_string());
    let ret: mlua::Value = f.call(args).map_err(|e| e.to_string())?;
    match ret {
        mlua::Value::Table(t) => Ok(RawHook::Table {
            ok: t.get::<bool>("ok").ok(),
            value: t.get::<Option<String>>("value").ok().flatten(),
            error: t.get::<Option<String>>("error").ok().flatten(),
        }),
        _ => Ok(RawHook::Untyped),
    }
}

/// Relies on mlua's `Lua::new`, `Chunk::set_name` and `Chunk::exec` to
/// evaluate an externally supplied rule source once; a load failure (such
/// as a syntax error) surfaces as `Err`.
#[verifier::external_body]
fn load_lua_rules(code: &str) -> Result<mlua::Lua, String> {
    let lua = mlua::Lua::new();
    match lua.load(code).set_name("rules").exec() {
        Ok(()) => Ok(lua),
        Err(e) => Err(e.to_string()),
    }
}

/// Turns a raw callback outcome into the transform contract: a missing
/// callback, like an unrecognized return shape, is pass-through success
/// with the original value; a table is read field by field, an absent or
/// unreadable `ok` reading as failure.
pub fn interpret_hook(raw: RawHook, original: &str) -> (r: TransformResult)
    ensures
        raw is Missing || raw is Untyped ==> r.ok && r.value is Some && r.value.unwrap()@
            == original@ && r.error is None,
        raw matches RawHook::Table { ok, value, error } ==> r.ok == (ok == Some(true)) && r.value
            == value && r.error == error,
{
    match raw {
        RawHook::Missing => TransformResult::accept(original.to_owned()),
        RawHook::Untyped => TransformResult::accept(original.to_owned()),
        RawHook::Table { ok, value, error } => {
            let okb = match ok {
                Some(b) => b,
                None => false,
            };
            TransformResult { ok: okb, value, error }
        },
    }
}

/// The rule engine loaded at startup: the built-in default rule set, or an
/// externally supplied Lua rule set.
pub enum Engine {
    Builtin,
    External(mlua::Lua),
}

impl Engine {
    /// The built-in default rule set.
    pub fn builtin() -> (r: Engine)
        ensures
            r is Builtin,
    {
        Engine::Builtin
    }

    /// Loads an externally supplied Lua rule source. A failure to evaluate
    /// it (such as a syntax error) is an error, not a fallback.
    pub fn from_lua_source(code: &str) -> (r: Result<Engine, String>)
        ensures
            r matches Ok(e) ==> e is External,
    {
        match load_lua_rules(code) {
            Ok(lua) => Ok(Engine::External(lua)),
            Err(e) => Err(e),
        }
    }

    /// Runs the `on_add` hook. With the built-in rule set the outcome is
    /// exactly the default validators' transform; with an external rule
    /// set, whatever the callback returned, read by `interpret_hook`.
    pub fn on_add(&self, key: &str, value: &str) -> (r: Result<TransformResult, String>)
        ensures
            *self is Builtin ==> r is Ok,
            *self is Builtin ==> {
                let t = r.unwrap();
                &&& t.ok == add_ok(key@, value@)
                &&& t.ok ==> t.value is Some && t.value.unwrap()@ == add_stored(key@, value@)
                &&& !t.ok ==> t.error is Some && t.error.unwrap()@ == add_error_view(key@, value@)
            },
    {
        match self {
            Engine::Builtin => Ok(default_on_add(key, value)),
            Engine::External(lua) => {
                match call_hook_raw(lua, "on_add", key, value) {
                    Ok(raw) => Ok(interpret_hook(raw, value)),
                    Err(e) => Err(e),
                }
            },
        }
    }

    /// Runs the `on_get` hook. With the built-in rule set the outcome is
    /// exactly the default validators' formatting transform.
    pub fn on_get(&self, key: &str, value: &str) -> (r: Result<TransformResult, String>)
        ensures
            *self is Builtin ==> r is Ok,
            *self is Builtin ==> {
                let t = r.unwrap();
                &&& t.ok == get_ok(key@, value@)
                &&& t.ok ==> t.value is Some && t.value.unwrap()@ == get_out(key@, value@)
                &&& !t.ok ==> t.error is Some && t.error.unwrap()@ == get_error_view(key@, value@)
            },
    {
        match self {
            Engine::Builtin => Ok(default_on_get(key, value)),
            Engine::External(lua) => {
                match call_hook_raw(lua, "on_get", key, value) {
                    Ok(raw) => Ok(interpret_hook(raw, value)),
                    Err(e) => Err(e),
                }
            },
        }
    }
}

} // verus!
