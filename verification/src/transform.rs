//! The structured result that every hook invocation returns.

use vstd::prelude::*;

verus! {

/// Outcome of a hook callback on an add or get operation.
///
/// If `ok` is false the operation is aborted and `value` must be ignored;
/// if `ok` is true and `value` is `None`, the caller substitutes the original
/// input value (pass-through).
pub struct TransformResult {
    pub ok: bool,
    pub value: Option<String>,
    pub error: Option<String>,
}

impl TransformResult {
    /// A successful result carrying a transformed value.
    pub fn accept(value: String) -> (r: TransformResult)
        ensures
            r.ok,
            r.value == Some(value),
            r.error is None,
    {
        TransformResult { ok: true, value: Some(value), error: None }
    }

    /// A failed result carrying a human-readable reason.
    pub fn reject(error: String) -> (r: TransformResult)
        ensures
            !r.ok,
            r.value is None,
            r.error == Some(error),
    {
        TransformResult { ok: false, value: None, error: Some(error) }
    }

    /// The value the caller must act on: the transformed value when present,
    /// the original input otherwise.
    pub fn effective_value(self, original: String) -> (r: String)
        ensures
            self.value is Some ==> r == self.value.unwrap(),
            self.value is None ==> r == original,
    {
        match self.value {
            Some(v) => v,
            None => original,
        }
    }
}

} // verus!
