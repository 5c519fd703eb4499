//! The error type shared by every operation.

use vstd::prelude::*;

verus! {

/// Errors reported by the engine's operations.
#[derive(Clone, Debug)]
pub enum LoreError {
    /// Malformed or out-of-range arguments: sizes, lengths, unknown names,
    /// empty collections that must not be empty.
    Validation(String),
    /// A random distribution was requested with invalid parameters.
    Distribution(String),
    /// A vector or matrix did not have the declared shape.
    DimensionMismatch(String),
}

impl LoreError {
    /// A message for the error, prefixed with its kind.
    pub fn message(&self) -> (r: String) {
        let (kind, detail) = match self {
            LoreError::Validation(m) => ("Validation: ", m),
            LoreError::Distribution(m) => ("Distribution: ", m),
            LoreError::DimensionMismatch(m) => ("Dimension mismatch: ", m),
        };
        let mut r = kind.to_string();
        r.append(detail.as_str());
        r
    }
}

/// A validation error whose message is `text` followed by `value`.
pub fn validation_error(text: &str, value: &str) -> (e: LoreError)
    ensures
        e is Validation,
{
    let mut m = text.to_string();
    m.append(value);
    LoreError::Validation(m)
}

} // verus!
