//! The place where a caller's own rules meet a loaded document.

use crate::data::SpannedValue;
use crate::error::ContextualError;
use vstd::prelude::*;

verus! {

/// A judge of loaded documents. It is shown the whole tree, once, after the
/// tree is complete, and accepts it or says what is wrong with it.
pub trait Validator {
    fn validate(&self, value: &SpannedValue) -> Result<(), ContextualError>;
}

/// The validator that accepts every document.
pub struct NoSchema;

impl NoSchema {
    pub fn new() -> (s: NoSchema)
        ensures
            s == NoSchema,
    {
        NoSchema
    }
}

impl Validator for NoSchema {
    /// Accepts `_value`, whatever it is.
    fn validate(&self, _value: &SpannedValue) -> (r: Result<(), ContextualError>)
        ensures
            r is Ok,
    {
        Ok(())
    }
}

} // verus!
