//! The one value that an instance must equal.

use vstd::prelude::*;
use vstd::string::*;
use crate::scope::Scope;
use crate::validators::violations;
use crate::validators::Check;
use crate::validators::ErrorKind;
use crate::validators::ValidationState;
use crate::value::Value;

verus! {

/// The instance must equal `item`.
#[derive(Debug)]
pub struct Const {
    pub item: Value,
}

impl Const {
    /// Reports an instance that is not deeply equal to the captured value.
    pub fn validate(&self, val: &Value, path: &str, scope: &Scope) -> (r: ValidationState)
        ensures
            r@ == violations(Check::Const(self.item@), val@, path@),
    {
        let mut state = ValidationState::new();
        if !val.equals(&self.item) {
            state.push(ErrorKind::Const, String::from_str(path));
        }
        state
    }
}

} // verus!
