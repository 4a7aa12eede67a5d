//! The schema `false`, which no instance meets.

use vstd::prelude::*;
use vstd::string::*;
use crate::scope::Scope;
use crate::validators::violations;
use crate::validators::Check;
use crate::validators::ErrorKind;
use crate::validators::ValidationState;
use crate::value::Value;

verus! {

/// No instance is accepted.
#[derive(Debug)]
pub struct Never;

impl Never {
    /// Reports every instance.
    pub fn validate(&self, val: &Value, path: &str, scope: &Scope) -> (r: ValidationState)
        ensures
            r@ == violations(Check::Never, val@, path@),
    {
        let mut state = ValidationState::new();
        state.push(ErrorKind::Never, String::from_str(path));
        state
    }
}

} // verus!
