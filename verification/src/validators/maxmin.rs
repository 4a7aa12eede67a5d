//! The four numeric bounds.

use vstd::prelude::*;
use vstd::string::*;
use crate::number::Number;
use crate::scope::Scope;
use crate::validators::violations;
use crate::validators::Check;
use crate::validators::ErrorKind;
use crate::validators::ValidationState;
use crate::value::Value;

verus! {

/// A number may be at most `number`.
#[derive(Debug)]
pub struct Maximum {
    pub number: Number,
}

/// A number must be below `number`.
#[derive(Debug)]
pub struct ExclusiveMaximum {
    pub number: Number,
}

/// A number must be at least `number`.
#[derive(Debug)]
pub struct Minimum {
    pub number: Number,
}

/// A number must be above `number`.
#[derive(Debug)]
pub struct ExclusiveMinimum {
    pub number: Number,
}

impl Maximum {
    /// Reports a number that is not at most the bound.
    pub fn validate(&self, val: &Value, path: &str, scope: &Scope) -> (r: ValidationState)
        ensures
            r@ == violations(Check::Maximum(self.number@), val@, path@),
    {
        let mut state = ValidationState::new();
        if let Some(x) = val.as_number() {
            if !x.le(&self.number) {
                state.push(ErrorKind::Maximum, String::from_str(path));
            }
        }
        state
    }
}

impl ExclusiveMaximum {
    /// Reports a number that is not below the bound.
    pub fn validate(&self, val: &Value, path: &str, scope: &Scope) -> (r: ValidationState)
        ensures
            r@ == violations(Check::ExclusiveMaximum(self.number@), val@, path@),
    {
        let mut state = ValidationState::new();
        if let Some(x) = val.as_number() {
            if !x.lt(&self.number) {
                state.push(ErrorKind::ExclusiveMaximum, String::from_str(path));
            }
        }
        state
    }
}

impl Minimum {
    /// Reports a number that is not at least the bound.
    pub fn validate(&self, val: &Value, path: &str, scope: &Scope) -> (r: ValidationState)
        ensures
            r@ == violations(Check::Minimum(self.number@), val@, path@),
    {
        let mut state = ValidationState::new();
        if let Some(x) = val.as_number() {
            if !self.number.le(&x) {
                state.push(ErrorKind::Minimum, String::from_str(path));
            }
        }
        state
    }
}

impl ExclusiveMinimum {
    /// Reports a number that is not above the bound.
    pub fn validate(&self, val: &Value, path: &str, scope: &Scope) -> (r: ValidationState)
        ensures
            r@ == violations(Check::ExclusiveMinimum(self.number@), val@, path@),
    {
        let mut state = ValidationState::new();
        if let Some(x) = val.as_number() {
            if !self.number.lt(&x) {
                state.push(ErrorKind::ExclusiveMinimum, String::from_str(path));
            }
        }
        state
    }
}

} // verus!
