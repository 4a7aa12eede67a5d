//! A reference to another schema, followed when an instance is validated.

use vstd::prelude::*;
use vstd::string::*;
use crate::scope::check_outcome;
use crate::scope::outcome_view;
use crate::scope::Scope;
use crate::validators::Check;
use crate::validators::ResolutionFailure;
use crate::validators::ValidationState;
use crate::value::Value;

verus! {

/// The instance must meet the schema that `url` names.
#[derive(Debug)]
pub struct Ref {
    pub url: String,
}

impl Ref {
    /// Hands the instance to the schema that the URL names in `scope`, at
    /// the same path, and gives back what that schema reports. `depth` is
    /// the number of references that may still be followed: with none left,
    /// and where the scope holds no schema for the URL, the validation
    /// fails.
    pub fn validate(&self, val: &Value, path: &str, scope: &Scope, depth: usize) -> (r: Result<
        ValidationState,
        ResolutionFailure,
    >)
        requires
            scope.wf(),
        ensures
            outcome_view(r) == check_outcome(
                scope@,
                Check::Ref(self.url@),
                val@,
                path@,
                depth as nat,
            ),
        decreases depth, 0int,
    {
        if depth == 0 {
            return Err(ResolutionFailure::Cycle { url: self.url.clone() });
        }
        match scope.resolve(self.url.as_str()) {
            None => Err(ResolutionFailure::Unresolved { url: self.url.clone() }),
            Some(target) => target.schema.validate_in_scope(val, path, scope, depth - 1),
        }
    }
}

} // verus!
