//! The names that an object must have members for.

use vstd::prelude::*;
use vstd::string::*;
use crate::scope::Scope;
use crate::text::texts;
use crate::validators::member_path;
use crate::validators::missing;
use crate::validators::violations;
use crate::validators::Check;
use crate::validators::ErrorKind;
use crate::validators::ValidationState;
use crate::value::Value;

verus! {

/// An object must have a member for each of `items`.
#[derive(Debug)]
pub struct Required {
    pub items: Vec<String>,
}

/// The path of the member `name` below `path`.
pub fn path_of_member(path: &str, name: &str) -> (r: String)
    ensures
        r@ == member_path(path@, name@),
{
    let mut out = String::from_str(path);
    proof {
        reveal_strlit("/");
        assert("/"@ =~= seq!['/']);
    }
    out.append("/");
    out.append(name);
    out
}

impl Required {
    /// Reports each listed name that the object has no member for, once, in
    /// the order of the list. An instance that is no object passes.
    pub fn validate(&self, val: &Value, path: &str, scope: &Scope) -> (r: ValidationState)
        ensures
            r@ == violations(Check::Required(texts(self.items@)), val@, path@),
    {
        let mut state = ValidationState::new();
        if !val.is_object() {
            return state;
        }
        let ghost names = texts(self.items@);
        let mut i: usize = 0;
        proof {
            assert(names.take(0) =~= Seq::<Seq<char>>::empty());
        }
        while i < self.items.len()
            invariant
                i <= self.items.len(),
                names == texts(self.items@),
                state@ == missing(names.take(i as int), val@, path@),
            decreases self.items.len() - i,
        {
            proof {
                assert(names.take(i as int + 1).drop_last() =~= names.take(i as int));
                assert(names.take(i as int + 1).last() == self.items[i as int]@);
            }
            if val.get(self.items[i].as_str()).is_none() {
                state.push(ErrorKind::Required, path_of_member(path, self.items[i].as_str()));
            }
            i += 1;
        }
        proof {
            assert(names.take(self.items.len() as int) =~= names);
        }
        state
    }
}

} // verus!
