//! The handler of `required`.

use vstd::prelude::*;
use vstd::string::*;
use crate::keywords::answer_view;
use crate::keywords::Compiled;
use crate::keywords::KeywordResult;
use crate::schema::malformed;
use crate::schema::malformed_at;
use crate::schema::Walk;
use crate::schema::WalkContext;
use crate::text::texts;
use crate::validators;
use crate::validators::Check;
use crate::validators::Validator;
use crate::value::Json;
use crate::value::Value;

verus! {

/// The cause given for a `required` that is not an array.
pub const NOT_AN_ARRAY: &'static str = "The value of this keyword must be an array.";

/// The cause given for an element of `required` that is not a string.
pub const NOT_A_STRING: &'static str = "The values of `required` must be string";

/// Whether every element is a string.
pub open spec fn all_strings(items: Seq<Json>) -> bool {
    forall|i: int| 0 <= i < items.len() ==> (#[trigger] items[i]) is String
}

/// The texts of elements that are strings.
pub open spec fn names_of(items: Seq<Json>) -> Seq<Seq<char>> {
    Seq::new(items.len(), |i: int| items[i]->String_0)
}

/// The handler of `required`.
#[derive(Clone, Copy, Debug)]
pub struct Required;

impl Required {
    /// What the handler answers for `def` at `ctx`: nothing where the
    /// keyword is absent, the list of names where its value is an array of
    /// strings, and an error where the value is no array or one element of
    /// it is no string.
    pub open spec fn compiled(def: Json, ctx: Walk) -> Compiled {
        match def.member("required"@) {
            None => Ok(None),
            Some(Json::Array(items)) => if all_strings(items) {
                Ok(Some(Check::Required(names_of(items))))
            } else {
                Err(malformed_at(ctx, NOT_A_STRING@))
            },
            Some(_) => Err(malformed_at(ctx, NOT_AN_ARRAY@)),
        }
    }

    /// Compiles the keyword `required` of `def`.
    pub fn compile(&self, def: &Value, ctx: &WalkContext) -> (r: KeywordResult)
        ensures
            answer_view(r) == Self::compiled(def@, ctx@),
    {
        let required = match def.get("required") {
            None => {
                return Ok(None);
            },
            Some(value) => value,
        };
        match required.as_array() {
            None => Err(malformed(ctx, NOT_AN_ARRAY)),
            Some(elements) => {
                let ghost model = required@.elements();
                let mut items: Vec<String> = Vec::new();
                let mut i: usize = 0;
                while i < elements.len()
                    invariant
                        i <= elements.len(),
                        def@.member("required"@) == Some(required@),
                        required@ == Json::Array(model),
                        model.len() == elements.len(),
                        forall|j: int| 0 <= j < elements.len() ==> model[j] == (#[trigger] elements[j])@,
                        items.len() == i,
                        forall|j: int| 0 <= j < i ==> (#[trigger] model[j]) is String,
                        forall|j: int| 0 <= j < i ==> (#[trigger] items[j])@ == model[j]->String_0,
                    decreases elements.len() - i,
                {
                    match elements[i].as_str() {
                        Some(name) => {
                            items.push(String::from_str(name));
                        },
                        None => {
                            assert(!(model[i as int] is String));
                            return Err(malformed(ctx, NOT_A_STRING));
                        },
                    }
                    i += 1;
                }
                proof {
                    assert(all_strings(model));
                    assert(texts(items@) =~= names_of(model));
                }
                Ok(Some(Validator::Required(validators::required::Required { items })))
            },
        }
    }
}

} // verus!
