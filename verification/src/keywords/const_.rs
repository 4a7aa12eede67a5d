//! The handler of `const`.

use vstd::prelude::*;
use crate::keywords::answer_view;
use crate::keywords::Compiled;
use crate::keywords::KeywordResult;
use crate::schema::Walk;
use crate::schema::WalkContext;
use crate::validators;
use crate::validators::Check;
use crate::validators::Validator;
use crate::value::Json;
use crate::value::Value;

verus! {

/// The handler of `const`.
#[derive(Clone, Copy, Debug)]
pub struct Const;

impl Const {
    /// What the handler answers for `def` at `ctx`: any value is a well
    /// formed `const`.
    pub open spec fn compiled(def: Json, ctx: Walk) -> Compiled {
        match def.member("const"@) {
            None => Ok(None),
            Some(item) => Ok(Some(Check::Const(item))),
        }
    }

    /// Compiles the keyword `const` of `def`.
    pub fn compile(&self, def: &Value, ctx: &WalkContext) -> (r: KeywordResult)
        ensures
            answer_view(r) == Self::compiled(def@, ctx@),
    {
        match def.get("const") {
            None => Ok(None),
            Some(item) => Ok(Some(Validator::Const(validators::const_::Const { item: item.clone() }))),
        }
    }
}

} // verus!
