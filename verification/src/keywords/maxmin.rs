//! The handlers of the four numeric bounds.

use vstd::prelude::*;
use crate::keywords::answer_view;
use crate::keywords::Compiled;
use crate::keywords::KeywordResult;
use crate::number::Number;
use crate::schema::malformed;
use crate::schema::malformed_at;
use crate::schema::Walk;
use crate::schema::WalkContext;
use crate::validators;
use crate::validators::Check;
use crate::validators::Validator;
use crate::value::Json;
use crate::value::Value;

verus! {

/// The cause given for a bound that is not a number.
pub const NOT_A_NUMBER: &'static str =
    "the `minimum/maximum/exclusiveMinimum/exclusiveMaximum` value must be a number";

/// The bound that the keyword `keyword` gives in `def`: nothing where the
/// keyword is absent, the number where its value is one, and an error for
/// any other value.
pub open spec fn bound(def: Json, ctx: Walk, keyword: Seq<char>) -> Result<Option<u64>, crate::schema::CompileError> {
    match def.member(keyword) {
        None => Ok(None),
        Some(Json::Number(n)) => Ok(Some(n)),
        Some(_) => Err(malformed_at(ctx, NOT_A_NUMBER@)),
    }
}

/// Reads the bound that the keyword `keyword` gives in `def`.
pub fn read_bound(def: &Value, ctx: &WalkContext, keyword: &str) -> (r: Result<
    Option<Number>,
    crate::schema::SchemaError,
>)
    ensures
        match r {
            Ok(Some(n)) => bound(def@, ctx@, keyword@) == Ok::<Option<u64>, crate::schema::CompileError>(Some(n@)),
            Ok(None) => bound(def@, ctx@, keyword@) == Ok::<Option<u64>, crate::schema::CompileError>(None),
            Err(e) => bound(def@, ctx@, keyword@) == Err::<Option<u64>, crate::schema::CompileError>(e@),
        },
{
    match def.get(keyword) {
        None => Ok(None),
        Some(value) => match value.as_number() {
            Some(n) => Ok(Some(n)),
            None => Err(malformed(ctx, NOT_A_NUMBER)),
        },
    }
}

/// The handler of `maximum`.
#[derive(Clone, Copy, Debug)]
pub struct Maximum;

/// The handler of `exclusiveMaximum`.
#[derive(Clone, Copy, Debug)]
pub struct ExclusiveMaximum;

/// The handler of `minimum`.
#[derive(Clone, Copy, Debug)]
pub struct Minimum;

/// The handler of `exclusiveMinimum`.
#[derive(Clone, Copy, Debug)]
pub struct ExclusiveMinimum;

impl Maximum {
    /// What the handler answers for `def` at `ctx`.
    pub open spec fn compiled(def: Json, ctx: Walk) -> Compiled {
        match bound(def, ctx, "maximum"@) {
            Ok(Some(n)) => Ok(Some(Check::Maximum(n))),
            Ok(None) => Ok(None),
            Err(e) => Err(e),
        }
    }

    /// Compiles the keyword `maximum` of `def`.
    pub fn compile(&self, def: &Value, ctx: &WalkContext) -> (r: KeywordResult)
        ensures
            answer_view(r) == Self::compiled(def@, ctx@),
    {
        match read_bound(def, ctx, "maximum") {
            Ok(Some(number)) => Ok(Some(Validator::Maximum(validators::maxmin::Maximum { number }))),
            Ok(None) => Ok(None),
            Err(e) => Err(e),
        }
    }
}

impl ExclusiveMaximum {
    /// What the handler answers for `def` at `ctx`.
    pub open spec fn compiled(def: Json, ctx: Walk) -> Compiled {
        match bound(def, ctx, "exclusiveMaximum"@) {
            Ok(Some(n)) => Ok(Some(Check::ExclusiveMaximum(n))),
            Ok(None) => Ok(None),
            Err(e) => Err(e),
        }
    }

    /// Compiles the keyword `exclusiveMaximum` of `def`.
    pub fn compile(&self, def: &Value, ctx: &WalkContext) -> (r: KeywordResult)
        ensures
            answer_view(r) == Self::compiled(def@, ctx@),
    {
        match read_bound(def, ctx, "exclusiveMaximum") {
            Ok(Some(number)) => Ok(
                Some(Validator::ExclusiveMaximum(validators::maxmin::ExclusiveMaximum { number })),
            ),
            Ok(None) => Ok(None),
            Err(e) => Err(e),
        }
    }
}

impl Minimum {
    /// What the handler answers for `def` at `ctx`.
    pub open spec fn compiled(def: Json, ctx: Walk) -> Compiled {
        match bound(def, ctx, "minimum"@) {
            Ok(Some(n)) => Ok(Some(Check::Minimum(n))),
            Ok(None) => Ok(None),
            Err(e) => Err(e),
        }
    }

    /// Compiles the keyword `minimum` of `def`.
    pub fn compile(&self, def: &Value, ctx: &WalkContext) -> (r: KeywordResult)
        ensures
            answer_view(r) == Self::compiled(def@, ctx@),
    {
        match read_bound(def, ctx, "minimum") {
            Ok(Some(number)) => Ok(Some(Validator::Minimum(validators::maxmin::Minimum { number }))),
            Ok(None) => Ok(None),
            Err(e) => Err(e),
        }
    }
}

impl ExclusiveMinimum {
    /// What the handler answers for `def` at `ctx`.
    pub open spec fn compiled(def: Json, ctx: Walk) -> Compiled {
        match bound(def, ctx, "exclusiveMinimum"@) {
            Ok(Some(n)) => Ok(Some(Check::ExclusiveMinimum(n))),
            Ok(None) => Ok(None),
            Err(e) => Err(e),
        }
    }

    /// Compiles the keyword `exclusiveMinimum` of `def`.
    pub fn compile(&self, def: &Value, ctx: &WalkContext) -> (r: KeywordResult)
        ensures
            answer_view(r) == Self::compiled(def@, ctx@),
    {
        match read_bound(def, ctx, "exclusiveMinimum") {
            Ok(Some(number)) => Ok(
                Some(Validator::ExclusiveMinimum(validators::maxmin::ExclusiveMinimum { number })),
            ),
            Ok(None) => Ok(None),
            Err(e) => Err(e),
        }
    }
}

} // verus!
