//! The handler of `$ref`.

use vstd::prelude::*;
use crate::keywords::answer_view;
use crate::keywords::Compiled;
use crate::keywords::KeywordResult;
use crate::schema::malformed;
use crate::schema::malformed_at;
use crate::schema::Walk;
use crate::schema::WalkContext;
use crate::uri::resolve_url;
use crate::uri::text_view;
use crate::uri::url_resolved;
use crate::validators;
use crate::validators::Check;
use crate::validators::Validator;
use crate::value::Json;
use crate::value::Value;

verus! {

/// The cause given for a `$ref` that is not a string.
pub const NOT_A_STRING: &'static str = "The value of $ref MUST be a string";

/// The cause given for a `$ref` that cannot be resolved to a URL.
pub const NOT_A_REFERENCE: &'static str = "The value of $ref MUST be an URI-encoded JSON Pointer";

/// The handler of `$ref`.
#[derive(Clone, Copy, Debug)]
pub struct Ref;

impl Ref {
    /// What the handler answers once the URL parser has said what the
    /// reference resolves to: a validator that holds the resolved URL, or an
    /// error where the parser refused the reference.
    pub open spec fn compiled_from(resolved: Option<Seq<char>>, ctx: Walk) -> Compiled {
        match resolved {
            Some(url) => Ok(Some(Check::Ref(url))),
            None => Err(malformed_at(ctx, NOT_A_REFERENCE@)),
        }
    }

    /// What the handler answers for `def` at `ctx`: nothing where the
    /// keyword is absent, an error where its value is no string, and else
    /// what comes of resolving the string against the base URL of `ctx`.
    pub open spec fn compiled(def: Json, ctx: Walk) -> Compiled {
        match def.member("$ref"@) {
            None => Ok(None),
            Some(Json::String(reference)) => Self::compiled_from(
                url_resolved(ctx.url, reference),
                ctx,
            ),
            Some(_) => Err(malformed_at(ctx, NOT_A_STRING@)),
        }
    }

    /// The answer for a reference of which the URL parser made `resolved`.
    pub fn compile_resolved(resolved: Option<String>, ctx: &WalkContext) -> (r: KeywordResult)
        ensures
            answer_view(r) == Self::compiled_from(text_view(resolved), ctx@),
    {
        match resolved {
            Some(url) => Ok(Some(Validator::Ref(validators::ref_::Ref { url }))),
            None => Err(malformed(ctx, NOT_A_REFERENCE)),
        }
    }

    /// Compiles the keyword `$ref` of `def`. The reference is resolved
    /// against the base URL of `ctx` now; what the resolved URL names is
    /// looked up only when an instance is validated.
    pub fn compile(&self, def: &Value, ctx: &WalkContext) -> (r: KeywordResult)
        ensures
            answer_view(r) == Self::compiled(def@, ctx@),
    {
        match def.get("$ref") {
            None => Ok(None),
            Some(value) => match value.as_str() {
                Some(reference) => Self::compile_resolved(
                    resolve_url(ctx.url.as_str(), reference),
                    ctx,
                ),
                None => Err(malformed(ctx, NOT_A_STRING)),
            },
        }
    }
}

} // verus!
