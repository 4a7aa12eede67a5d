//! The handler of `format`, and the formats that it knows.
//!
//! A format is checked by a handler of its own, which is registered under
//! the name of the format. The handler of `format` looks the name up and
//! lets that handler compile the object.

use vstd::prelude::*;
use vstd::string::*;
use crate::keywords::answer_view;
use crate::keywords::Handler;
use crate::keywords::Keyword;
use crate::keywords::KeywordResult;
use crate::schema::malformed;
use crate::schema::WalkContext;
use crate::text::same_text;
use crate::value::first_at;
use crate::value::lemma_absent_has_no_position;
use crate::value::lemma_first_is_position;
use crate::value::Value;

verus! {

/// The cause given for a `format` that is not a string.
pub const NOT_A_STRING: &'static str = "The value of format MUST be a string";

/// The formats that are known: the handler of each under its name. Of two
/// handlers under one name the one that was added last is the one in use.
#[derive(Debug)]
pub struct FormatBuilders {
    pub formats: Vec<(String, Keyword)>,
}

/// The models of the known formats, the last that was added first.
pub open spec fn formats_view(formats: Seq<(String, Keyword)>) -> Seq<(Seq<char>, Handler)> {
    Seq::new(formats.len(), |i: int| (formats[i].0@, formats[i].1@))
}

impl View for FormatBuilders {
    type V = Seq<(Seq<char>, Handler)>;

    open spec fn view(&self) -> Seq<(Seq<char>, Handler)> {
        formats_view(self.formats@)
    }
}

impl FormatBuilders {
    /// No formats.
    pub fn new() -> (r: FormatBuilders)
        ensures
            r@ == Seq::<(Seq<char>, Handler)>::empty(),
    {
        let r = FormatBuilders { formats: Vec::new() };
        assert(r@ =~= Seq::<(Seq<char>, Handler)>::empty());
        r
    }

    /// Makes `keyword` the handler of the format `name`.
    pub fn insert(&mut self, name: &str, keyword: Keyword)
        ensures
            final(self)@ == seq![(name@, keyword@)] + old(self)@,
    {
        self.formats.insert(0, (String::from_str(name), keyword));
        assert(self@ =~= seq![(name@, keyword@)] + old(self)@);
    }
}

/// The handler of `format`.
#[derive(Debug)]
pub struct Format {
    pub formats: FormatBuilders,
}

impl Format {
    /// A handler that knows no format.
    pub fn new() -> (r: Format)
        ensures
            Keyword::Format(r)@ == Handler::Format(Seq::empty()),
    {
        let r = Format { formats: FormatBuilders::new() };
        assert(Keyword::Format(r)@->Format_0 =~= Seq::<(Seq<char>, Handler)>::empty());
        r
    }

    /// A handler that knows the formats that `build_formats` adds.
    pub fn with<F>(build_formats: F) -> (r: Format) where F: FnOnce(&mut FormatBuilders)
        requires
            forall|b: &mut FormatBuilders|
                b@.len() == 0 ==> #[trigger] call_requires(build_formats, (b,)),
        ensures
            exists|b: &mut FormatBuilders|
                b@.len() == 0 && #[trigger] call_ensures(build_formats, (b,), ()) && Keyword::Format(
                    r,
                )@ == Handler::Format(final(b)@),
    {
        let mut formats = FormatBuilders::new();
        build_formats(&mut formats);
        let r = Format { formats };
        assert(Keyword::Format(r)@->Format_0 =~= formats@);
        r
    }

    /// Compiles the keyword `format` of `def`.
    pub fn compile(&self, def: &Value, ctx: &WalkContext) -> (r: KeywordResult)
        ensures
            answer_view(r) == Keyword::Format(*self)@.compiled(def@, ctx@),
        decreases self, 1int,
    {
        let ghost known = Keyword::Format(*self)@->Format_0;
        proof {
            assert(known =~= self.formats@);
        }
        let name = match def.get("format") {
            None => {
                return Ok(None);
            },
            Some(value) => match value.as_str() {
                None => {
                    return Err(malformed(ctx, NOT_A_STRING));
                },
                Some(name) => name,
            },
        };
        let formats = &self.formats.formats;
        let mut i: usize = 0;
        while i < formats.len()
            invariant
                i <= formats.len(),
                *formats == self.formats.formats,
                known == self.formats@,
                known == Keyword::Format(*self)@->Format_0,
                def@.member("format"@) == Some(crate::value::Json::String(name@)),
                forall|j: int| 0 <= j < i ==> (#[trigger] known[j]).0 != name@,
            decreases formats.len() - i,
        {
            if same_text(formats[i].0.as_str(), name) {
                proof {
                    assert(first_at(known, name@, i as int));
                    lemma_first_is_position(known, name@, i as int);
                    assert(known[i as int].1 == formats[i as int].1@);
                }
                return formats[i].1.compile(def, ctx);
            }
            i += 1;
        }
        proof {
            lemma_absent_has_no_position(known, name@);
        }
        Ok(None)
    }
}

} // verus!
