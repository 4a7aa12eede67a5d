//! Keyword handlers: what turns one keyword of a schema document into a
//! validator.
//!
//! Every handler is offered every object of a schema document. It answers
//! with nothing where its keyword is absent, with a validator where the
//! keyword is well formed, and with an error where it is not.

pub mod const_;
pub mod format;
pub mod maxmin;
pub mod ref_;
pub mod required;

use vstd::prelude::*;
use vstd::string::*;
use crate::schema::malformed_at;
use crate::schema::CompileError;
use crate::schema::SchemaError;
use crate::schema::Walk;
use crate::schema::WalkContext;
use crate::text::same_text;
use crate::text::texts;
use crate::validators::Check;
use crate::validators::Validator;
use crate::value::position;
use crate::value::Json;
use crate::value::Value;

verus! {

/// What a handler answers.
pub type KeywordResult = Result<Option<Validator>, SchemaError>;

/// The model of a handler's answer.
pub type Compiled = Result<Option<Check>, CompileError>;

/// The model of an answer.
pub open spec fn answer_view(r: KeywordResult) -> Compiled {
    match r {
        Ok(Some(v)) => Ok(Some(v@)),
        Ok(None) => Ok(None),
        Err(e) => Err(e@),
    }
}

/// A handler of one of the known kinds.
#[derive(Debug)]
pub enum Keyword {
    Maximum,
    ExclusiveMaximum,
    Minimum,
    ExclusiveMinimum,
    Required,
    Const,
    Ref,
    Format(format::Format),
}

/// The model of a handler. The handler of `format` is made of the handlers
/// that it knows, each under the name of its format.
pub enum Handler {
    Maximum,
    ExclusiveMaximum,
    Minimum,
    ExclusiveMinimum,
    Required,
    Const,
    Ref,
    Format(Seq<(Seq<char>, Handler)>),
}

/// The model of a handler.
pub open spec fn handler_of(keyword: Keyword) -> Handler
    decreases keyword,
{
    match keyword {
        Keyword::Maximum => Handler::Maximum,
        Keyword::ExclusiveMaximum => Handler::ExclusiveMaximum,
        Keyword::Minimum => Handler::Minimum,
        Keyword::ExclusiveMinimum => Handler::ExclusiveMinimum,
        Keyword::Required => Handler::Required,
        Keyword::Const => Handler::Const,
        Keyword::Ref => Handler::Ref,
        Keyword::Format(f) => Handler::Format(
            Seq::new(
                f.formats.formats@.len(),
                |i: int|
                    if 0 <= i < f.formats.formats@.len() {
                        (f.formats.formats@[i].0@, handler_of(f.formats.formats@[i].1))
                    } else {
                        (Seq::empty(), Handler::Maximum)
                    },
            ),
        ),
    }
}

impl View for Keyword {
    type V = Handler;

    open spec fn view(&self) -> Handler {
        handler_of(*self)
    }
}

impl Handler {
    /// What this handler answers for the object `def` at the place `ctx`.
    /// The handler of `format` answers nothing where the keyword is absent
    /// or names a format that it does not know, what the handler of the
    /// format answers where it knows it, and an error where the value of
    /// the keyword is no string.
    pub open spec fn compiled(self, def: Json, ctx: Walk) -> Compiled
        decreases self,
    {
        match self {
            Handler::Maximum => maxmin::Maximum::compiled(def, ctx),
            Handler::ExclusiveMaximum => maxmin::ExclusiveMaximum::compiled(def, ctx),
            Handler::Minimum => maxmin::Minimum::compiled(def, ctx),
            Handler::ExclusiveMinimum => maxmin::ExclusiveMinimum::compiled(def, ctx),
            Handler::Required => required::Required::compiled(def, ctx),
            Handler::Const => const_::Const::compiled(def, ctx),
            Handler::Ref => ref_::Ref::compiled(def, ctx),
            Handler::Format(formats) => match def.member("format"@) {
                None => Ok(None),
                Some(Json::String(name)) => match position(formats, name) {
                    Some(i) => if 0 <= i < formats.len() {
                        formats[i].1.compiled(def, ctx)
                    } else {
                        Ok(None)
                    },
                    None => Ok(None),
                },
                Some(_) => Err(malformed_at(ctx, format::NOT_A_STRING@)),
            },
        }
    }
}

impl Keyword {
    /// Offers the object `def` at the place `ctx` to this handler.
    pub fn compile(&self, def: &Value, ctx: &WalkContext) -> (r: KeywordResult)
        ensures
            answer_view(r) == self@.compiled(def@, ctx@),
        decreases self, 0int,
    {
        match self {
            Keyword::Maximum => maxmin::Maximum.compile(def, ctx),
            Keyword::ExclusiveMaximum => maxmin::ExclusiveMaximum.compile(def, ctx),
            Keyword::Minimum => maxmin::Minimum.compile(def, ctx),
            Keyword::ExclusiveMinimum => maxmin::ExclusiveMinimum.compile(def, ctx),
            Keyword::Required => required::Required.compile(def, ctx),
            Keyword::Const => const_::Const.compile(def, ctx),
            Keyword::Ref => ref_::Ref.compile(def, ctx),
            Keyword::Format(f) => f.compile(def, ctx),
        }
    }
}

/// The registry of keywords: the names that the compiler knows, and the
/// handlers that it offers every object to, in the order in which they were
/// registered.
#[derive(Debug)]
pub struct KeywordMap {
    pub names: Vec<String>,
    pub handlers: Vec<Keyword>,
}

/// The model of a registry.
pub struct Registry {
    pub names: Seq<Seq<char>>,
    pub handlers: Seq<Handler>,
}

impl Registry {
    /// Whether `name` was registered.
    pub open spec fn knows(self, name: Seq<char>) -> bool {
        self.names.contains(name)
    }

    /// The registry with one more handler, known under `keys`.
    pub open spec fn with(self, keys: Seq<Seq<char>>, keyword: Handler) -> Registry {
        Registry { names: self.names + keys, handlers: self.handlers.push(keyword) }
    }
}

/// The models of a list of handlers.
pub open spec fn handlers_view(handlers: Seq<Keyword>) -> Seq<Handler> {
    Seq::new(handlers.len(), |i: int| handlers[i]@)
}

impl View for KeywordMap {
    type V = Registry;

    open spec fn view(&self) -> Registry {
        Registry { names: texts(self.names@), handlers: handlers_view(self.handlers@) }
    }
}

/// The texts of a sequence of string slices.
pub open spec fn slices(keys: Seq<&'static str>) -> Seq<Seq<char>> {
    Seq::new(keys.len(), |i: int| keys[i]@)
}

impl KeywordMap {
    /// A registry that knows nothing.
    pub fn new() -> (r: KeywordMap)
        ensures
            r@ == (Registry { names: Seq::empty(), handlers: Seq::empty() }),
    {
        let r = KeywordMap { names: Vec::new(), handlers: Vec::new() };
        assert(r@.names =~= Seq::<Seq<char>>::empty());
        assert(r@.handlers =~= Seq::<Handler>::empty());
        r
    }

    /// Whether `name` was registered.
    pub fn knows(&self, name: &str) -> (r: bool)
        ensures
            r == self@.knows(name@),
    {
        let mut i: usize = 0;
        while i < self.names.len()
            invariant
                i <= self.names.len(),
                forall|j: int| 0 <= j < i ==> (#[trigger] self@.names[j]) != name@,
            decreases self.names.len() - i,
        {
            if same_text(self.names[i].as_str(), name) {
                assert(self@.names[i as int] == name@);
                return true;
            }
            i += 1;
        }
        false
    }
}

/// Registers one handler under the names `keyword.0`.
pub fn decouple_keyword(keyword: (Vec<&'static str>, Keyword), map: &mut KeywordMap)
    ensures
        final(map)@ == old(map)@.with(slices(keyword.0@), keyword.1@),
{
    let (keys, handler) = keyword;
    let mut i: usize = 0;
    while i < keys.len()
        invariant
            i <= keys.len(),
            map.handlers@ == old(map).handlers@,
            map@.handlers == old(map)@.handlers,
            map@.names == old(map)@.names + slices(keys@).take(i as int),
        decreases keys.len() - i,
    {
        let ghost before = map@.names;
        map.names.push(String::from_str(keys[i]));
        proof {
            assert(map@.names =~= before.push(keys[i as int]@));
            assert(slices(keys@).take(i as int + 1) =~= slices(keys@).take(i as int).push(
                keys[i as int]@,
            ));
            assert(map@.names =~= old(map)@.names + slices(keys@).take(i as int + 1));
        }
        i += 1;
    }
    proof {
        assert(slices(keys@).take(keys.len() as int) =~= slices(keys@));
    }
    let ghost before = map@.handlers;
    map.handlers.push(handler);
    proof {
        assert(map@.handlers =~= before.push(handler@));
    }
}

/// The registry of the keywords that are built in.
pub open spec fn default_registry() -> Registry {
    Registry { names: Seq::empty(), handlers: Seq::empty() }.with(
        seq!["maximum"@],
        Handler::Maximum,
    ).with(seq!["exclusiveMaximum"@], Handler::ExclusiveMaximum).with(
        seq!["minimum"@],
        Handler::Minimum,
    ).with(seq!["exclusiveMinimum"@], Handler::ExclusiveMinimum).with(
        seq!["required"@],
        Handler::Required,
    ).with(seq!["const"@], Handler::Const).with(seq!["$ref"@], Handler::Ref)
}

/// One name as a list of names.
fn single(name: &'static str) -> (r: Vec<&'static str>)
    ensures
        slices(r@) == seq![name@],
{
    let mut keys: Vec<&'static str> = Vec::new();
    keys.push(name);
    assert(slices(keys@) =~= seq![name@]);
    keys
}

/// The registry of the keywords that are built in.
pub fn default() -> (r: KeywordMap)
    ensures
        r@ == default_registry(),
{
    let mut map = KeywordMap::new();
    decouple_keyword((single("maximum"), Keyword::Maximum), &mut map);
    decouple_keyword((single("exclusiveMaximum"), Keyword::ExclusiveMaximum), &mut map);
    decouple_keyword((single("minimum"), Keyword::Minimum), &mut map);
    decouple_keyword((single("exclusiveMinimum"), Keyword::ExclusiveMinimum), &mut map);
    decouple_keyword((single("required"), Keyword::Required), &mut map);
    decouple_keyword((single("const"), Keyword::Const), &mut map);
    decouple_keyword((single("$ref"), Keyword::Ref), &mut map);
    map
}

} // verus!
