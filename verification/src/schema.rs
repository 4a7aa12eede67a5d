//! Compiled schemas, and the compiler that makes them.

use vstd::prelude::*;
use vstd::string::*;
use crate::keywords::Handler;
use crate::keywords::KeywordMap;
use crate::keywords::Registry;
use crate::scope::checks_outcome;
use crate::scope::lemma_failure_stays;
use crate::scope::outcome_view;
use crate::scope::schema_outcome;
use crate::scope::Scope;
use crate::text::decimal;
use crate::text::decimal_text;
use crate::text::escape_name;
use crate::text::escaped;
use crate::text::join_with_slash;
use crate::text::joined;
use crate::text::names_of_pointer;
use crate::text::pointer_names;
use crate::text::same_text;
use crate::text::texts;
use crate::uri::parse_url;
use crate::uri::resolve_url;
use crate::uri::text_view;
use crate::uri::url_parsed;
use crate::uri::url_resolved;
use crate::validators;
use crate::validators::Check;
use crate::validators::Failure;
use crate::validators::ResolutionFailure;
use crate::validators::ValidationState;
use crate::validators::Validator;
use crate::validators::Violation;
use crate::value::first_at;
use crate::value::lemma_absent_has_no_position;
use crate::value::lemma_first_is_position;
use crate::value::position;
use crate::value::Json;
use crate::value::Value;

verus! {

/// Where the compiler stands in a schema document: the URL against which
/// references are resolved, and the names that lead from the root of the
/// document to the node that is being compiled.
#[derive(Debug)]
pub struct WalkContext {
    pub url: String,
    pub fragment: Vec<String>,
}

/// The model of a place in a schema document.
pub struct Walk {
    pub url: Seq<char>,
    pub fragment: Seq<Seq<char>>,
}

impl View for WalkContext {
    type V = Walk;

    open spec fn view(&self) -> Walk {
        Walk { url: self.url@, fragment: texts(self.fragment@) }
    }
}

impl WalkContext {
    /// The root of a document with the given base URL.
    pub fn new(url: String) -> (r: WalkContext)
        ensures
            r@ == (Walk { url: url@, fragment: Seq::empty() }),
    {
        let r = WalkContext { url, fragment: Vec::new() };
        assert(r@.fragment =~= Seq::<Seq<char>>::empty());
        r
    }

    /// The place one step further down, under `key`. This context stays as
    /// it is.
    pub fn descend(&self, key: &str) -> (r: WalkContext)
        ensures
            r@ == (Walk { url: self@.url, fragment: self@.fragment.push(key@) }),
    {
        let mut fragment: Vec<String> = Vec::new();
        let mut i: usize = 0;
        while i < self.fragment.len()
            invariant
                i <= self.fragment.len(),
                fragment.len() == i,
                forall|j: int| 0 <= j < i ==> (#[trigger] fragment[j])@ == self.fragment[j]@,
            decreases self.fragment.len() - i,
        {
            fragment.push(self.fragment[i].clone());
            i += 1;
        }
        fragment.push(String::from_str(key));
        let r = WalkContext { url: self.url.clone(), fragment };
        assert(r@.fragment =~= self@.fragment.push(key@));
        r
    }

    /// The same place, with another base URL.
    pub fn rebase(&self, url: String) -> (r: WalkContext)
        ensures
            r@ == (Walk { url: url@, fragment: self@.fragment }),
    {
        let mut fragment: Vec<String> = Vec::new();
        let mut i: usize = 0;
        while i < self.fragment.len()
            invariant
                i <= self.fragment.len(),
                fragment.len() == i,
                forall|j: int| 0 <= j < i ==> (#[trigger] fragment[j])@ == self.fragment[j]@,
            decreases self.fragment.len() - i,
        {
            fragment.push(self.fragment[i].clone());
            i += 1;
        }
        let r = WalkContext { url, fragment };
        assert(r@.fragment =~= self@.fragment);
        r
    }

    /// The names of this place, joined with `/`.
    pub fn path(&self) -> (r: String)
        ensures
            r@ == joined(self@.fragment),
    {
        join_with_slash(&self.fragment)
    }
}

/// Why a schema could not be compiled or registered.
#[derive(Debug)]
pub enum SchemaError {
    /// The value of a keyword does not have the shape that the keyword asks
    /// for. `path` is the place in the schema document, `detail` the cause.
    Malformed { path: String, detail: String },
    /// A schema was to be registered under an identifier with a fragment.
    WrongId,
    /// A schema was to be registered under an identifier that is taken.
    IdConflicts,
}

/// The model of a compile error.
pub enum CompileError {
    Malformed { path: Seq<char>, detail: Seq<char> },
    WrongId,
    IdConflicts,
}

impl View for SchemaError {
    type V = CompileError;

    open spec fn view(&self) -> CompileError {
        match self {
            SchemaError::Malformed { path, detail } => CompileError::Malformed {
                path: path@,
                detail: detail@,
            },
            SchemaError::WrongId => CompileError::WrongId,
            SchemaError::IdConflicts => CompileError::IdConflicts,
        }
    }
}

/// The error for a malformed keyword at the place `ctx`.
pub open spec fn malformed_at(ctx: Walk, detail: Seq<char>) -> CompileError {
    CompileError::Malformed { path: joined(ctx.fragment), detail }
}

/// The error for a malformed keyword at the place `ctx`.
pub fn malformed(ctx: &WalkContext, detail: &str) -> (r: SchemaError)
    ensures
        r@ == malformed_at(ctx@, detail@),
{
    SchemaError::Malformed { path: ctx.path(), detail: String::from_str(detail) }
}

/// A compiled schema: the identifier it declares, its validators in the
/// order in which they run, and the schemas nested in it, each under the
/// name by which a pointer reaches it.
#[derive(Debug)]
pub struct Schema {
    pub id: Option<String>,
    pub validators: Vec<Validator>,
    pub tree: Vec<(String, Schema)>,
}

/// The model of a compiled schema.
pub struct SchemaModel {
    pub id: Option<Seq<char>>,
    pub checks: Seq<Check>,
    pub children: Seq<(Seq<char>, SchemaModel)>,
}

/// The model of a schema: each part of it taken by its own model.
pub open spec fn model_of(schema: Schema) -> SchemaModel
    decreases schema,
{
    SchemaModel {
        id: match schema.id {
            Some(id) => Some(id@),
            None => None,
        },
        checks: Seq::new(schema.validators@.len(), |i: int| schema.validators@[i]@),
        children: Seq::new(
            schema.tree@.len(),
            |i: int|
                if 0 <= i < schema.tree@.len() {
                    (schema.tree@[i].0@, model_of(schema.tree@[i].1))
                } else {
                    (Seq::empty(), SchemaModel { id: None, checks: Seq::empty(), children: Seq::empty() })
                },
        ),
    }
}

impl View for Schema {
    type V = SchemaModel;

    open spec fn view(&self) -> SchemaModel {
        model_of(*self)
    }
}

/// The models of the nested schemas, each with its name.
pub open spec fn tree_view(tree: Seq<(String, Schema)>) -> Seq<(Seq<char>, SchemaModel)> {
    Seq::new(tree.len(), |i: int| (tree[i].0@, tree[i].1@))
}

/// The models of a list of validators.
pub open spec fn checks_view(validators: Seq<Validator>) -> Seq<Check> {
    Seq::new(validators.len(), |i: int| validators[i]@)
}

/// The schema that holds `id`, in a sub-schema at or after position `from`
/// of `children` or nested in one: the first in document order, a schema
/// before what is nested in it.
pub open spec fn find_in(children: Seq<(Seq<char>, SchemaModel)>, id: Seq<char>, from: int) -> Option<
    SchemaModel,
>
    decreases children, children.len() - from,
{
    if from < 0 || from >= children.len() {
        None
    } else {
        let head = children[from].1;
        if head.id == Some(id) {
            Some(head)
        } else {
            match find_in(head.children, id, 0) {
                Some(found) => Some(found),
                None => find_in(children, id, from + 1),
            }
        }
    }
}

impl SchemaModel {
    /// The nested schema with the given name: the first that carries it.
    pub open spec fn child(self, name: Seq<char>) -> Option<SchemaModel> {
        match position(self.children, name) {
            Some(i) => Some(self.children[i].1),
            None => None,
        }
    }

    /// The schema that is reached by going down one name after the other.
    pub open spec fn at(self, names: Seq<Seq<char>>) -> Option<SchemaModel>
        decreases names.len(),
    {
        if names.len() == 0 {
            Some(self)
        } else {
            match self.child(names[0]) {
                None => None,
                Some(c) => c.at(names.drop_first()),
            }
        }
    }

    /// The schema that a fragment addresses.
    pub open spec fn at_fragment(self, fragment: Seq<char>) -> Option<SchemaModel> {
        self.at(pointer_names(fragment))
    }

    /// The schema nested in this one that declares the identifier `id`.
    pub open spec fn find(self, id: Seq<char>) -> Option<SchemaModel> {
        find_in(self.children, id, 0)
    }
}

impl Schema {
    /// The nested schema with the given name.
    pub fn child(&self, name: &str) -> (r: Option<&Schema>)
        ensures
            match r {
                Some(c) => self@.child(name@) == Some(c@),
                None => self@.child(name@) is None,
            },
    {
        let mut i: usize = 0;
        while i < self.tree.len()
            invariant
                i <= self.tree.len(),
                self@.children.len() == self.tree.len(),
                forall|j: int| 0 <= j < i ==> (#[trigger] self@.children[j]).0 != name@,
            decreases self.tree.len() - i,
        {
            if same_text(self.tree[i].0.as_str(), name) {
                proof {
                    assert(first_at(self@.children, name@, i as int));
                    lemma_first_is_position(self@.children, name@, i as int);
                }
                return Some(&self.tree[i].1);
            }
            i += 1;
        }
        proof {
            lemma_absent_has_no_position(self@.children, name@);
        }
        None
    }

    /// The schema that a fragment addresses: a fragment that starts with
    /// `/` is a pointer, whose names are followed one after the other; any
    /// other fragment is a single name.
    pub fn resolve_fragment(&self, fragment: &str) -> (r: Option<&Schema>)
        ensures
            match r {
                Some(s) => self@.at_fragment(fragment@) == Some(s@),
                None => self@.at_fragment(fragment@) is None,
            },
    {
        let names = names_of_pointer(fragment);
        let ghost all = pointer_names(fragment@);
        let mut current = self;
        let mut i: usize = 0;
        proof {
            assert(all.skip(0) =~= all);
        }
        while i < names.len()
            invariant
                i <= names.len(),
                all == texts(names@),
                all == pointer_names(fragment@),
                self@.at(all) == current@.at(all.skip(i as int)),
            decreases names.len() - i,
        {
            proof {
                assert(all.skip(i as int)[0] == names[i as int]@);
                assert(all.skip(i as int).drop_first() =~= all.skip(i as int + 1));
            }
            match current.child(names[i].as_str()) {
                None => {
                    return None;
                },
                Some(next) => {
                    current = next;
                },
            }
            i += 1;
        }
        Some(current)
    }

    /// Runs every validator of this schema on `data` at `path`, in their
    /// order, and collects what they report. No violation stops the
    /// others; a reference that cannot be followed in `scope` ends the
    /// validation.
    pub fn validate_in_scope(&self, data: &Value, path: &str, scope: &Scope, depth: usize) -> (r: Result<
        ValidationState,
        ResolutionFailure,
    >)
        requires
            scope.wf(),
        ensures
            outcome_view(r) == schema_outcome(scope@, self@, data@, path@, depth as nat),
        decreases depth, 2int,
    {
        let mut state = ValidationState::new();
        let ghost checks = self@.checks;
        let mut i: usize = 0;
        while i < self.validators.len()
            invariant
                i <= self.validators.len(),
                scope.wf(),
                checks == self@.checks,
                checks.len() == self.validators.len(),
                checks_outcome(scope@, checks, data@, path@, depth as nat, i as int) == Ok::<
                    Seq<Violation>,
                    Failure,
                >(state@),
            decreases self.validators.len() - i,
        {
            proof {
                assert(checks[i as int] == self.validators[i as int]@);
            }
            match self.validators[i].validate(data, path, scope, depth) {
                Err(failure) => {
                    proof {
                        lemma_failure_stays(
                            scope@,
                            checks,
                            data@,
                            path@,
                            depth as nat,
                            i as int + 1,
                            checks.len() as int,
                        );
                    }
                    return Err(failure);
                },
                Ok(more) => {
                    state.append(more);
                },
            }
            i += 1;
        }
        Ok(state)
    }

    /// The schema nested in this one that declares the identifier `id`.
    pub fn resolve(&self, id: &str) -> (r: Option<&Schema>)
        ensures
            match r {
                Some(s) => self@.find(id@) == Some(s@),
                None => self@.find(id@) is None,
            },
        decreases self,
    {
        let mut i: usize = 0;
        while i < self.tree.len()
            invariant
                i <= self.tree.len(),
                self@.children.len() == self.tree.len(),
                self@.find(id@) == find_in(self@.children, id@, i as int),
            decreases self.tree.len() - i,
        {
            let child = &self.tree[i].1;
            proof {
                assert(self@.children[i as int].1 == child@);
            }
            let here = match &child.id {
                Some(declared) => same_text(declared.as_str(), id),
                None => false,
            };
            if here {
                return Some(child);
            }
            match child.resolve(id) {
                Some(found) => {
                    return Some(found);
                },
                None => {},
            }
            i += 1;
        }
        None
    }
}

/// What a node of a schema document is compiled as.
#[derive(Clone, Copy, Debug, PartialEq, Eq, Structural)]
pub enum NodeKind {
    /// The root of a document: a schema whose identifier is the base URL of
    /// its context.
    Root,
    /// A schema below the root: its keywords are compiled, and it may
    /// declare an identifier of its own.
    Schema,
    /// A node that only holds schemas, under names or positions: it has no
    /// keywords and no identifier.
    Container,
}

/// The cause given for a schema that is neither an object nor a boolean.
pub const NOT_A_SCHEMA: &'static str = "A schema must be an object or a boolean";

/// The cause given for an `$id` that is no string or holds no URL.
pub const BAD_ID: &'static str = "The value of $id MUST be a string that holds a URL";

/// The cause given for a document that is compiled without an identifier.
pub const NO_ID: &'static str = "A schema that is registered MUST declare an $id";

/// The cause given for a keyword that is not known, where those are banned.
pub const UNKNOWN_KEYWORD: &'static str = "The schema holds a keyword that is not known";

/// The keywords whose values are data, not schemas: nothing is compiled
/// below them.
pub open spec fn is_data_key(key: Seq<char>) -> bool {
    ||| key == "const"@
    ||| key == "default"@
    ||| key == "enum"@
    ||| key == "examples"@
    ||| key == "required"@
    ||| key == "type"@
}

/// The keywords whose values hold schemas under names or positions.
pub open spec fn is_container_key(key: Seq<char>) -> bool {
    ||| key == "properties"@
    ||| key == "patternProperties"@
    ||| key == "definitions"@
    ||| key == "$defs"@
    ||| key == "dependencies"@
    ||| key == "allOf"@
    ||| key == "anyOf"@
    ||| key == "oneOf"@
}

/// The keywords that describe or place a schema and validate nothing: they
/// may stand in a schema also where unknown keywords are banned.
pub open spec fn is_structural_key(key: Seq<char>) -> bool {
    ||| key == "$id"@
    ||| key == "$schema"@
    ||| key == "$comment"@
    ||| key == "title"@
    ||| key == "description"@
    ||| key == "default"@
    ||| key == "examples"@
    ||| key == "definitions"@
    ||| key == "$defs"@
}

/// Whether `key` is one of the keywords whose values are data.
pub fn data_key(key: &str) -> (r: bool)
    ensures
        r == is_data_key(key@),
{
    same_text(key, "const") || same_text(key, "default") || same_text(key, "enum") || same_text(
        key,
        "examples",
    ) || same_text(key, "required") || same_text(key, "type")
}

/// Whether `key` is one of the keywords whose values hold schemas.
pub fn container_key(key: &str) -> (r: bool)
    ensures
        r == is_container_key(key@),
{
    same_text(key, "properties") || same_text(key, "patternProperties") || same_text(
        key,
        "definitions",
    ) || same_text(key, "$defs") || same_text(key, "dependencies") || same_text(key, "allOf")
        || same_text(key, "anyOf") || same_text(key, "oneOf")
}

/// Whether `key` is one of the keywords that validate nothing.
pub fn structural_key(key: &str) -> (r: bool)
    ensures
        r == is_structural_key(key@),
{
    same_text(key, "$id") || same_text(key, "$schema") || same_text(key, "$comment") || same_text(
        key,
        "title",
    ) || same_text(key, "description") || same_text(key, "default") || same_text(key, "examples")
        || same_text(key, "definitions") || same_text(key, "$defs")
}

/// Whether a value can be compiled as a node.
pub open spec fn is_schema_shape(value: Json) -> bool {
    value is Object || value is Array || value is Bool
}

/// Whether the member `key` of a node of kind `kind` is compiled as a node
/// below it.
pub open spec fn descends(kind: NodeKind, key: Seq<char>, value: Json) -> bool {
    is_schema_shape(value) && (kind is Container || !is_data_key(key))
}

/// What the member `key` of a node of kind `kind` is compiled as.
pub open spec fn child_kind(kind: NodeKind, key: Seq<char>) -> NodeKind {
    if kind is Container {
        NodeKind::Schema
    } else if is_container_key(key) {
        NodeKind::Container
    } else {
        NodeKind::Schema
    }
}

/// The place one step below `ctx`, under `key`.
pub open spec fn step(ctx: Walk, key: Seq<char>) -> Walk {
    Walk { url: ctx.url, fragment: ctx.fragment.push(key) }
}

/// The identifier of a node, once the URL parser has said what its `$id`
/// resolves to.
pub open spec fn identifier_from(resolved: Option<Seq<char>>, ctx: Walk) -> Result<
    Option<Seq<char>>,
    CompileError,
> {
    match resolved {
        Some(url) => Ok(Some(url)),
        None => Err(malformed_at(ctx, BAD_ID@)),
    }
}

/// The identifier that the object `def` has as a node of kind `kind` at
/// `ctx`. The root has the base URL of its context. A schema below it has
/// what its `$id` resolves to against the base URL, none where it has no
/// `$id`, and an error where the `$id` is no string or resolves to nothing.
pub open spec fn declared_id(def: Json, ctx: Walk, kind: NodeKind) -> Result<
    Option<Seq<char>>,
    CompileError,
> {
    match kind {
        NodeKind::Root => Ok(Some(ctx.url)),
        NodeKind::Container => Ok(None),
        NodeKind::Schema => match def.member("$id"@) {
            None => Ok(None),
            Some(Json::String(id)) => identifier_from(url_resolved(ctx.url, id), ctx),
            Some(_) => Err(malformed_at(ctx, BAD_ID@)),
        },
    }
}

/// The validators that the first `n` handlers make of the object `def`:
/// each handler is offered the object, in the order of the registry, and
/// the first error ends the compilation.
pub open spec fn keyword_checks_upto(handlers: Seq<Handler>, def: Json, ctx: Walk, n: int) -> Result<
    Seq<Check>,
    CompileError,
>
    decreases n,
{
    if n <= 0 || n > handlers.len() {
        Ok(Seq::empty())
    } else {
        match keyword_checks_upto(handlers, def, ctx, n - 1) {
            Err(e) => Err(e),
            Ok(checks) => match handlers[n - 1].compiled(def, ctx) {
                Err(e) => Err(e),
                Ok(None) => Ok(checks),
                Ok(Some(check)) => Ok(checks.push(check)),
            },
        }
    }
}

/// The validators that the handlers make of the object `def`.
pub open spec fn keyword_checks(handlers: Seq<Handler>, def: Json, ctx: Walk) -> Result<
    Seq<Check>,
    CompileError,
> {
    keyword_checks_upto(handlers, def, ctx, handlers.len() as int)
}

/// Whether one of the entries carries a name that is neither registered nor
/// structural.
pub open spec fn has_unknown(registry: Registry, entries: Seq<(Seq<char>, Json)>) -> bool {
    exists|i: int|
        0 <= i < entries.len() && !registry.knows((#[trigger] entries[i]).0) && !is_structural_key(
            entries[i].0,
        )
}

/// A schema without validators and without nested schemas.
pub open spec fn leaf(id: Option<Seq<char>>, checks: Seq<Check>) -> SchemaModel {
    SchemaModel { id, checks, children: Seq::empty() }
}

/// The identifier of a node that cannot declare one.
pub open spec fn inherent_id(ctx: Walk, kind: NodeKind) -> Option<Seq<char>> {
    if kind is Root {
        Some(ctx.url)
    } else {
        None
    }
}

/// The schema that the value `value` compiles to as a node of kind `kind`
/// at the place `ctx`, or the first error that the compiler meets.
///
/// `true` accepts every instance and `false` none. An array holds one
/// schema for each element that can be one, under its position. An object
/// has its identifier read first; its members are compiled next, in their
/// order, with the identifier as their base URL where there is one; then
/// its keywords; and last, where unknown keywords are banned, its names
/// are checked. Any other value is no schema.
pub open spec fn compiled_node(
    value: Json,
    ctx: Walk,
    registry: Registry,
    ban_unknown: bool,
    kind: NodeKind,
) -> Result<SchemaModel, CompileError>
    decreases value, 0int,
{
    match value {
        Json::Bool(accept) => Ok(
            leaf(
                inherent_id(ctx, kind),
                if accept {
                    Seq::empty()
                } else {
                    seq![Check::Never]
                },
            ),
        ),
        Json::Array(items) => match compiled_items(items, ctx, registry, ban_unknown, items.len() as int) {
            Err(e) => Err(e),
            Ok(children) => Ok(SchemaModel { id: None, checks: Seq::empty(), children }),
        },
        Json::Object(entries) => match declared_id(value, ctx, kind) {
            Err(e) => Err(e),
            Ok(id) => {
                let inner = Walk {
                    url: match id {
                        Some(url) => url,
                        None => ctx.url,
                    },
                    fragment: ctx.fragment,
                };
                match compiled_members(entries, inner, registry, ban_unknown, kind, entries.len() as int) {
                    Err(e) => Err(e),
                    Ok(children) => if kind is Container {
                        Ok(SchemaModel { id, checks: Seq::empty(), children })
                    } else {
                        match keyword_checks(registry.handlers, value, inner) {
                            Err(e) => Err(e),
                            Ok(checks) => if ban_unknown && has_unknown(registry, entries) {
                                Err(malformed_at(inner, UNKNOWN_KEYWORD@))
                            } else {
                                Ok(SchemaModel { id, checks, children })
                            },
                        }
                    },
                }
            },
        },
        _ => Err(malformed_at(ctx, NOT_A_SCHEMA@)),
    }
}

/// The schemas that the first `n` elements of an array compile to, each
/// under its position written in decimal.
pub open spec fn compiled_items(
    items: Seq<Json>,
    ctx: Walk,
    registry: Registry,
    ban_unknown: bool,
    n: int,
) -> Result<Seq<(Seq<char>, SchemaModel)>, CompileError>
    decreases items, n,
{
    if n <= 0 || n > items.len() {
        Ok(Seq::empty())
    } else {
        match compiled_items(items, ctx, registry, ban_unknown, n - 1) {
            Err(e) => Err(e),
            Ok(done) => {
                let name = decimal((n - 1) as nat);
                if !is_schema_shape(items[n - 1]) {
                    Ok(done)
                } else {
                    match compiled_node(
                        items[n - 1],
                        step(ctx, name),
                        registry,
                        ban_unknown,
                        NodeKind::Schema,
                    ) {
                        Err(e) => Err(e),
                        Ok(child) => Ok(done.push((name, child))),
                    }
                }
            },
        }
    }
}

/// The schemas that the first `n` members of an object compile to, each
/// under its name as a pointer writes it.
pub open spec fn compiled_members(
    entries: Seq<(Seq<char>, Json)>,
    ctx: Walk,
    registry: Registry,
    ban_unknown: bool,
    kind: NodeKind,
    n: int,
) -> Result<Seq<(Seq<char>, SchemaModel)>, CompileError>
    decreases entries, n,
{
    if n <= 0 || n > entries.len() {
        Ok(Seq::empty())
    } else {
        match compiled_members(entries, ctx, registry, ban_unknown, kind, n - 1) {
            Err(e) => Err(e),
            Ok(done) => {
                let key = entries[n - 1].0;
                if !descends(kind, key, entries[n - 1].1) {
                    Ok(done)
                } else {
                    match compiled_node(
                        entries[n - 1].1,
                        step(ctx, key),
                        registry,
                        ban_unknown,
                        child_kind(kind, key),
                    ) {
                        Err(e) => Err(e),
                        Ok(child) => Ok(done.push((escaped(key), child))),
                    }
                }
            },
        }
    }
}

/// An error among the first handlers is the error of all of them.
proof fn lemma_keyword_error_stays(handlers: Seq<Handler>, def: Json, ctx: Walk, n: int, m: int)
    requires
        0 <= n <= m <= handlers.len(),
        keyword_checks_upto(handlers, def, ctx, n) is Err,
    ensures
        keyword_checks_upto(handlers, def, ctx, m) == keyword_checks_upto(handlers, def, ctx, n),
    decreases m - n,
{
    if n < m {
        lemma_keyword_error_stays(handlers, def, ctx, n, m - 1);
    }
}

/// An error among the first elements is the error of all of them.
proof fn lemma_items_error_stays(
    items: Seq<Json>,
    ctx: Walk,
    registry: Registry,
    ban_unknown: bool,
    n: int,
    m: int,
)
    requires
        0 <= n <= m <= items.len(),
        compiled_items(items, ctx, registry, ban_unknown, n) is Err,
    ensures
        compiled_items(items, ctx, registry, ban_unknown, m) == compiled_items(
            items,
            ctx,
            registry,
            ban_unknown,
            n,
        ),
    decreases m - n,
{
    if n < m {
        lemma_items_error_stays(items, ctx, registry, ban_unknown, n, m - 1);
    }
}

/// An error among the first members is the error of all of them.
proof fn lemma_members_error_stays(
    entries: Seq<(Seq<char>, Json)>,
    ctx: Walk,
    registry: Registry,
    ban_unknown: bool,
    kind: NodeKind,
    n: int,
    m: int,
)
    requires
        0 <= n <= m <= entries.len(),
        compiled_members(entries, ctx, registry, ban_unknown, kind, n) is Err,
    ensures
        compiled_members(entries, ctx, registry, ban_unknown, kind, m) == compiled_members(
            entries,
            ctx,
            registry,
            ban_unknown,
            kind,
            n,
        ),
    decreases m - n,
{
    if n < m {
        lemma_members_error_stays(entries, ctx, registry, ban_unknown, kind, n, m - 1);
    }
}

/// What the compiler is set up with: the registry of keywords, and whether
/// a keyword that is not known is an error.
pub struct CompilationSettings<'a> {
    pub keywords: &'a KeywordMap,
    pub ban_unknown_keywords: bool,
}

impl<'a> CompilationSettings<'a> {
    /// Settings with the given registry.
    pub fn new(keywords: &'a KeywordMap, ban_unknown_keywords: bool) -> (r: CompilationSettings<'a>)
        ensures
            r.keywords == keywords,
            r.ban_unknown_keywords == ban_unknown_keywords,
    {
        CompilationSettings { keywords, ban_unknown_keywords }
    }
}

/// Whether a value can be compiled as a node.
pub fn schema_shape(value: &Value) -> (r: bool)
    ensures
        r == is_schema_shape(value@),
{
    match value {
        Value::Object(_) => true,
        Value::Array(_) => true,
        Value::Bool(_) => true,
        _ => false,
    }
}

/// The identifier of a node of whose `$id` the URL parser made `resolved`.
pub fn identifier_of(resolved: Option<String>, ctx: &WalkContext) -> (r: Result<
    Option<String>,
    SchemaError,
>)
    ensures
        match r {
            Ok(id) => identifier_from(text_view(resolved), ctx@) == Ok::<
                Option<Seq<char>>,
                CompileError,
            >(text_view(id)),
            Err(e) => identifier_from(text_view(resolved), ctx@) == Err::<
                Option<Seq<char>>,
                CompileError,
            >(e@),
        },
{
    match resolved {
        Some(url) => Ok(Some(url)),
        None => Err(malformed(ctx, BAD_ID)),
    }
}

/// Reads the identifier that the object `def` has as a node of kind `kind`.
pub fn read_id(def: &Value, ctx: &WalkContext, kind: NodeKind) -> (r: Result<
    Option<String>,
    SchemaError,
>)
    ensures
        match r {
            Ok(id) => declared_id(def@, ctx@, kind) == Ok::<Option<Seq<char>>, CompileError>(
                text_view(id),
            ),
            Err(e) => declared_id(def@, ctx@, kind) == Err::<Option<Seq<char>>, CompileError>(e@),
        },
{
    match kind {
        NodeKind::Root => Ok(Some(ctx.url.clone())),
        NodeKind::Container => Ok(None),
        NodeKind::Schema => match def.get("$id") {
            None => Ok(None),
            Some(value) => match value.as_str() {
                Some(id) => identifier_of(resolve_url(ctx.url.as_str(), id), ctx),
                None => Err(malformed(ctx, BAD_ID)),
            },
        },
    }
}

/// Offers the object `def` to every handler of the registry.
pub fn compile_keywords(def: &Value, ctx: &WalkContext, settings: &CompilationSettings) -> (r: Result<
    Vec<Validator>,
    SchemaError,
>)
    ensures
        match r {
            Ok(validators) => keyword_checks(settings.keywords@.handlers, def@, ctx@) == Ok::<
                Seq<Check>,
                CompileError,
            >(checks_view(validators@)),
            Err(e) => keyword_checks(settings.keywords@.handlers, def@, ctx@) == Err::<
                Seq<Check>,
                CompileError,
            >(e@),
        },
{
    let handlers = &settings.keywords.handlers;
    let ghost models = settings.keywords@.handlers;
    let mut validators: Vec<Validator> = Vec::new();
    let mut i: usize = 0;
    proof {
        assert(checks_view(validators@) =~= Seq::<Check>::empty());
    }
    while i < handlers.len()
        invariant
            i <= handlers.len(),
            *handlers == settings.keywords.handlers,
            models == settings.keywords@.handlers,
            models.len() == handlers.len(),
            keyword_checks_upto(models, def@, ctx@, i as int) == Ok::<Seq<Check>, CompileError>(
                checks_view(validators@),
            ),
        decreases handlers.len() - i,
    {
        proof {
            assert(models[i as int] == handlers[i as int]@);
        }
        match handlers[i].compile(def, ctx) {
            Err(e) => {
                proof {
                    lemma_keyword_error_stays(
                        models,
                        def@,
                        ctx@,
                        i as int + 1,
                        handlers.len() as int,
                    );
                }
                return Err(e);
            },
            Ok(None) => {},
            Ok(Some(validator)) => {
                let ghost before = checks_view(validators@);
                validators.push(validator);
                proof {
                    assert(checks_view(validators@) =~= before.push(validator@));
                }
            },
        }
        i += 1;
    }
    Ok(validators)
}

/// Whether one of the entries carries a name that is neither registered nor
/// structural.
pub fn holds_unknown(registry: &KeywordMap, entries: &Vec<(String, Value)>) -> (r: bool)
    ensures
        r == has_unknown(registry@, Value::Object(*entries)@.entries()),
{
    let ghost model = Value::Object(*entries)@.entries();
    let mut i: usize = 0;
    while i < entries.len()
        invariant
            i <= entries.len(),
            model == Value::Object(*entries)@.entries(),
            model.len() == entries.len(),
            forall|j: int|
                0 <= j < i ==> registry@.knows((#[trigger] model[j]).0) || is_structural_key(
                    model[j].0,
                ),
        decreases entries.len() - i,
    {
        let key = entries[i].0.as_str();
        if !registry.knows(key) && !structural_key(key) {
            assert(!registry@.knows(model[i as int].0) && !is_structural_key(model[i as int].0));
            return true;
        }
        i += 1;
    }
    false
}

/// Compiles the value `value` as a node of kind `kind` at the place `ctx`:
/// see [`compiled_node`].
pub fn compile_node(
    value: &Value,
    ctx: &WalkContext,
    settings: &CompilationSettings,
    kind: NodeKind,
) -> (r: Result<Schema, SchemaError>)
    ensures
        match r {
            Ok(schema) => compiled_node(
                value@,
                ctx@,
                settings.keywords@,
                settings.ban_unknown_keywords,
                kind,
            ) == Ok::<SchemaModel, CompileError>(schema@),
            Err(e) => compiled_node(
                value@,
                ctx@,
                settings.keywords@,
                settings.ban_unknown_keywords,
                kind,
            ) == Err::<SchemaModel, CompileError>(e@),
        },
    decreases value,
{
    let ghost registry = settings.keywords@;
    let ghost ban = settings.ban_unknown_keywords;
    match value {
        Value::Bool(accept) => {
            let mut validators: Vec<Validator> = Vec::new();
            if !*accept {
                validators.push(Validator::Never(validators::never::Never));
            }
            let id = match kind {
                NodeKind::Root => Some(ctx.url.clone()),
                _ => None,
            };
            let schema = Schema { id, validators, tree: Vec::new() };
            proof {
                assert(schema@.children =~= Seq::<(Seq<char>, SchemaModel)>::empty());
                if *accept {
                    assert(schema@.checks =~= Seq::<Check>::empty());
                } else {
                    assert(schema@.checks =~= seq![Check::Never]);
                }
            }
            Ok(schema)
        },
        Value::Array(items) => {
            let ghost model = value@.elements();
            let mut tree: Vec<(String, Schema)> = Vec::new();
            let mut i: usize = 0;
            proof {
                assert(tree_view(tree@) =~= Seq::<(Seq<char>, SchemaModel)>::empty());
            }
            while i < items.len()
                invariant
                    i <= items.len(),
                    *value == Value::Array(*items),
                    model == value@.elements(),
                    model.len() == items.len(),
                    registry == settings.keywords@,
                    ban == settings.ban_unknown_keywords,
                    compiled_items(model, ctx@, registry, ban, i as int) == Ok::<
                        Seq<(Seq<char>, SchemaModel)>,
                        CompileError,
                    >(tree_view(tree@)),
                decreases items.len() - i,
            {
                let item = &items[i];
                proof {
                    assert(model[i as int] == item@);
                    assert(value->Array_0 == *items);
                    assert(decreases_to!(*value => value->Array_0));
                }
                if schema_shape(item) {
                    let name = decimal_text(i);
                    let inner = ctx.descend(name.as_str());
                    match compile_node(item, &inner, settings, NodeKind::Schema) {
                        Err(e) => {
                            proof {
                                lemma_items_error_stays(
                                    model,
                                    ctx@,
                                    registry,
                                    ban,
                                    i as int + 1,
                                    items.len() as int,
                                );
                            }
                            return Err(e);
                        },
                        Ok(child) => {
                            let ghost before = tree_view(tree@);
                            tree.push((name, child));
                            proof {
                                assert(tree_view(tree@) =~= before.push((name@, child@)));
                            }
                        },
                    }
                }
                i += 1;
            }
            let schema = Schema { id: None, validators: Vec::new(), tree };
            proof {
                assert(schema@.children =~= tree_view(tree@));
                assert(schema@.checks =~= Seq::<Check>::empty());
            }
            Ok(schema)
        },
        Value::Object(entries) => {
            let id = match read_id(value, ctx, kind) {
                Err(e) => {
                    return Err(e);
                },
                Ok(id) => id,
            };
            let inner = match &id {
                Some(url) => ctx.rebase(url.clone()),
                None => ctx.rebase(ctx.url.clone()),
            };
            let ghost model = value@.entries();
            let mut tree: Vec<(String, Schema)> = Vec::new();
            let mut i: usize = 0;
            proof {
                assert(tree_view(tree@) =~= Seq::<(Seq<char>, SchemaModel)>::empty());
            }
            while i < entries.len()
                invariant
                    i <= entries.len(),
                    *value == Value::Object(*entries),
                    model == value@.entries(),
                    model.len() == entries.len(),
                    declared_id(value@, ctx@, kind) == Ok::<Option<Seq<char>>, CompileError>(
                        text_view(id),
                    ),
                    inner@ == (Walk {
                        url: match text_view(id) {
                            Some(url) => url,
                            None => ctx@.url,
                        },
                        fragment: ctx@.fragment,
                    }),
                    registry == settings.keywords@,
                    ban == settings.ban_unknown_keywords,
                    compiled_members(model, inner@, registry, ban, kind, i as int) == Ok::<
                        Seq<(Seq<char>, SchemaModel)>,
                        CompileError,
                    >(tree_view(tree@)),
                decreases entries.len() - i,
            {
                let key = entries[i].0.as_str();
                let member = &entries[i].1;
                proof {
                    assert(model[i as int] == (key@, member@));
                    assert(value->Object_0 == *entries);
                    assert(decreases_to!(*value => value->Object_0));
                }
                let is_container = match kind {
                    NodeKind::Container => true,
                    _ => false,
                };
                if schema_shape(member) && (is_container || !data_key(key)) {
                    let below = if is_container {
                        NodeKind::Schema
                    } else if container_key(key) {
                        NodeKind::Container
                    } else {
                        NodeKind::Schema
                    };
                    let place = inner.descend(key);
                    match compile_node(member, &place, settings, below) {
                        Err(e) => {
                            proof {
                                lemma_members_error_stays(
                                    model,
                                    inner@,
                                    registry,
                                    ban,
                                    kind,
                                    i as int + 1,
                                    entries.len() as int,
                                );
                            }
                            return Err(e);
                        },
                        Ok(child) => {
                            let name = escape_name(key);
                            let ghost before = tree_view(tree@);
                            tree.push((name, child));
                            proof {
                                assert(tree_view(tree@) =~= before.push((name@, child@)));
                            }
                        },
                    }
                }
                i += 1;
            }
            let is_container = match kind {
                NodeKind::Container => true,
                _ => false,
            };
            if is_container {
                let schema = Schema { id, validators: Vec::new(), tree };
                proof {
                    assert(schema@.children =~= tree_view(tree@));
                    assert(schema@.checks =~= Seq::<Check>::empty());
                }
                return Ok(schema);
            }
            let validators = match compile_keywords(value, &inner, settings) {
                Err(e) => {
                    return Err(e);
                },
                Ok(validators) => validators,
            };
            if settings.ban_unknown_keywords && holds_unknown(settings.keywords, entries) {
                return Err(malformed(&inner, UNKNOWN_KEYWORD));
            }
            let schema = Schema { id, validators, tree };
            proof {
                assert(schema@.children =~= tree_view(tree@));
                assert(schema@.checks =~= checks_view(validators@));
            }
            Ok(schema)
        },
        _ => Err(malformed(ctx, NOT_A_SCHEMA)),
    }
}

/// The error for a document that cannot be compiled at all.
pub open spec fn root_error(detail: Seq<char>) -> CompileError {
    CompileError::Malformed { path: Seq::empty(), detail }
}

/// The identifier of a document, once the URL parser has said what its
/// `$id` is.
pub open spec fn root_identifier_from(parsed: Option<Seq<char>>) -> Result<Seq<char>, CompileError> {
    match parsed {
        Some(url) => Ok(url),
        None => Err(root_error(BAD_ID@)),
    }
}

/// The identifier of the document `def`: the one that is handed in, or
/// else what its `$id` holds. A document without either has none, and that
/// is an error, as is an `$id` that is no string or holds no absolute URL.
pub open spec fn root_identifier(def: Json, external_id: Option<Seq<char>>) -> Result<
    Seq<char>,
    CompileError,
> {
    match external_id {
        Some(id) => Ok(id),
        None => match def.member("$id"@) {
            None => Err(root_error(NO_ID@)),
            Some(Json::String(id)) => root_identifier_from(url_parsed(id)),
            Some(_) => Err(root_error(BAD_ID@)),
        },
    }
}

/// The schema that the document `def` compiles to, or the first error that
/// the compiler meets. A document is an object or a boolean; it is compiled
/// as the root, with its identifier as the base URL.
pub open spec fn compiled(
    def: Json,
    external_id: Option<Seq<char>>,
    registry: Registry,
    ban_unknown: bool,
) -> Result<SchemaModel, CompileError> {
    if !(def is Object || def is Bool) {
        Err(root_error(NOT_A_SCHEMA@))
    } else {
        match root_identifier(def, external_id) {
            Err(e) => Err(e),
            Ok(id) => compiled_node(
                def,
                Walk { url: id, fragment: Seq::empty() },
                registry,
                ban_unknown,
                NodeKind::Root,
            ),
        }
    }
}

/// The error for a document that cannot be compiled at all.
pub fn root_malformed(detail: &str) -> (r: SchemaError)
    ensures
        r@ == root_error(detail@),
{
    SchemaError::Malformed { path: String::new(), detail: String::from_str(detail) }
}

/// The identifier of a document of whose `$id` the URL parser made
/// `parsed`.
pub fn root_identifier_of(parsed: Option<String>) -> (r: Result<String, SchemaError>)
    ensures
        match r {
            Ok(id) => root_identifier_from(text_view(parsed)) == Ok::<Seq<char>, CompileError>(id@),
            Err(e) => root_identifier_from(text_view(parsed)) == Err::<Seq<char>, CompileError>(
                e@,
            ),
        },
{
    match parsed {
        Some(url) => Ok(url),
        None => Err(root_malformed(BAD_ID)),
    }
}

/// Compiles the document `def`: see [`compiled`].
pub fn compile(def: Value, external_id: Option<String>, settings: CompilationSettings) -> (r: Result<
    Schema,
    SchemaError,
>)
    ensures
        match r {
            Ok(schema) => compiled(
                def@,
                text_view(external_id),
                settings.keywords@,
                settings.ban_unknown_keywords,
            ) == Ok::<SchemaModel, CompileError>(schema@),
            Err(e) => compiled(
                def@,
                text_view(external_id),
                settings.keywords@,
                settings.ban_unknown_keywords,
            ) == Err::<SchemaModel, CompileError>(e@),
        },
{
    if !(def.is_object() || def.as_bool().is_some()) {
        return Err(root_malformed(NOT_A_SCHEMA));
    }
    let id = match external_id {
        Some(id) => id,
        None => match def.get("$id") {
            None => {
                return Err(root_malformed(NO_ID));
            },
            Some(value) => match value.as_str() {
                None => {
                    return Err(root_malformed(BAD_ID));
                },
                Some(text) => match root_identifier_of(parse_url(text)) {
                    Err(e) => {
                        return Err(e);
                    },
                    Ok(id) => id,
                },
            },
        },
    };
    let ctx = WalkContext::new(id);
    compile_node(&def, &ctx, &settings, NodeKind::Root)
}

} // verus!
