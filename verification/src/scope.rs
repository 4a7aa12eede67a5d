//! The scope: every registered schema under its canonical identifier, and
//! the resolution of references among them.
//!
//! A scope is set up first, with keywords and schemas, and used afterwards:
//! validating changes nothing in it.

use vstd::prelude::*;
use vstd::string::*;
use crate::keywords;
use crate::keywords::decouple_keyword;
use crate::keywords::format::Format;
use crate::keywords::format::FormatBuilders;
use crate::keywords::slices;
use crate::keywords::Handler;
use crate::keywords::Keyword;
use crate::keywords::KeywordMap;
use crate::keywords::Registry;
use crate::schema::compile;
use crate::schema::compiled;
use crate::schema::root_error;
use crate::schema::root_malformed;
use crate::schema::tree_view;
use crate::schema::CompilationSettings;
use crate::schema::CompileError;
use crate::schema::NO_ID;
use crate::schema::Schema;
use crate::schema::SchemaError;
use crate::schema::SchemaModel;
use crate::uri::canonical;
use crate::uri::canonical_view;
use crate::uri::serialize_schema_path;
use crate::validators::violations;
use crate::validators::Check;
use crate::validators::Failure;
use crate::validators::ResolutionFailure;
use crate::validators::ValidationState;
use crate::validators::Violation;
use crate::value::first_at;
use crate::value::lemma_absent_has_no_position;
use crate::value::lemma_first_is_position;
use crate::value::lemma_present_has_position;
use crate::value::position;
use crate::value::Json;
use crate::value::Value;

verus! {

/// The index of the registered schemas: a hash map from the canonical
/// identifier of each to its position in the scope.
#[verifier::external_body]
pub struct SchemaIndex {
    map: hashbrown::HashMap<String, usize>,
}

/// What an index holds: the position that is stored under each identifier.
pub uninterp spec fn index_contents(index: SchemaIndex) -> Map<Seq<char>, usize>;

/// Calls [`hashbrown::HashMap::new`]. Trusted: the new map holds nothing.
#[verifier::external_body]
fn index_new() -> (index: SchemaIndex)
    ensures
        (index_contents(index) == Map::<Seq<char>, usize>::empty()),
{
    SchemaIndex { map: hashbrown::HashMap::new() }
}

/// Calls [`hashbrown::HashMap::get`]. Trusted: the result is the position
/// that the map holds under `key`, and nothing where it holds none.
#[verifier::external_body]
fn index_get(index: &SchemaIndex, key: &str) -> (r: Option<usize>)
    ensures
        r matches Some(position) ==> index_contents(*index).contains_key(key@) && index_contents(
            *index,
        )[key@] == position,
        r is None ==> !index_contents(*index).contains_key(key@),
{
    match index.map.get(key) {
        Some(position) => Some(*position),
        None => None,
    }
}

/// Calls [`hashbrown::HashMap::insert`]. Trusted: afterwards the map holds
/// `position` under `key`, and under every other key what it held before.
#[verifier::external_body]
fn index_insert(index: &mut SchemaIndex, key: String, position: usize)
    ensures
        index_contents(*final(index)) == index_contents(*old(index)).insert(key@, position),
{
    index.map.insert(key, position);
}

/// How many references may be followed, one from the other, while one
/// instance is validated.
pub const MAX_DEPTH: usize = 32;

/// The registry of a scope that was just made: the keywords that are built
/// in, and a `format` that knows `formats`.
pub open spec fn initial_registry(formats: Seq<(Seq<char>, Handler)>) -> Registry {
    keywords::default_registry().with(seq!["format"@], Handler::Format(formats))
}

/// The registry of keywords and the registered schemas.
pub struct Scope {
    keywords: KeywordMap,
    entries: Vec<(String, Schema)>,
    index: SchemaIndex,
}

/// The model of a scope: its registry, and its schemas in the order in which
/// they were registered, each with the canonical identifier that it was
/// registered under.
pub struct ScopeModel {
    pub keywords: Registry,
    pub schemas: Seq<(Seq<char>, SchemaModel)>,
}

/// The first schema at or after position `from` that holds a schema with
/// the identifier `path` nested in it: that nested schema.
pub open spec fn nested_from(schemas: Seq<(Seq<char>, SchemaModel)>, path: Seq<char>, from: int) -> Option<
    SchemaModel,
>
    decreases schemas.len() - from,
{
    if from < 0 || from >= schemas.len() {
        None
    } else {
        match schemas[from].1.find(path) {
            Some(found) => Some(found),
            None => nested_from(schemas, path, from + 1),
        }
    }
}

impl ScopeModel {
    /// The schema that `path` names: the one that is registered under it,
    /// or else the first schema with that identifier that is nested in a
    /// registered one.
    pub open spec fn base(self, path: Seq<char>) -> Option<SchemaModel> {
        match position(self.schemas, path) {
            Some(i) => Some(self.schemas[i].1),
            None => nested_from(self.schemas, path, 0),
        }
    }

    /// The schema that an identifier in canonical form names: the schema
    /// that its path names, or what its fragment addresses in that schema.
    pub open spec fn resolved_parts(self, parts: Option<(Seq<char>, Option<Seq<char>>)>) -> Option<
        SchemaModel,
    > {
        match parts {
            None => None,
            Some((path, fragment)) => match self.base(path) {
                None => None,
                Some(base) => match fragment {
                    None => Some(base),
                    Some(f) => base.at_fragment(f),
                },
            },
        }
    }

    /// The schema that the identifier `url` names.
    pub open spec fn resolved(self, url: Seq<char>) -> Option<SchemaModel> {
        self.resolved_parts(canonical(url))
    }

    /// The scope after `schema` was registered under an identifier in
    /// canonical form. An identifier that is no URL or has a fragment is a
    /// wrong one; one that is taken conflicts.
    pub open spec fn registered(self, parts: Option<(Seq<char>, Option<Seq<char>>)>, schema: SchemaModel) -> Result<
        ScopeModel,
        CompileError,
    > {
        match parts {
            None => Err(CompileError::WrongId),
            Some((path, Some(_))) => Err(CompileError::WrongId),
            Some((path, None)) => if position(self.schemas, path) is Some {
                Err(CompileError::IdConflicts)
            } else {
                Ok(ScopeModel { keywords: self.keywords, schemas: self.schemas.push((path, schema)) })
            },
        }
    }

    /// The scope after the document `def` was compiled and registered under
    /// the identifier that it declares.
    pub open spec fn compiled_and_registered(self, def: Json, ban_unknown: bool) -> Result<
        ScopeModel,
        CompileError,
    > {
        match compiled(def, None, self.keywords, ban_unknown) {
            Err(e) => Err(e),
            Ok(schema) => match schema.id {
                None => Err(root_error(NO_ID@)),
                Some(id) => self.registered(canonical(id), schema),
            },
        }
    }
}

/// What the first `n` of `checks` report of `instance` at `path`, with
/// `depth` references left to follow: the violations of each, one after the
/// other, or the first failure to resolve a reference.
pub open spec fn checks_outcome(
    scope: ScopeModel,
    checks: Seq<Check>,
    instance: Json,
    path: Seq<char>,
    depth: nat,
    n: int,
) -> Result<Seq<Violation>, Failure>
    decreases depth, n,
{
    if n <= 0 || n > checks.len() {
        Ok(Seq::empty())
    } else {
        match checks_outcome(scope, checks, instance, path, depth, n - 1) {
            Err(failure) => Err(failure),
            Ok(found) => match check_outcome(scope, checks[n - 1], instance, path, depth) {
                Err(failure) => Err(failure),
                Ok(more) => Ok(found + more),
            },
        }
    }
}

/// What one check reports of `instance` at `path`. A reference hands the
/// instance to the schema that its URL names in the scope, at the same
/// path; it fails where no reference may be followed any more, and where
/// the scope holds no such schema. Any other check looks at the instance
/// alone.
pub open spec fn check_outcome(
    scope: ScopeModel,
    check: Check,
    instance: Json,
    path: Seq<char>,
    depth: nat,
) -> Result<Seq<Violation>, Failure>
    decreases depth, 0int,
{
    match check {
        Check::Ref(url) => if depth == 0 {
            Err(Failure::Cycle { url })
        } else {
            match scope.resolved(url) {
                None => Err(Failure::Unresolved { url }),
                Some(target) => checks_outcome(
                    scope,
                    target.checks,
                    instance,
                    path,
                    (depth - 1) as nat,
                    target.checks.len() as int,
                ),
            }
        },
        _ => Ok(violations(check, instance, path)),
    }
}

/// What a schema reports of `instance` at `path`: what its checks report,
/// all of them, in their order.
pub open spec fn schema_outcome(
    scope: ScopeModel,
    schema: SchemaModel,
    instance: Json,
    path: Seq<char>,
    depth: nat,
) -> Result<Seq<Violation>, Failure> {
    checks_outcome(scope, schema.checks, instance, path, depth, schema.checks.len() as int)
}

/// A failure among the first checks is the failure of all of them.
pub proof fn lemma_failure_stays(
    scope: ScopeModel,
    checks: Seq<Check>,
    instance: Json,
    path: Seq<char>,
    depth: nat,
    n: int,
    m: int,
)
    requires
        0 <= n <= m <= checks.len(),
        checks_outcome(scope, checks, instance, path, depth, n) is Err,
    ensures
        checks_outcome(scope, checks, instance, path, depth, m) == checks_outcome(
            scope,
            checks,
            instance,
            path,
            depth,
            n,
        ),
    decreases m - n,
{
    if n < m {
        lemma_failure_stays(scope, checks, instance, path, depth, n, m - 1);
    }
}

/// The model of the outcome of a validation.
pub open spec fn outcome_view(r: Result<ValidationState, ResolutionFailure>) -> Result<
    Seq<Violation>,
    Failure,
> {
    match r {
        Ok(state) => Ok(state@),
        Err(failure) => Err(failure@),
    }
}

impl View for Scope {
    type V = ScopeModel;

    closed spec fn view(&self) -> ScopeModel {
        ScopeModel { keywords: self.keywords@, schemas: tree_view(self.entries@) }
    }
}

impl Scope {
    /// The index agrees with the list of schemas: it holds the position of
    /// each under its identifier, and nothing else.
    pub closed spec fn wf(&self) -> bool {
        let index = index_contents(self.index);
        &&& forall|i: int|
            0 <= i < self.entries.len() ==> index.contains_key((#[trigger] self.entries[i]).0@)
                && index[self.entries[i].0@] == i
        &&& forall|key: Seq<char>| #[trigger]
            index.contains_key(key) ==> index[key] < self.entries.len() && self.entries[index[key] as int].0@
                == key
    }

    /// A scope with the keywords that are built in, among them a `format`
    /// that knows no format, and without schemas.
    pub fn new() -> (scope: Scope)
        ensures
            scope.wf(),
            scope@ == (ScopeModel { keywords: initial_registry(Seq::empty()), schemas: Seq::empty() }),
    {
        let mut scope = Scope {
            keywords: keywords::default(),
            entries: Vec::new(),
            index: index_new(),
        };
        assert(scope@.schemas =~= Seq::<(Seq<char>, SchemaModel)>::empty());
        let mut keys: Vec<&'static str> = Vec::new();
        keys.push("format");
        assert(slices(keys@) =~= seq!["format"@]);
        scope.add_keyword(keys, Keyword::Format(Format::new()));
        scope
    }

    /// A scope with the keywords that are built in, among them a `format`
    /// that knows the formats that `build_formats` adds, and without
    /// schemas.
    pub fn with_formats<F>(build_formats: F) -> (scope: Scope) where F: FnOnce(&mut FormatBuilders)
        requires
            forall|b: &mut FormatBuilders|
                b@.len() == 0 ==> #[trigger] call_requires(build_formats, (b,)),
        ensures
            scope.wf(),
            exists|b: &mut FormatBuilders|
                b@.len() == 0 && #[trigger] call_ensures(build_formats, (b,), ()) && scope@ == (
                ScopeModel { keywords: initial_registry(final(b)@), schemas: Seq::empty() }),
    {
        let mut scope = Scope {
            keywords: keywords::default(),
            entries: Vec::new(),
            index: index_new(),
        };
        assert(scope@.schemas =~= Seq::<(Seq<char>, SchemaModel)>::empty());
        let mut keys: Vec<&'static str> = Vec::new();
        keys.push("format");
        assert(slices(keys@) =~= seq!["format"@]);
        scope.add_keyword(keys, Keyword::Format(Format::with(build_formats)));
        scope
    }

    /// Registers one more handler, known under the names `keys`.
    pub fn add_keyword(&mut self, keys: Vec<&'static str>, keyword: Keyword)
        requires
            old(self).wf(),
        ensures
            final(self).wf(),
            final(self)@ == (ScopeModel {
                keywords: old(self)@.keywords.with(slices(keys@), keyword@),
                schemas: old(self)@.schemas,
            }),
    {
        decouple_keyword((keys, keyword), &mut self.keywords);
    }

    /// The position of the schema that is registered under `path`.
    fn registered_at(&self, path: &str) -> (r: Option<usize>)
        requires
            self.wf(),
        ensures
            match r {
                Some(i) => position(self@.schemas, path@) == Some(i as int) && i < self.entries.len(),
                None => position(self@.schemas, path@) is None,
            },
    {
        match index_get(&self.index, path) {
            Some(i) => {
                proof {
                    assert(index_contents(self.index).contains_key(path@));
                    assert forall|j: int| 0 <= j < i implies (#[trigger] self@.schemas[j]).0
                        != path@ by {
                        assert(index_contents(self.index).contains_key(self.entries[j].0@));
                    }
                    assert(first_at(self@.schemas, path@, i as int));
                    lemma_first_is_position(self@.schemas, path@, i as int);
                }
                Some(i)
            },
            None => {
                proof {
                    assert forall|j: int| 0 <= j < self@.schemas.len() implies (
                    #[trigger] self@.schemas[j]).0 != path@ by {
                        assert(index_contents(self.index).contains_key(self.entries[j].0@));
                    }
                    lemma_absent_has_no_position(self@.schemas, path@);
                }
                None
            },
        }
    }

    /// The first schema with the identifier `path` that is nested in a
    /// registered one.
    fn find_nested(&self, path: &str) -> (r: Option<&Schema>)
        ensures
            match r {
                Some(s) => nested_from(self@.schemas, path@, 0) == Some(s@),
                None => nested_from(self@.schemas, path@, 0) is None,
            },
    {
        let mut i: usize = 0;
        while i < self.entries.len()
            invariant
                i <= self.entries.len(),
                self@.schemas.len() == self.entries.len(),
                nested_from(self@.schemas, path@, 0) == nested_from(self@.schemas, path@, i as int),
            decreases self.entries.len() - i,
        {
            proof {
                assert(self@.schemas[i as int].1 == self.entries[i as int].1@);
            }
            match self.entries[i].1.resolve(path) {
                Some(found) => {
                    return Some(found);
                },
                None => {},
            }
            i += 1;
        }
        None
    }

    /// The schema that an identifier in canonical form names.
    pub fn resolve_parts(&self, parts: Option<(String, Option<String>)>) -> (r: Option<&Schema>)
        requires
            self.wf(),
        ensures
            match r {
                Some(s) => self@.resolved_parts(canonical_view(parts)) == Some(s@),
                None => self@.resolved_parts(canonical_view(parts)) is None,
            },
    {
        let (path, fragment) = match parts {
            None => {
                return None;
            },
            Some(parts) => parts,
        };
        let base = match self.registered_at(path.as_str()) {
            Some(i) => {
                proof {
                    assert(self@.schemas[i as int].1 == self.entries[i as int].1@);
                }
                &self.entries[i].1
            },
            None => match self.find_nested(path.as_str()) {
                None => {
                    return None;
                },
                Some(found) => found,
            },
        };
        match fragment {
            None => Some(base),
            Some(f) => base.resolve_fragment(f.as_str()),
        }
    }

    /// The schema that the identifier `id` names, bound to this scope.
    /// There is none where `id` is no URL, where no schema is registered
    /// under it or nested with it, and where its fragment addresses nothing.
    pub fn resolve(&self, id: &str) -> (r: Option<ScopedSchema<'_>>)
        requires
            self.wf(),
        ensures
            match r {
                Some(found) => self@.resolved(id@) == Some(found.schema@) && *found.scope == *self,
                None => self@.resolved(id@) is None,
            },
    {
        match self.resolve_parts(serialize_schema_path(id)) {
            Some(schema) => Some(ScopedSchema::new(self, schema)),
            None => None,
        }
    }

    /// Registers `schema` under an identifier in canonical form.
    pub fn add_parts(&mut self, parts: Option<(String, Option<String>)>, schema: Schema) -> (r: Result<
        usize,
        SchemaError,
    >)
        requires
            old(self).wf(),
        ensures
            final(self).wf(),
            match r {
                Ok(at) => old(self)@.registered(canonical_view(parts), schema@) == Ok::<
                    ScopeModel,
                    CompileError,
                >(final(self)@) && at + 1 == final(self)@.schemas.len(),
                Err(e) => old(self)@.registered(canonical_view(parts), schema@) == Err::<
                    ScopeModel,
                    CompileError,
                >(e@) && final(self)@ == old(self)@,
            },
    {
        let path = match parts {
            None => {
                return Err(SchemaError::WrongId);
            },
            Some((path, Some(_))) => {
                return Err(SchemaError::WrongId);
            },
            Some((path, None)) => path,
        };
        if self.registered_at(path.as_str()).is_some() {
            return Err(SchemaError::IdConflicts);
        }
        let at = self.entries.len();
        let ghost before = self@.schemas;
        proof {
            assert(!index_contents(self.index).contains_key(path@)) by {
                if index_contents(self.index).contains_key(path@) {
                    let i = index_contents(self.index)[path@] as int;
                    assert(self@.schemas[i].0 == path@);
                    lemma_present_has_position(self@.schemas, path@, i);
                }
            }
        }
        index_insert(&mut self.index, path.clone(), at);
        self.entries.push((path, schema));
        proof {
            assert(self@.schemas =~= before.push((path@, schema@)));
            assert forall|i: int| 0 <= i < self.entries.len() implies index_contents(
                self.index,
            ).contains_key((#[trigger] self.entries[i]).0@) && index_contents(
                self.index,
            )[self.entries[i].0@] == i by {
                if i < at {
                    assert(self.entries[i] == old(self).entries[i]);
                    assert(index_contents(old(self).index).contains_key(old(self).entries[i].0@));
                }
            }
            assert forall|key: Seq<char>| #[trigger]
                index_contents(self.index).contains_key(key) implies index_contents(
                self.index,
            )[key] < self.entries.len() && self.entries[index_contents(self.index)[key] as int].0@
                == key by {
                if key != path@ {
                    assert(index_contents(old(self).index).contains_key(key));
                    let i = index_contents(old(self).index)[key] as int;
                    assert(self.entries[i] == old(self).entries[i]);
                }
            }
        }
        Ok(at)
    }

    /// Registers `schema` under the identifier `id` and hands it back, bound
    /// to this scope. The identifier must be a URL without a fragment,
    /// or with an empty one, under which nothing is registered yet. Where it
    /// is not, the scope stays as it was.
    pub fn add_and_return(&mut self, id: &str, schema: Schema) -> (r: Result<
        ScopedSchema<'_>,
        SchemaError,
    >)
        requires
            old(self).wf(),
        ensures
            final(self).wf(),
            match r {
                Ok(added) => old(self)@.registered(canonical(id@), schema@) == Ok::<
                    ScopeModel,
                    CompileError,
                >(final(self)@) && added.schema@ == schema@ && *added.scope == *final(self),
                Err(e) => old(self)@.registered(canonical(id@), schema@) == Err::<
                    ScopeModel,
                    CompileError,
                >(e@) && final(self)@ == old(self)@,
            },
    {
        match self.add_parts(serialize_schema_path(id), schema) {
            Err(e) => Err(e),
            Ok(at) => {
                proof {
                    assert(self@.schemas[at as int].1 == self.entries[at as int].1@);
                }
                Ok(ScopedSchema::new(self, &self.entries[at].1))
            },
        }
    }

    /// Compiles the document `def` and registers it under the identifier
    /// that it declares. Where that fails, nothing is registered.
    pub fn compile_and_return(&mut self, def: Value, ban_unknown: bool) -> (r: Result<
        ScopedSchema<'_>,
        SchemaError,
    >)
        requires
            old(self).wf(),
        ensures
            final(self).wf(),
            match r {
                Ok(added) => old(self)@.compiled_and_registered(def@, ban_unknown) == Ok::<
                    ScopeModel,
                    CompileError,
                >(final(self)@) && compiled(def@, None, old(self)@.keywords, ban_unknown) == Ok::<
                    SchemaModel,
                    CompileError,
                >(added.schema@) && *added.scope == *final(self),
                Err(e) => old(self)@.compiled_and_registered(def@, ban_unknown) == Err::<
                    ScopeModel,
                    CompileError,
                >(e@) && final(self)@ == old(self)@,
            },
    {
        let schema = match compile(def, None, CompilationSettings::new(&self.keywords, ban_unknown)) {
            Err(e) => {
                return Err(e);
            },
            Ok(schema) => schema,
        };
        let id = match &schema.id {
            None => {
                return Err(root_malformed(NO_ID));
            },
            Some(id) => id.clone(),
        };
        self.add_and_return(id.as_str(), schema)
    }
}

/// A schema of a scope, together with that scope: what references in the
/// schema are resolved in.
pub struct ScopedSchema<'a> {
    pub scope: &'a Scope,
    pub schema: &'a Schema,
}

impl<'a> ScopedSchema<'a> {
    /// Binds a schema to a scope.
    pub fn new(scope: &'a Scope, schema: &'a Schema) -> (r: ScopedSchema<'a>)
        ensures
            r.scope == scope,
            r.schema == schema,
    {
        ScopedSchema { scope, schema }
    }

    /// Validates `data` against the schema, from the root of the instance.
    /// The result holds every violation that was found, and none exactly
    /// when the instance is valid. A reference that names no schema of the
    /// scope, and a chain of more than [`MAX_DEPTH`] references, make the
    /// validation fail instead.
    pub fn validate(&self, data: &Value) -> (r: Result<ValidationState, ResolutionFailure>)
        requires
            self.scope.wf(),
        ensures
            outcome_view(r) == schema_outcome(
                self.scope@,
                self.schema@,
                data@,
                Seq::empty(),
                MAX_DEPTH as nat,
            ),
    {
        proof {
            reveal_strlit("");
            assert(""@ =~= Seq::<char>::empty());
        }
        self.validate_in(data, "")
    }

    /// Validates `data` against the schema as the part of an instance that
    /// lies at `path`.
    pub fn validate_in(&self, data: &Value, path: &str) -> (r: Result<
        ValidationState,
        ResolutionFailure,
    >)
        requires
            self.scope.wf(),
        ensures
            outcome_view(r) == schema_outcome(
                self.scope@,
                self.schema@,
                data@,
                path@,
                MAX_DEPTH as nat,
            ),
    {
        self.schema.validate_in_scope(data, path, self.scope, MAX_DEPTH)
    }
}

} // verus!
