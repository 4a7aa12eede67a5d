//! What holds of the engine as a whole, proved from the models of its parts.

use vstd::prelude::*;
use crate::keywords::Handler;
use crate::number::float_le;
use crate::number::float_lt;
use crate::number::is_nan;
use crate::schema::compiled;
use crate::schema::compiled_members;
use crate::schema::compiled_node;
use crate::schema::keyword_checks;
use crate::schema::keyword_checks_upto;
use crate::schema::CompileError;
use crate::schema::NodeKind;
use crate::schema::SchemaModel;
use crate::schema::Walk;
use crate::scope::check_outcome;
use crate::scope::checks_outcome;
use crate::scope::initial_registry;
use crate::scope::schema_outcome;
use crate::scope::ScopeModel;
use crate::validators::missing;
use crate::validators::none;
use crate::validators::one;
use crate::validators::violations;
use crate::validators::Check;
use crate::validators::ErrorKind;
use crate::validators::Failure;
use crate::validators::Violation;
use crate::value::first_at;
use crate::value::lemma_absent_has_no_position;
use crate::value::lemma_first_is_position;
use crate::value::lemma_present_has_position;
use crate::value::position;
use crate::value::Json;

verus! {

/// Of two numbers that are not NaN, either the first is at most the second
/// or the second is below the first, and never both.
pub proof fn law_order_is_total(a: u64, b: u64)
    requires
        !is_nan(a),
        !is_nan(b),
    ensures
        float_le(a, b) <==> !float_lt(b, a),
{
}

/// The names of the built-in keywords differ from each other and from `$id`.
proof fn lemma_names_differ()
    ensures
        "maximum"@ != "exclusiveMaximum"@,
        "maximum"@ != "minimum"@,
        "maximum"@ != "exclusiveMinimum"@,
        "maximum"@ != "required"@,
        "maximum"@ != "const"@,
        "maximum"@ != "$ref"@,
        "exclusiveMinimum"@ != "exclusiveMaximum"@,
        "exclusiveMinimum"@ != "minimum"@,
        "exclusiveMinimum"@ != "required"@,
        "exclusiveMinimum"@ != "const"@,
        "exclusiveMinimum"@ != "$ref"@,
        "maximum"@ != "format"@,
        "exclusiveMinimum"@ != "format"@,
{
    reveal_strlit("format");
    assert("format"@.len() == 6);
    reveal_strlit("maximum");
    reveal_strlit("exclusiveMaximum");
    reveal_strlit("minimum");
    reveal_strlit("exclusiveMinimum");
    reveal_strlit("required");
    reveal_strlit("const");
    reveal_strlit("$ref");
    assert("maximum"@.len() == 7);
    assert("exclusiveMaximum"@.len() == 16);
    assert("minimum"@.len() == 7);
    assert("exclusiveMinimum"@.len() == 16);
    assert("required"@.len() == 8);
    assert("const"@.len() == 5);
    assert("$ref"@.len() == 4);
    assert("maximum"@[1] != "minimum"@[1]);
    assert("exclusiveMinimum"@[10] != "exclusiveMaximum"@[10]);
}

/// An object with one member has that member and no other.
proof fn lemma_single_member(key: Seq<char>, value: Json, name: Seq<char>)
    ensures
        Json::Object(seq![(key, value)]).member(name) == if name == key {
            Some(value)
        } else {
            None
        },
{
    let entries = seq![(key, value)];
    if name == key {
        assert(first_at(entries, name, 0));
        lemma_first_is_position(entries, name, 0);
    } else {
        lemma_absent_has_no_position(entries, name);
    }
}

/// What the built-in handlers make of an object that holds one bound and
/// nothing else.
proof fn lemma_single_bound(
    key: Seq<char>,
    n: u64,
    ctx: Walk,
    check: Check,
    formats: Seq<(Seq<char>, Handler)>,
)
    requires
        (key == "maximum"@ && check == Check::Maximum(n)) || (key == "exclusiveMinimum"@ && check
            == Check::ExclusiveMinimum(n)),
    ensures
        keyword_checks(
            initial_registry(formats).handlers,
            Json::Object(seq![(key, Json::Number(n))]),
            ctx,
        ) == Ok::<Seq<Check>, CompileError>(seq![check]),
{
    let def = Json::Object(seq![(key, Json::Number(n))]);
    let handlers = initial_registry(formats).handlers;
    lemma_single_member(key, Json::Number(n), "format"@);
    lemma_names_differ();
    lemma_single_member(key, Json::Number(n), "maximum"@);
    lemma_single_member(key, Json::Number(n), "exclusiveMaximum"@);
    lemma_single_member(key, Json::Number(n), "minimum"@);
    lemma_single_member(key, Json::Number(n), "exclusiveMinimum"@);
    lemma_single_member(key, Json::Number(n), "required"@);
    lemma_single_member(key, Json::Number(n), "const"@);
    lemma_single_member(key, Json::Number(n), "$ref"@);
    assert(handlers.len() == 8);
    assert(handlers[7] == Handler::Format(formats));
    assert(handlers[0] == Handler::Maximum);
    assert(handlers[1] == Handler::ExclusiveMaximum);
    assert(handlers[2] == Handler::Minimum);
    assert(handlers[3] == Handler::ExclusiveMinimum);
    assert(handlers[4] == Handler::Required);
    assert(handlers[5] == Handler::Const);
    assert(handlers[6] == Handler::Ref);
    let none = Seq::<Check>::empty();
    let found = seq![check];
    assert(none.push(check) =~= found);
    assert(keyword_checks_upto(handlers, def, ctx, 0) == Ok::<Seq<Check>, CompileError>(none));
    if key == "maximum"@ {
        assert(keyword_checks_upto(handlers, def, ctx, 1) == Ok::<Seq<Check>, CompileError>(found));
        assert(keyword_checks_upto(handlers, def, ctx, 2) == Ok::<Seq<Check>, CompileError>(found));
        assert(keyword_checks_upto(handlers, def, ctx, 3) == Ok::<Seq<Check>, CompileError>(found));
        assert(keyword_checks_upto(handlers, def, ctx, 4) == Ok::<Seq<Check>, CompileError>(found));
    } else {
        assert(keyword_checks_upto(handlers, def, ctx, 1) == Ok::<Seq<Check>, CompileError>(none));
        assert(keyword_checks_upto(handlers, def, ctx, 2) == Ok::<Seq<Check>, CompileError>(none));
        assert(keyword_checks_upto(handlers, def, ctx, 3) == Ok::<Seq<Check>, CompileError>(none));
        assert(keyword_checks_upto(handlers, def, ctx, 4) == Ok::<Seq<Check>, CompileError>(found));
    }
    assert(keyword_checks_upto(handlers, def, ctx, 5) == Ok::<Seq<Check>, CompileError>(found));
    assert(keyword_checks_upto(handlers, def, ctx, 6) == Ok::<Seq<Check>, CompileError>(found));
    assert(keyword_checks_upto(handlers, def, ctx, 7) == Ok::<Seq<Check>, CompileError>(found));
    assert(keyword_checks_upto(handlers, def, ctx, 8) == Ok::<Seq<Check>, CompileError>(found));
}

/// The schema that a document with one bound and nothing else compiles to
/// in a scope that was just made.
proof fn lemma_single_bound_schema(
    key: Seq<char>,
    n: u64,
    id: Seq<char>,
    check: Check,
    formats: Seq<(Seq<char>, Handler)>,
)
    requires
        (key == "maximum"@ && check == Check::Maximum(n)) || (key == "exclusiveMinimum"@ && check
            == Check::ExclusiveMinimum(n)),
    ensures
        compiled(
            Json::Object(seq![(key, Json::Number(n))]),
            Some(id),
            initial_registry(formats),
            false,
        ) == Ok::<SchemaModel, CompileError>(
            SchemaModel { id: Some(id), checks: seq![check], children: Seq::empty() },
        ),
{
    let entries = seq![(key, Json::Number(n))];
    let def = Json::Object(entries);
    let ctx = Walk { url: id, fragment: Seq::empty() };
    let registry = initial_registry(formats);
    lemma_single_bound(key, n, ctx, check, formats);
    assert(compiled_members(entries, ctx, registry, false, NodeKind::Root, 0) == Ok::<
        Seq<(Seq<char>, SchemaModel)>,
        CompileError,
    >(Seq::empty()));
    assert(compiled_members(entries, ctx, registry, false, NodeKind::Root, 1) == Ok::<
        Seq<(Seq<char>, SchemaModel)>,
        CompileError,
    >(Seq::empty()));
    assert(compiled_node(def, ctx, registry, false, NodeKind::Root) == Ok::<
        SchemaModel,
        CompileError,
    >(SchemaModel { id: Some(id), checks: seq![check], children: Seq::empty() }));
}

/// What a schema with a single check that is no reference reports.
proof fn lemma_single_check(
    scope: ScopeModel,
    schema: SchemaModel,
    check: Check,
    instance: Json,
    path: Seq<char>,
    depth: nat,
)
    requires
        schema.checks == seq![check],
        !(check is Ref),
    ensures
        schema_outcome(scope, schema, instance, path, depth) == Ok::<Seq<Violation>, Failure>(
            violations(check, instance, path),
        ),
{
    let checks = schema.checks;
    assert(checks.len() == 1);
    assert(checks[0] == check);
    assert(checks_outcome(scope, checks, instance, path, depth, 0) == Ok::<Seq<Violation>, Failure>(
        Seq::empty(),
    ));
    assert(check_outcome(scope, check, instance, path, depth) == Ok::<Seq<Violation>, Failure>(
        violations(check, instance, path),
    ));
    assert(Seq::<Violation>::empty() + violations(check, instance, path) =~= violations(
        check,
        instance,
        path,
    ));
}

/// The schema `{"maximum": n}` accepts every number `x <= n` and rejects
/// every number `x > n`, for all `n` and `x` that are not NaN: compiled in
/// a scope that was just made, under any identifier, it reports nothing of
/// the first and one violation of `maximum` of the second.
pub proof fn law_maximum_round_trip(
    n: u64,
    x: u64,
    id: Seq<char>,
    formats: Seq<(Seq<char>, Handler)>,
    scope: ScopeModel,
    path: Seq<char>,
    depth: nat,
)
    requires
        !is_nan(n),
        !is_nan(x),
    ensures
        ({
            let def = Json::Object(seq![("maximum"@, Json::Number(n))]);
            let schema = compiled(def, Some(id), initial_registry(formats), false);
            &&& schema is Ok
            &&& float_le(x, n) ==> schema_outcome(scope, schema->Ok_0, Json::Number(x), path, depth)
                == Ok::<Seq<Violation>, Failure>(none())
            &&& float_lt(n, x) ==> schema_outcome(scope, schema->Ok_0, Json::Number(x), path, depth)
                == Ok::<Seq<Violation>, Failure>(one(ErrorKind::Maximum, path))
        }),
{
    let check = Check::Maximum(n);
    lemma_single_bound_schema("maximum"@, n, id, check, formats);
    let schema = SchemaModel { id: Some(id), checks: seq![check], children: Seq::empty() };
    lemma_single_check(scope, schema, check, Json::Number(x), path, depth);
}

/// The schema `{"exclusiveMinimum": n}` rejects the number `n` itself:
/// compiled in a scope that was just made, under any identifier, it reports
/// one violation of `exclusiveMinimum` of it.
pub proof fn law_exclusive_minimum_rejects_bound(
    n: u64,
    id: Seq<char>,
    formats: Seq<(Seq<char>, Handler)>,
    scope: ScopeModel,
    path: Seq<char>,
    depth: nat,
)
    ensures
        ({
            let def = Json::Object(seq![("exclusiveMinimum"@, Json::Number(n))]);
            let schema = compiled(def, Some(id), initial_registry(formats), false);
            &&& schema is Ok
            &&& schema_outcome(scope, schema->Ok_0, Json::Number(n), path, depth) == Ok::<
                Seq<Violation>,
                Failure,
            >(one(ErrorKind::ExclusiveMinimum, path))
        }),
{
    let check = Check::ExclusiveMinimum(n);
    lemma_single_bound_schema("exclusiveMinimum"@, n, id, check, formats);
    let schema = SchemaModel { id: Some(id), checks: seq![check], children: Seq::empty() };
    lemma_single_check(scope, schema, check, Json::Number(n), path, depth);
}

/// A list of required names reports one violation for each name that the
/// object lacks, and none for a name that it has: there are as many
/// violations as names are missing, whatever the order of the members.
pub proof fn law_required_is_exhaustive(names: Seq<Seq<char>>, instance: Json, path: Seq<char>)
    ensures
        missing(names, instance, path).len() == names.filter(
            |name: Seq<char>| !instance.has_member(name),
        ).len(),
        missing(names, instance, path).len() == 0 <==> forall|i: int|
            0 <= i < names.len() ==> instance.has_member(#[trigger] names[i]),
    decreases names.len(),
{
    let absent = |name: Seq<char>| !instance.has_member(name);
    reveal(Seq::filter);
    if names.len() > 0 {
        law_required_is_exhaustive(names.drop_last(), instance, path);
        assert(names.drop_last().push(names.last()) =~= names);
        if missing(names, instance, path).len() == 0 {
            assert forall|i: int| 0 <= i < names.len() implies instance.has_member(
                #[trigger] names[i],
            ) by {
                if i < names.len() - 1 {
                    assert(names.drop_last()[i] == names[i]);
                }
            }
        }
        if forall|i: int| 0 <= i < names.len() ==> instance.has_member(#[trigger] names[i]) {
            assert(instance.has_member(names[names.len() - 1]));
            assert forall|i: int| 0 <= i < names.drop_last().len() implies instance.has_member(
                #[trigger] names.drop_last()[i],
            ) by {
                assert(names.drop_last()[i] == names[i]);
            }
        }
    }
}

/// A `const` accepts exactly the instances that are deeply equal to its
/// value.
pub proof fn law_const_accepts_equal(item: Json, instance: Json, path: Seq<char>)
    ensures
        violations(Check::Const(item), instance, path).len() == 0 <==> instance.same_as(item),
{
}

/// Under an identifier that is taken nothing more can be registered: the
/// second registration conflicts.
pub proof fn law_second_registration_conflicts(
    scope: ScopeModel,
    parts: Option<(Seq<char>, Option<Seq<char>>)>,
    first: SchemaModel,
    second: SchemaModel,
)
    requires
        scope.registered(parts, first) is Ok,
    ensures
        scope.registered(parts, first)->Ok_0.registered(parts, second) == Err::<
            ScopeModel,
            CompileError,
        >(CompileError::IdConflicts),
{
    let pair = parts->0;
    let path = pair.0;
    let after = scope.registered(parts, first)->Ok_0;
    assert(after.schemas[scope.schemas.len() as int].0 == path);
    lemma_present_has_position(after.schemas, path, scope.schemas.len() as int);
}

/// An identifier with a fragment that is not empty is a wrong one for
/// every schema and every scope.
pub proof fn law_fragment_is_wrong_id(
    scope: ScopeModel,
    path: Seq<char>,
    fragment: Seq<char>,
    schema: SchemaModel,
)
    ensures
        scope.registered(Some((path, Some(fragment))), schema) == Err::<ScopeModel, CompileError>(
            CompileError::WrongId,
        ),
{
}

/// A schema that was registered is what its identifier resolves to
/// afterwards, and what was registered before resolves as before.
pub proof fn law_registered_is_resolved(
    scope: ScopeModel,
    path: Seq<char>,
    schema: SchemaModel,
    other: Seq<char>,
)
    requires
        scope.registered(Some((path, None)), schema) is Ok,
    ensures
        scope.registered(Some((path, None)), schema)->Ok_0.resolved_parts(Some((path, None)))
            == Some(schema),
        position(scope.schemas, other) is Some ==> scope.registered(
            Some((path, None)),
            schema,
        )->Ok_0.resolved_parts(Some((other, None))) == scope.resolved_parts(Some((other, None))),
{
    let after = scope.registered(Some((path, None)), schema)->Ok_0;
    let at = scope.schemas.len() as int;
    assert(position(scope.schemas, path) is None);
    assert forall|j: int| 0 <= j < at implies (#[trigger] after.schemas[j]).0 != path by {
        if scope.schemas[j].0 == path {
            lemma_present_has_position(scope.schemas, path, j);
        }
    }
    assert(first_at(after.schemas, path, at));
    lemma_first_is_position(after.schemas, path, at);
    if position(scope.schemas, other) is Some {
        let i = position(scope.schemas, other)->0;
        assert(first_at(scope.schemas, other, i));
        assert forall|j: int| 0 <= j < i implies (#[trigger] after.schemas[j]).0 != other by {
            assert(scope.schemas[j].0 != other);
        }
        assert(first_at(after.schemas, other, i));
        lemma_first_is_position(after.schemas, other, i);
    }
}

/// What the first checks of a list report does not depend on the checks
/// that follow them.
pub proof fn lemma_outcome_of_prefix(
    scope: ScopeModel,
    checks: Seq<Check>,
    extra: Check,
    instance: Json,
    path: Seq<char>,
    depth: nat,
    n: int,
)
    requires
        0 <= n <= checks.len(),
    ensures
        checks_outcome(scope, checks.push(extra), instance, path, depth, n) == checks_outcome(
            scope,
            checks,
            instance,
            path,
            depth,
            n,
        ),
    decreases n,
{
    if n > 0 {
        lemma_outcome_of_prefix(scope, checks, extra, instance, path, depth, n - 1);
        assert(checks.push(extra)[n - 1] == checks[n - 1]);
    }
}

/// No violation stops a validation: a schema with one more check reports
/// what it reported without it, followed by what the new check reports.
pub proof fn law_violations_accumulate(
    scope: ScopeModel,
    checks: Seq<Check>,
    extra: Check,
    instance: Json,
    path: Seq<char>,
    depth: nat,
)
    requires
        checks_outcome(scope, checks, instance, path, depth, checks.len() as int) is Ok,
        check_outcome(scope, extra, instance, path, depth) is Ok,
    ensures
        checks_outcome(
            scope,
            checks.push(extra),
            instance,
            path,
            depth,
            checks.len() as int + 1,
        ) == Ok::<Seq<Violation>, Failure>(
            checks_outcome(scope, checks, instance, path, depth, checks.len() as int)->Ok_0
                + check_outcome(scope, extra, instance, path, depth)->Ok_0,
        ),
{
    lemma_outcome_of_prefix(scope, checks, extra, instance, path, depth, checks.len() as int);
    assert(checks.push(extra)[checks.len() as int] == extra);
}

/// A reference reports what the schema that it names reports of the same
/// instance at the same path; where the scope holds no such schema, the
/// validation fails and reports nothing.
pub proof fn law_reference_delegates(
    scope: ScopeModel,
    url: Seq<char>,
    instance: Json,
    path: Seq<char>,
    depth: nat,
)
    requires
        depth > 0,
    ensures
        scope.resolved(url) matches Some(target) ==> check_outcome(
            scope,
            Check::Ref(url),
            instance,
            path,
            depth,
        ) == schema_outcome(scope, target, instance, path, (depth - 1) as nat),
        scope.resolved(url) is None ==> check_outcome(
            scope,
            Check::Ref(url),
            instance,
            path,
            depth,
        ) == Err::<Seq<Violation>, Failure>(Failure::Unresolved { url }),
{
}

} // verus!
