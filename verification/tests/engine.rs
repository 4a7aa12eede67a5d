use json_schema::keywords::ref_::Ref;
use json_schema::keywords::required::Required;
use json_schema::keywords::Keyword;
use json_schema::number::Number;
use json_schema::schema::compile;
use json_schema::schema::CompilationSettings;
use json_schema::schema::Schema;
use json_schema::schema::SchemaError;
use json_schema::schema::WalkContext;
use json_schema::scope::Scope;
use json_schema::scope::MAX_DEPTH;
use json_schema::uri::serialize_schema_path;
use json_schema::validators::const_::Const;
use json_schema::validators::ErrorKind;
use json_schema::validators::ResolutionFailure;
use json_schema::validators::ValidationState;
use json_schema::validators::Validator;
use json_schema::value::Value;

fn num(x: f64) -> Value {
    Value::Number(Number::from_bits(x.to_bits()))
}

fn text(t: &str) -> Value {
    Value::String(t.to_string())
}

fn obj(members: Vec<(&str, Value)>) -> Value {
    Value::Object(members.into_iter().map(|(k, v)| (k.to_string(), v)).collect())
}

fn arr(items: Vec<Value>) -> Value {
    Value::Array(items)
}

fn kinds(state: &ValidationState) -> Vec<(ErrorKind, String)> {
    state.errors.iter().map(|e| (e.kind, e.path.clone())).collect()
}

fn check(schema: Value, instance: &Value) -> Vec<(ErrorKind, String)> {
    let mut scope = Scope::new();
    let compiled = scope.compile_and_return(schema, false).unwrap();
    kinds(&compiled.validate(instance).unwrap())
}

fn with_id(id: &str, mut members: Vec<(&str, Value)>) -> Value {
    members.insert(0, ("$id", text(id)));
    obj(members)
}

#[test]
fn maximum_accepts_up_to_the_bound_and_rejects_above() {
    let samples = [-1.0e9, -3.5, -0.0, 0.0, 1.0, 2.0, 2.5, 7.0, 1.0e300];
    for n in samples {
        for x in samples {
            let schema = with_id("https://example.com/max", vec![("maximum", num(n))]);
            let errors = check(schema, &num(x));
            if x <= n {
                assert_eq!(errors, vec![]);
            } else {
                assert_eq!(errors, vec![(ErrorKind::Maximum, String::new())]);
            }
        }
    }
}

#[test]
fn exclusive_minimum_rejects_the_bound_itself() {
    for n in [-2.0, 0.0, 3.25, 1.0e10] {
        let schema = with_id("https://example.com/xmin", vec![("exclusiveMinimum", num(n))]);
        assert_eq!(check(schema, &num(n)), vec![(ErrorKind::ExclusiveMinimum, String::new())]);
    }
    let schema = with_id("https://example.com/xmin", vec![("exclusiveMinimum", num(3.0))]);
    assert_eq!(check(schema, &num(3.5)), vec![]);
}

#[test]
fn minimum_and_exclusive_maximum_bounds() {
    let schema = with_id("https://example.com/m", vec![("minimum", num(10.0))]);
    assert_eq!(check(schema, &num(10.0)), vec![]);
    let schema = with_id("https://example.com/m", vec![("minimum", num(10.0))]);
    assert_eq!(check(schema, &num(9.5)), vec![(ErrorKind::Minimum, String::new())]);
    let schema = with_id("https://example.com/m", vec![("exclusiveMaximum", num(10.0))]);
    assert_eq!(check(schema, &num(10.0)), vec![(ErrorKind::ExclusiveMaximum, String::new())]);
    let schema = with_id("https://example.com/m", vec![("exclusiveMaximum", num(10.0))]);
    assert_eq!(check(schema, &num(9.0)), vec![]);
}

#[test]
fn bounds_pass_what_is_no_number() {
    let schema = with_id("https://example.com/m", vec![("maximum", num(1.0))]);
    assert_eq!(check(schema, &text("much")), vec![]);
}

#[test]
fn required_reports_each_missing_name_once() {
    let schema = || {
        with_id("https://example.com/req", vec![("required", arr(vec![text("a"), text("b")]))])
    };
    assert_eq!(
        check(schema(), &obj(vec![])),
        vec![(ErrorKind::Required, "/a".to_string()), (ErrorKind::Required, "/b".to_string())]
    );
    assert_eq!(
        check(schema(), &obj(vec![("a", num(1.0))])),
        vec![(ErrorKind::Required, "/b".to_string())]
    );
    assert_eq!(check(schema(), &obj(vec![("a", num(1.0)), ("b", num(2.0))])), vec![]);
    assert_eq!(check(schema(), &obj(vec![("b", num(2.0)), ("a", num(1.0))])), vec![]);
    assert_eq!(check(schema(), &num(5.0)), vec![]);
}

#[test]
fn const_equality_is_structural() {
    let schema = || with_id("https://example.com/c", vec![("const", obj(vec![("x", num(1.0))]))]);
    assert_eq!(check(schema(), &obj(vec![("x", num(1.0))])), vec![]);
    assert_eq!(
        check(schema(), &obj(vec![("x", num(1.0)), ("y", num(2.0))])),
        vec![(ErrorKind::Const, String::new())]
    );
    assert_eq!(
        check(schema(), &obj(vec![("x", text("1"))])),
        vec![(ErrorKind::Const, String::new())]
    );
}

#[test]
fn const_validator_reports_at_the_given_path() {
    let scope = Scope::new();
    let validator = Const { item: num(5.0) };
    assert_eq!(kinds(&validator.validate(&num(5.0), "/a", &scope)), vec![]);
    assert_eq!(
        kinds(&validator.validate(&num(6.0), "/a", &scope)),
        vec![(ErrorKind::Const, "/a".to_string())]
    );
}

#[test]
fn equality_does_not_depend_on_the_order_of_members() {
    let a = obj(vec![("x", num(1.0)), ("y", arr(vec![text("p"), Value::Null]))]);
    let b = obj(vec![("y", arr(vec![text("p"), Value::Null])), ("x", num(1.0))]);
    let c = obj(vec![("y", arr(vec![Value::Null, text("p")])), ("x", num(1.0))]);
    assert!(a.equals(&b));
    assert!(b.equals(&a));
    assert!(!a.equals(&c));
    assert!(num(0.0).equals(&num(-0.0)));
    assert!(!Value::Bool(true).equals(&Value::Bool(false)));
    assert!(a.clone().equals(&a));
}

fn malformed_path(result: Result<Option<Validator>, SchemaError>) -> String {
    match result {
        Err(SchemaError::Malformed { path, .. }) => path,
        _ => panic!("the keyword should be malformed"),
    }
}

#[test]
fn compile_rejects_wrong_types() {
    let mut scope = Scope::new();
    let bad_minimum = with_id("https://example.com/bad1", vec![("minimum", text("3"))]);
    assert!(matches!(
        scope.compile_and_return(bad_minimum, false),
        Err(SchemaError::Malformed { .. })
    ));
    let bad_required =
        with_id("https://example.com/bad2", vec![("required", arr(vec![num(1.0), num(2.0)]))]);
    assert!(matches!(
        scope.compile_and_return(bad_required, false),
        Err(SchemaError::Malformed { .. })
    ));
    let not_an_array = with_id("https://example.com/bad3", vec![("required", text("a"))]);
    assert!(matches!(
        scope.compile_and_return(not_an_array, false),
        Err(SchemaError::Malformed { .. })
    ));
    let bad_ref = with_id("https://example.com/bad4", vec![("$ref", num(1.0))]);
    assert!(matches!(scope.compile_and_return(bad_ref, false), Err(SchemaError::Malformed { .. })));
    // nothing was registered
    assert!(scope.resolve("https://example.com/bad1").is_none());
}

#[test]
fn handlers_answer_nothing_for_an_absent_keyword() {
    let ctx = WalkContext::new("https://example.com/a".to_string());
    let def = obj(vec![("title", text("t"))]);
    assert!(matches!(Required.compile(&def, &ctx), Ok(None)));
    assert!(matches!(Ref.compile(&def, &ctx), Ok(None)));
    assert!(matches!(Keyword::Maximum.compile(&def, &ctx), Ok(None)));
    assert!(matches!(Keyword::Const.compile(&def, &ctx), Ok(None)));
}

#[test]
fn handlers_name_the_place_of_a_malformed_keyword() {
    let ctx = WalkContext::new("https://example.com/a".to_string())
        .descend("definitions")
        .descend("x");
    let def = obj(vec![("required", arr(vec![text("a"), num(2.0)]))]);
    assert_eq!(malformed_path(Required.compile(&def, &ctx)), "definitions/x");
    let def = obj(vec![("$ref", arr(vec![]))]);
    assert_eq!(malformed_path(Ref.compile(&def, &ctx)), "definitions/x");
}

#[test]
fn required_handler_keeps_the_names_in_order() {
    let ctx = WalkContext::new("https://example.com/a".to_string());
    let def = obj(vec![("required", arr(vec![text("b"), text("a")]))]);
    match Required.compile(&def, &ctx) {
        Ok(Some(Validator::Required(v))) => assert_eq!(v.items, vec!["b", "a"]),
        _ => panic!("a list of names is well formed"),
    }
}

#[test]
fn ref_handler_resolves_against_the_base_url() {
    let ctx = WalkContext::new("https://example.com/dir/a.json".to_string());
    let def = obj(vec![("$ref", text("b.json#/definitions/x"))]);
    match Ref.compile(&def, &ctx) {
        Ok(Some(Validator::Ref(v))) => {
            assert_eq!(v.url, "https://example.com/dir/b.json#/definitions/x")
        }
        _ => panic!("a relative reference resolves against the base"),
    }
    let def = obj(vec![("$ref", text("https://other.example/s"))]);
    match Ref.compile(&def, &ctx) {
        Ok(Some(Validator::Ref(v))) => assert_eq!(v.url, "https://other.example/s"),
        _ => panic!("an absolute reference stands for itself"),
    }
    let def = obj(vec![("$ref", text("https://[bad"))]);
    assert_eq!(malformed_path(Ref.compile(&def, &ctx)), "");
    let no_base = WalkContext::new("not a url".to_string());
    let def = obj(vec![("$ref", text("b.json"))]);
    assert!(Ref.compile(&def, &no_base).is_err());
}

#[test]
fn scope_identifier_discipline() {
    let mut scope = Scope::new();
    let first = with_id("https://example.com/a", vec![("const", num(1.0))]);
    let second = with_id("https://example.com/a", vec![("const", num(2.0))]);
    assert!(scope.compile_and_return(first, false).is_ok());
    assert!(matches!(scope.compile_and_return(second, false), Err(SchemaError::IdConflicts)));
    let fragment = with_id("https://example.com/a#/foo", vec![]);
    assert!(matches!(scope.compile_and_return(fragment, false), Err(SchemaError::WrongId)));
    // the first registration is what the identifier still names
    let found = scope.resolve("https://example.com/a").unwrap();
    assert_eq!(kinds(&found.validate(&num(1.0)).unwrap()), vec![]);
}

#[test]
fn add_and_return_checks_the_identifier() {
    let mut scope = Scope::new();
    let empty = || Schema { id: None, validators: vec![], tree: vec![] };
    assert!(scope.add_and_return("https://example.com/s", empty()).is_ok());
    assert!(matches!(
        scope.add_and_return("https://example.com/s", empty()),
        Err(SchemaError::IdConflicts)
    ));
    assert!(matches!(
        scope.add_and_return("https://example.com/s#", empty()),
        Err(SchemaError::IdConflicts)
    ));
    assert!(matches!(
        scope.add_and_return("https://example.com/t#/foo", empty()),
        Err(SchemaError::WrongId)
    ));
    assert!(matches!(scope.add_and_return("no url", empty()), Err(SchemaError::WrongId)));
    assert!(scope.add_and_return("https://example.com/t#", empty()).is_ok());
    assert!(scope.resolve("https://example.com/t").is_some());
}

#[test]
fn a_document_needs_an_identifier_and_a_shape() {
    let mut scope = Scope::new();
    assert!(matches!(
        scope.compile_and_return(obj(vec![("const", num(1.0))]), false),
        Err(SchemaError::Malformed { .. })
    ));
    assert!(matches!(
        scope.compile_and_return(num(1.0), false),
        Err(SchemaError::Malformed { .. })
    ));
    assert!(matches!(
        scope.compile_and_return(obj(vec![("$id", num(1.0))]), false),
        Err(SchemaError::Malformed { .. })
    ));
    assert!(matches!(
        scope.compile_and_return(obj(vec![("$id", text("relative/path"))]), false),
        Err(SchemaError::Malformed { .. })
    ));
}

#[test]
fn reference_resolution() {
    let a = || with_id("https://example.com/a", vec![("$ref", text("https://example.com/b"))]);
    let b = || with_id("https://example.com/b", vec![("const", num(5.0))]);

    let mut scope = Scope::new();
    scope.compile_and_return(a(), false).unwrap();
    scope.compile_and_return(b(), false).unwrap();
    let schema = scope.resolve("https://example.com/a").unwrap();
    assert_eq!(kinds(&schema.validate(&num(5.0)).unwrap()), vec![]);
    assert_eq!(kinds(&schema.validate(&num(6.0)).unwrap()), vec![(ErrorKind::Const, String::new())]);

    let mut alone = Scope::new();
    let schema = alone.compile_and_return(a(), false).unwrap();
    match schema.validate(&num(5.0)) {
        Err(ResolutionFailure::Unresolved { url }) => assert_eq!(url, "https://example.com/b"),
        _ => panic!("a reference to nothing fails the validation"),
    }
}

#[test]
fn a_reference_may_be_registered_after_the_schema_that_holds_it() {
    let mut scope = Scope::new();
    scope
        .compile_and_return(with_id("https://example.com/a", vec![("$ref", text("b"))]), false)
        .unwrap();
    assert!(scope.resolve("https://example.com/a").unwrap().validate(&num(1.0)).is_err());
    scope
        .compile_and_return(with_id("https://example.com/b", vec![("minimum", num(3.0))]), false)
        .unwrap();
    let a = scope.resolve("https://example.com/a").unwrap();
    assert_eq!(kinds(&a.validate(&num(1.0)).unwrap()), vec![(ErrorKind::Minimum, String::new())]);
}

#[test]
fn a_cycle_of_references_fails_the_validation() {
    let mut scope = Scope::new();
    scope
        .compile_and_return(
            with_id("https://example.com/a", vec![("$ref", text("https://example.com/b"))]),
            false,
        )
        .unwrap();
    scope
        .compile_and_return(
            with_id("https://example.com/b", vec![("$ref", text("https://example.com/a"))]),
            false,
        )
        .unwrap();
    let a = scope.resolve("https://example.com/a").unwrap();
    assert!(matches!(a.validate(&num(1.0)), Err(ResolutionFailure::Cycle { .. })));
    assert!(MAX_DEPTH > 0);
}

#[test]
fn a_fragment_addresses_a_nested_schema() {
    let mut scope = Scope::new();
    let document = with_id(
        "https://example.com/doc",
        vec![
            (
                "definitions",
                obj(vec![
                    ("small", obj(vec![("maximum", num(10.0))])),
                    ("a/b", obj(vec![("const", text("slash"))])),
                ]),
            ),
            ("$ref", text("#/definitions/small")),
        ],
    );
    let root = scope.compile_and_return(document, false).unwrap();
    assert_eq!(kinds(&root.validate(&num(11.0)).unwrap()), vec![(ErrorKind::Maximum, String::new())]);
    assert_eq!(kinds(&root.validate(&num(9.0)).unwrap()), vec![]);
    assert!(scope.resolve("https://example.com/doc#/definitions/small").is_some());
    assert!(scope.resolve("https://example.com/doc#/definitions/a~1b").is_some());
    assert!(scope.resolve("https://example.com/doc#/definitions/large").is_none());
    assert!(scope.resolve("https://example.com/doc#definitions").is_some());
    assert!(scope.resolve("https://example.com/other").is_none());
    assert!(scope.resolve("::").is_none());
}

#[test]
fn a_nested_identifier_is_found_in_the_schema_that_holds_it() {
    let mut scope = Scope::new();
    let document = with_id(
        "https://example.com/outer",
        vec![(
            "definitions",
            obj(vec![("inner", obj(vec![("$id", text("inner.json")), ("const", num(1.0))]))]),
        )],
    );
    scope.compile_and_return(document, false).unwrap();
    let inner = scope.resolve("https://example.com/inner.json").unwrap();
    assert_eq!(inner.schema.id.as_deref(), Some("https://example.com/inner.json"));
    assert_eq!(kinds(&inner.validate(&num(2.0)).unwrap()), vec![(ErrorKind::Const, String::new())]);
}

#[test]
fn violations_accumulate() {
    let schema = || {
        with_id(
            "https://example.com/both",
            vec![("minimum", num(10.0)), ("required", arr(vec![text("a")]))],
        )
    };
    assert_eq!(check(schema(), &num(5.0)), vec![(ErrorKind::Minimum, String::new())]);
    assert_eq!(
        check(schema(), &obj(vec![("b", num(1.0))])),
        vec![(ErrorKind::Required, "/a".to_string())]
    );
    let many = with_id(
        "https://example.com/many",
        vec![("maximum", num(1.0)), ("const", num(7.0)), ("exclusiveMinimum", num(9.0))],
    );
    assert_eq!(
        check(many, &num(5.0)),
        vec![
            (ErrorKind::Maximum, String::new()),
            (ErrorKind::ExclusiveMinimum, String::new()),
            (ErrorKind::Const, String::new()),
        ]
    );
}

#[test]
fn boolean_schemas() {
    assert_eq!(
        check(with_id("https://example.com/t", vec![]), &num(1.0)),
        vec![]
    );
    let scope = Scope::new();
    let registry = json_schema::keywords::default();
    let yes = compile(
        Value::Bool(true),
        Some("https://example.com/yes".to_string()),
        CompilationSettings::new(&registry, false),
    )
    .unwrap();
    assert!(yes.validators.is_empty());
    let no = compile(
        Value::Bool(false),
        Some("https://example.com/no".to_string()),
        CompilationSettings::new(&registry, false),
    )
    .unwrap();
    assert_eq!(
        kinds(&no.validate_in_scope(&num(1.0), "", &scope, MAX_DEPTH).unwrap()),
        vec![(ErrorKind::Never, String::new())]
    );
}

#[test]
fn unknown_keywords_are_an_error_only_where_they_are_banned() {
    let schema = || with_id("https://example.com/u", vec![("title", text("t")), ("frobnicate", num(1.0))]);
    let mut scope = Scope::new();
    assert!(scope.compile_and_return(schema(), false).is_ok());
    let mut strict = Scope::new();
    assert!(matches!(
        strict.compile_and_return(schema(), true),
        Err(SchemaError::Malformed { .. })
    ));
    strict.add_keyword(vec!["frobnicate"], Keyword::Const);
    assert!(strict.compile_and_return(schema(), true).is_ok());
}

#[test]
fn nested_errors_name_their_place() {
    let mut scope = Scope::new();
    let document = with_id(
        "https://example.com/deep",
        vec![("items", arr(vec![obj(vec![]), obj(vec![("maximum", text("x"))])]))],
    );
    match scope.compile_and_return(document, false) {
        Err(SchemaError::Malformed { path, .. }) => assert_eq!(path, "items/1"),
        _ => panic!("the second item is malformed"),
    }
    let data = with_id(
        "https://example.com/data",
        vec![("const", obj(vec![("maximum", text("x"))]))],
    );
    assert!(scope.compile_and_return(data, false).is_ok());
}

#[test]
fn canonical_form_of_an_identifier() {
    assert_eq!(
        serialize_schema_path("https://example.com/a"),
        Some(("https://example.com/a".to_string(), None))
    );
    assert_eq!(
        serialize_schema_path("https://example.com/a#"),
        Some(("https://example.com/a".to_string(), None))
    );
    assert_eq!(
        serialize_schema_path("https://example.com/a#/foo/bar"),
        Some(("https://example.com/a".to_string(), Some("/foo/bar".to_string())))
    );
    assert_eq!(
        serialize_schema_path("HTTPS://EXAMPLE.com/x/../a#name"),
        Some(("https://example.com/a".to_string(), Some("name".to_string())))
    );
    assert_eq!(serialize_schema_path("a/b"), None);
}

#[test]
fn formats_are_checked_by_the_handlers_that_were_given_for_them() {
    let mut scope = Scope::with_formats(|formats| {
        formats.insert("five", Keyword::Maximum);
        formats.insert("five", Keyword::Const);
    });
    let schema = with_id(
        "https://example.com/f",
        vec![("format", text("five")), ("const", num(5.0)), ("maximum", num(1.0))],
    );
    let compiled = scope.compile_and_return(schema, true).unwrap();
    assert_eq!(
        kinds(&compiled.validate(&num(6.0)).unwrap()),
        vec![
            (ErrorKind::Maximum, String::new()),
            (ErrorKind::Const, String::new()),
            (ErrorKind::Const, String::new()),
        ]
    );
    let unknown = with_id("https://example.com/g", vec![("format", text("six"))]);
    let compiled = scope.compile_and_return(unknown, true).unwrap();
    assert_eq!(kinds(&compiled.validate(&num(6.0)).unwrap()), vec![]);
    let bad = with_id("https://example.com/h", vec![("format", num(6.0))]);
    assert!(matches!(scope.compile_and_return(bad, false), Err(SchemaError::Malformed { .. })));
}

#[test]
fn a_new_scope_knows_format_without_formats() {
    let mut scope = Scope::new();
    let schema = with_id("https://example.com/f", vec![("format", text("date-time"))]);
    let compiled = scope.compile_and_return(schema, true).unwrap();
    assert_eq!(kinds(&compiled.validate(&text("now")).unwrap()), vec![]);
}

#[test]
fn a_declared_identifier_is_kept_as_the_url_parser_writes_it() {
    let mut scope = Scope::new();
    let schema = with_id("HTTPS://EXAMPLE.com/x/../shouting", vec![]);
    let compiled = scope.compile_and_return(schema, false).unwrap();
    assert_eq!(compiled.schema.id.as_deref(), Some("https://example.com/shouting"));
    assert!(scope.resolve("https://example.com/shouting").is_some());
    assert!(scope.resolve("https://EXAMPLE.com/shouting#").is_some());
}

#[test]
fn walk_context_descends_without_changing() {
    let root = WalkContext::new("https://example.com/a".to_string());
    let below = root.descend("properties").descend("x");
    assert_eq!(root.path(), "");
    assert_eq!(below.path(), "properties/x");
    assert_eq!(below.url, "https://example.com/a");
    let moved = below.rebase("https://example.com/b".to_string());
    assert_eq!(moved.fragment, vec!["properties", "x"]);
    assert_eq!(moved.url, "https://example.com/b");
}
