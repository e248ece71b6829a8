use latex_bot::framework::{check, command, command_error, group, group_error, MacroError};
use latex_bot::values::{
    parse_values, to_ident, Lit, Meta, MetaPath, NestedMeta, ParseError, PathSegment, ValueKind,
};

fn path(name: &str) -> MetaPath {
    MetaPath { segments: vec![PathSegment { ident: name.to_string(), has_arguments: false }] }
}

fn s(v: &str) -> Lit {
    Lit::Str(v.to_string())
}

fn list(name: &str, nested: Vec<NestedMeta>) -> Meta {
    Meta::List { path: path(name), nested }
}

fn lit_texts(l: &[Lit]) -> Vec<String> {
    l.iter()
        .map(|x| match x {
            Lit::Str(t) => format!("str:{}", t),
            Lit::Other(t) => format!("other:{}", t),
        })
        .collect()
}

#[test]
fn to_ident_errors() {
    assert_eq!(to_ident(&path("commands")), Ok("commands".to_string()));
    assert_eq!(to_ident(&MetaPath { segments: vec![] }), Err(ParseError::EmptyPath));
    let long = MetaPath {
        segments: vec![
            PathSegment { ident: "a".to_string(), has_arguments: false },
            PathSegment { ident: "b".to_string(), has_arguments: false },
        ],
    };
    assert_eq!(to_ident(&long), Err(ParseError::LongPath));
    let generic = MetaPath {
        segments: vec![PathSegment { ident: "a".to_string(), has_arguments: true }],
    };
    assert_eq!(to_ident(&generic), Err(ParseError::PathArguments));
}

#[test]
fn parse_values_forms() {
    let v = parse_values(&Meta::Path(path("flag"))).unwrap();
    assert_eq!((v.name.as_str(), v.kind, v.literals.len()), ("flag", ValueKind::Name, 0));

    let v = parse_values(&Meta::NameValue { path: path("description"), lit: s("hi") }).unwrap();
    assert_eq!((v.name.as_str(), v.kind), ("description", ValueKind::Equals));
    assert_eq!(lit_texts(&v.literals), vec!["str:hi"]);

    let v = parse_values(&list("commands", vec![NestedMeta::Path(path("ping"))])).unwrap();
    assert_eq!(v.kind, ValueKind::SingleList);
    assert_eq!(lit_texts(&v.literals), vec!["str:ping"]);

    let v = parse_values(&list(
        "commands",
        vec![NestedMeta::Path(path("ping")), NestedMeta::Lit(Lit::Other("42".to_string())), NestedMeta::Lit(s("x"))],
    ))
    .unwrap();
    assert_eq!(v.kind, ValueKind::List);
    assert_eq!(lit_texts(&v.literals), vec!["str:ping", "other:42", "str:x"]);
}

#[test]
fn parse_values_errors() {
    assert_eq!(parse_values(&list("commands", vec![])).err(), Some(ParseError::EmptyList));
    assert_eq!(
        parse_values(&list("commands", vec![NestedMeta::Path(path("a")), NestedMeta::List(path("b"))])).err(),
        Some(ParseError::NestedList)
    );
    assert_eq!(
        parse_values(&list("commands", vec![NestedMeta::NameValue(path("b"))])).err(),
        Some(ParseError::NestedList)
    );
    assert_eq!(
        parse_values(&Meta::Path(MetaPath { segments: vec![] })).err(),
        Some(ParseError::EmptyPath)
    );
    assert_eq!(ParseError::EmptyList.message(), "list cannot be empty");
    assert_eq!(
        ParseError::NestedList.message(),
        "cannot nest a list; only accept literals and identifiers at this level"
    );
    assert_eq!(ParseError::EmptyPath.message(), "cannot convert an empty path to an identifier");
    assert_eq!(ParseError::LongPath.message(), "the path must not have more than one segment");
    assert_eq!(
        ParseError::PathArguments.message(),
        "the singular path segment must not have any arguments"
    );
}

#[test]
fn group_layout() {
    let attrs = vec![list(
        "commands",
        vec![
            NestedMeta::Path(path("ping")),
            NestedMeta::Path(path("math")),
            NestedMeta::Path(path("tex")),
            NestedMeta::Path(path("halt")),
        ],
    )];
    let l = { assert!(group_error(&attrs).is_none()); group("fancy", &attrs) };
    assert_eq!(l.name_ext, "fancy_GROUP");
    assert_eq!(l.description, "");
    assert_eq!(l.command_names, vec!["ping", "math", "tex", "halt"]);
    assert_eq!(
        l.command_structs,
        vec!["ping_COMMAND_STRUCT", "math_COMMAND_STRUCT", "tex_COMMAND_STRUCT", "halt_COMMAND_STRUCT"]
    );
    assert_eq!(l.size, 4);

    let attrs = vec![
        Meta::NameValue { path: path("description"), lit: s("Math commands") },
        list("commands", vec![NestedMeta::Lit(s("a")), NestedMeta::Lit(Lit::Other("1".to_string()))]),
    ];
    let l = { assert!(group_error(&attrs).is_none()); group("g", &attrs) };
    assert_eq!(l.description, "Math commands");
    assert_eq!(l.command_names, vec!["a"]);
    assert_eq!(l.size, 1);

    let attrs = vec![list("description", vec![NestedMeta::Lit(Lit::Other("1".to_string()))])];
    assert_eq!({ assert!(group_error(&attrs).is_none()); group("g", &attrs) }.description, "");
}

#[test]
fn group_errors() {
    match group_error(&vec![Meta::Path(path("derive"))]) {
        Some(MacroError::UnknownAttribute(n)) => assert_eq!(n, "derive"),
        _ => panic!("expected an unknown attribute"),
    }
    match group_error(&vec![Meta::Path(path("description"))]) {
        Some(MacroError::MissingValue(n)) => assert_eq!(n, "description"),
        _ => panic!("expected a missing value"),
    }
    match group_error(&vec![list("commands", vec![])]) {
        Some(MacroError::Values(e)) => assert_eq!(e, ParseError::EmptyList),
        _ => panic!("expected a values error"),
    }
    // The first bad attribute decides.
    match group_error(&vec![Meta::Path(path("other")), list("commands", vec![])]) {
        Some(MacroError::UnknownAttribute(n)) => assert_eq!(n, "other"),
        _ => panic!("expected an unknown attribute"),
    }
}

#[test]
fn command_layout() {
    let attrs = vec![
        list("description", vec![NestedMeta::Lit(s("Replies with pong."))]),
        list("checks", vec![NestedMeta::Path(path("verify_user"))]),
    ];
    let l = { assert!(command_error(&attrs).is_none()); command("ping", &attrs) };
    assert_eq!(l.name_string, "ping");
    assert_eq!(l.name_ext, "ping_COMMAND");
    assert_eq!(l.name_struct, "ping_COMMAND_STRUCT");
    assert_eq!(l.description, "Replies with pong.");
    assert_eq!(l.checks, vec!["verify_user_CHECK"]);

    // A description that is not a string keeps the earlier one.
    let attrs = vec![
        list("description", vec![NestedMeta::Lit(s("first"))]),
        list("description", vec![NestedMeta::Lit(Lit::Other("2".to_string()))]),
        list("checks", vec![NestedMeta::Path(path("a")), NestedMeta::Path(path("b"))]),
    ];
    let l = { assert!(command_error(&attrs).is_none()); command("c", &attrs) };
    assert_eq!(l.description, "first");
    assert_eq!(l.checks, vec!["a_CHECK", "b_CHECK"]);

    match command_error(&vec![Meta::Path(path("inline"))]) {
        Some(MacroError::UnknownAttribute(n)) => assert_eq!(n, "inline"),
        _ => panic!("expected an unknown attribute"),
    }
}

#[test]
fn check_name() {
    assert_eq!(check("verify_owner"), "verify_owner_CHECK");
}
