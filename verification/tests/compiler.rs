use zcashrpc_typegen::ast::{Case, Declaration, Field, Payload, TypeExpr, TypegenError, Value};
use zcashrpc_typegen::compile::{tokenize_value, typegen};
use zcashrpc_typegen::emit::render_type_exec;
use zcashrpc_typegen::resolve::tokenize_terminal;

fn b(s: &str) -> Vec<u8> {
    s.as_bytes().to_vec()
}

fn obj(fields: Vec<(&str, Value)>) -> Value {
    Value::Obj(fields.into_iter().map(|(k, v)| (b(k), v)).collect())
}

fn label(s: &str) -> Value {
    Value::Text(b(s))
}

#[test]
fn tokenize_value_string() {
    let quoted_string = tokenize_value(&b("some_field"), label("String"));
    let (ty, decls, is_enum) = quoted_string.unwrap();
    assert_eq!(ty, TypeExpr::Text);
    assert_eq!(render_type_exec(&ty), b("String"));
    assert!(decls.is_empty());
    assert!(!is_enum);
}

#[test]
fn tokenize_value_number() {
    let quoted_number = tokenize_value(&b("some_field"), label("Decimal"));
    let (ty, decls, is_enum) = quoted_number.unwrap();
    assert_eq!(ty, TypeExpr::Decimal);
    assert_eq!(render_type_exec(&ty), b("rust_decimal::Decimal"));
    assert!(decls.is_empty());
    assert!(!is_enum);
}

#[test]
fn tokenize_value_bool() {
    let quoted_bool = tokenize_value(&b("some_field"), label("bool"));
    let (ty, decls, is_enum) = quoted_bool.unwrap();
    assert_eq!(ty, TypeExpr::Boolean);
    assert_eq!(render_type_exec(&ty), b("bool"));
    assert!(decls.is_empty());
    assert!(!is_enum);
}

#[test]
fn tokenize_value_hexadecimal() {
    let (ty, decls, is_enum) = tokenize_value(&b("some_field"), label("hexadecimal")).unwrap();
    assert_eq!(ty, TypeExpr::Text);
    assert!(decls.is_empty());
    assert!(!is_enum);
}

#[test]
fn tokenize_terminal_insufficient() {
    let err = tokenize_terminal(&b("here"), &b("INSUFFICIENT")).unwrap_err();
    assert_eq!(err, TypegenError::Insufficient { location: b("here") });
}

#[test]
fn tokenize_terminal_invalid_label() {
    let err = tokenize_terminal(&b("here"), &b("bogus")).unwrap_err();
    assert_eq!(
        err,
        TypegenError::InvalidLabel { label: b("bogus"), location: b("here") }
    );
}

#[test]
fn tokenize_terminal_enum_label() {
    let (ty, decls, is_enum) =
        tokenize_value(&b("Status"), label("ENUM:alpha,two-part, spaced ")).unwrap();
    assert_eq!(ty, TypeExpr::Named(b("StatusResponse")));
    assert!(is_enum);
    assert_eq!(decls.len(), 1);
    match &decls[0] {
        Declaration::TaggedUnion { name, variants } => {
            assert_eq!(name, &b("StatusResponse"));
            assert_eq!(variants.len(), 3);
            assert_eq!(variants[0].name, b("Alpha"));
            assert_eq!(variants[0].rename, Some(b("alpha")));
            assert!(matches!(variants[0].payload, Payload::Empty));
            assert_eq!(variants[1].name, b("TwoPart"));
            assert_eq!(variants[1].rename, Some(b("two-part")));
            assert_eq!(variants[2].name, b("Spaced"));
            assert_eq!(variants[2].rename, Some(b("spaced")));
        }
        other => panic!("expected a tagged union, got {:?}", other),
    }
}

#[test]
fn tokenize_object_simple_unnested() {
    let quoted_object = tokenize_value(
        &b("somefield"),
        obj(vec![
            ("inner_a", label("String")),
            ("inner_b", label("bool")),
            ("inner_c", label("Decimal")),
        ]),
    )
    .unwrap();
    assert_eq!(quoted_object.0, TypeExpr::Named(b("somefield")));
    let decls = quoted_object.1;
    assert_eq!(decls.len(), 1);
    match &decls[0] {
        Declaration::Record { name, fields } => {
            assert_eq!(name, &b("somefield"));
            assert_eq!(fields.len(), 3);
            assert_eq!(fields[0].name, b("inner_a"));
            assert_eq!(fields[0].ty, TypeExpr::Text);
            assert_eq!(fields[1].name, b("inner_b"));
            assert_eq!(fields[1].ty, TypeExpr::Boolean);
            assert_eq!(fields[2].name, b("inner_c"));
            assert_eq!(fields[2].ty, TypeExpr::Decimal);
        }
        other => panic!("expected a record, got {:?}", other),
    }
}

#[test]
fn tokenize_array_takes_last_element() {
    let (ty, decls, is_enum) =
        tokenize_value(&b("nums"), Value::Arr(vec![label("bool"), label("Decimal")])).unwrap();
    assert_eq!(ty, TypeExpr::SeqOf(Box::new(TypeExpr::Decimal)));
    assert_eq!(render_type_exec(&ty), b("Vec<rust_decimal::Decimal>"));
    assert!(decls.is_empty());
    assert!(!is_enum);
}

#[test]
fn tokenize_array_empty_is_rejected() {
    let err = tokenize_value(&b("nums"), Value::Arr(vec![])).unwrap_err();
    assert_eq!(err, TypegenError::EmptyArray { location: b("nums") });
}

#[test]
fn tokenize_value_rejects_other_kinds() {
    let err = tokenize_value(&b("spot"), Value::Null).unwrap_err();
    assert_eq!(
        err,
        TypegenError::UnexpectedKind {
            kind: zcashrpc_typegen::ast::ValueKind::NullKind,
            location: b("spot"),
        }
    );
}

#[test]
fn typegen_also_standalone_first_wins() {
    let fields = vec![
        (b("alsoStandalone<thing>"), label("String")),
        (b("other"), label("bool")),
    ];
    let (case, decls) = typegen(fields, &b("DoResponse")).unwrap();
    assert_eq!(case, Case::AlsoStandaloneEnum(TypeExpr::Text));
    assert_eq!(decls.len(), 1);
    match &decls[0] {
        Declaration::TaggedUnion { name, variants } => {
            assert_eq!(name, &b("DoResponse"));
            assert_eq!(variants.len(), 2);
            assert_eq!(variants[0].name, b("Regular"));
            assert_eq!(variants[0].payload, Payload::Single(TypeExpr::Text));
            assert_eq!(variants[1].name, b("Verbose"));
            match &variants[1].payload {
                Payload::Struct(fs) => {
                    // fields stand in wire-name order: the wrapped name
                    // sorts before "other"
                    assert_eq!(fs.len(), 2);
                    assert_eq!(fs[0].name, b("thing"));
                    assert_eq!(fs[1].name, b("other"));
                }
                other => panic!("expected a record payload, got {:?}", other),
            }
        }
        other => panic!("expected a tagged union, got {:?}", other),
    }
}

#[test]
fn typegen_wildcard_key_makes_a_map() {
    let inner = obj(vec![("k", label("String"))]);
    let (ty, decls, _) = tokenize_value(&b("thing"), obj(vec![("xxxx", inner)])).unwrap();
    assert_eq!(ty, TypeExpr::MapOf(Box::new(TypeExpr::Named(b("thing")))));
    assert_eq!(
        render_type_exec(&ty),
        b("std::collections::HashMap<String, thing>")
    );
    assert_eq!(decls.len(), 1);
    match &decls[0] {
        Declaration::Record { name, fields } => {
            assert_eq!(name, &b("thing"));
            assert_eq!(fields.len(), 1);
            assert_eq!(fields[0].name, b("k"));
        }
        other => panic!("expected the inner record, got {:?}", other),
    }
}

#[test]
fn typegen_reserved_keyword_field_is_renamed() {
    let (_, decls) = typegen(vec![(b("type"), label("String"))], &b("TResponse")).unwrap();
    match &decls[0] {
        Declaration::Record { fields, .. } => {
            assert_eq!(fields[0].name, b("type_field"));
            assert_eq!(fields[0].rename, Some(b("type")));
        }
        other => panic!("expected a record, got {:?}", other),
    }
}

#[test]
fn typegen_option_wrapper_is_stripped() {
    let (_, decls) = typegen(vec![(b("Option<foo>"), label("String"))], &b("TResponse")).unwrap();
    match &decls[0] {
        Declaration::Record { fields, .. } => {
            let f: &Field = &fields[0];
            assert_eq!(f.name, b("foo"));
            assert_eq!(f.rename, None);
            assert_eq!(f.ty, TypeExpr::OptionOf(Box::new(TypeExpr::Text)));
            assert_eq!(render_type_exec(&f.ty), b("Option<String>"));
        }
        other => panic!("expected a record, got {:?}", other),
    }
}

#[test]
fn typegen_camel_case_field_gets_snake_ident_and_alias() {
    let (_, decls) = typegen(vec![(b("someField"), label("bool"))], &b("TResponse")).unwrap();
    match &decls[0] {
        Declaration::Record { fields, .. } => {
            assert_eq!(fields[0].name, b("some_field"));
            assert_eq!(fields[0].rename, Some(b("someField")));
        }
        other => panic!("expected a record, got {:?}", other),
    }
}
