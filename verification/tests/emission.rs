use zcashrpc_typegen::ast::{Declaration, Payload, TypegenError, Value};
use zcashrpc_typegen::classify::process_response;
use zcashrpc_typegen::emit::{compile_file, process_batch};
use zcashrpc_typegen::lex::{camel_to_snake, capitalize_first_char, snake_to_camel};

fn b(s: &str) -> Vec<u8> {
    s.as_bytes().to_vec()
}

fn obj(fields: Vec<(&str, Value)>) -> Value {
    Value::Obj(fields.into_iter().map(|(k, v)| (b(k), v)).collect())
}

fn label(s: &str) -> Value {
    Value::Text(b(s))
}

fn text(r: Result<Option<Vec<u8>>, TypegenError>) -> String {
    String::from_utf8(r.unwrap().unwrap()).unwrap()
}

const DERIVE: &str = "#[derive(Debug, serde::Deserialize, serde::Serialize)]\n";

#[test]
fn capitalize_first_char_basic() {
    assert_eq!(capitalize_first_char(&b("getinfo")), b("Getinfo"));
    assert_eq!(capitalize_first_char(&b("x")), b("X"));
    assert_eq!(capitalize_first_char(&b("Already")), b("Already"));
}

#[test]
fn snake_camel_round_trip() {
    assert_eq!(snake_to_camel(&b("some_field")), b("SomeField"));
    assert_eq!(camel_to_snake(&snake_to_camel(&b("some_field"))), b("some_field"));
    assert_eq!(camel_to_snake(&snake_to_camel(&b("a"))), b("a"));
    assert_eq!(camel_to_snake(&b("AbCd")), b("ab_cd"));
}

#[test]
fn empty_array_yields_unit_type() {
    let decls = process_response(&b("getfoo"), Value::Arr(vec![])).unwrap();
    assert_eq!(decls.len(), 1);
    assert_eq!(decls[0], Declaration::UnitType { name: b("GetfooResponse") });
    let t = text(compile_file(&b("getfoo"), Value::Arr(vec![])));
    assert_eq!(
        t,
        format!("pub mod getfoo {{\n{}pub struct GetfooResponse;\n}}\n", DERIVE)
    );
}

#[test]
fn single_object_record_text() {
    let root = Value::Arr(vec![obj(vec![("a", label("String")), ("b", label("bool"))])]);
    let t = text(compile_file(&b("widget"), root));
    assert_eq!(
        t,
        format!(
            "pub mod widget {{\n{}pub struct WidgetResponse {{\n    pub a: String,\n    pub b: bool,\n}}\n}}\n",
            DERIVE
        )
    );
}

#[test]
fn single_non_object_becomes_alias() {
    let root = Value::Arr(vec![Value::Arr(vec![label("Decimal")])]);
    let t = text(compile_file(&b("gettotals"), root));
    assert_eq!(
        t,
        "pub mod gettotals {\npub type GettotalsResponse = Vec<rust_decimal::Decimal>;\n}\n"
    );
}

#[test]
fn single_enum_label_is_not_aliased() {
    let root = Value::Arr(vec![label("ENUM:on,off")]);
    let decls = process_response(&b("getswitch"), root).unwrap();
    assert_eq!(decls.len(), 1);
    match &decls[0] {
        Declaration::TaggedUnion { name, variants } => {
            assert_eq!(name, &b("GetswitchResponse"));
            assert_eq!(variants.len(), 2);
        }
        other => panic!("expected a tagged union, got {:?}", other),
    }
}

#[test]
fn two_element_array_yields_fixed_union() {
    let root = Value::Arr(vec![
        obj(vec![("a", label("String"))]),
        obj(vec![("c", label("bool"))]),
    ]);
    let decls = process_response(&b("getpair"), root).unwrap();
    assert_eq!(decls.len(), 1);
    match &decls[0] {
        Declaration::TaggedUnion { name, variants } => {
            assert_eq!(name, &b("GetpairResponse"));
            assert_eq!(variants.len(), 2);
            assert_eq!(variants[0].name, b("Regular"));
            match &variants[0].payload {
                Payload::Struct(fs) => assert_eq!(fs[0].name, b("a")),
                other => panic!("expected a record payload, got {:?}", other),
            }
            assert_eq!(variants[1].name, b("Verbose"));
            match &variants[1].payload {
                Payload::Struct(fs) => assert_eq!(fs[0].name, b("c")),
                other => panic!("expected a record payload, got {:?}", other),
            }
        }
        other => panic!("expected a tagged union, got {:?}", other),
    }
}

#[test]
fn four_element_array_is_rejected() {
    let root = Value::Arr(vec![
        label("bool"),
        label("bool"),
        label("bool"),
        label("bool"),
    ]);
    let err = process_response(&b("getmany"), root).unwrap_err();
    assert_eq!(err, TypegenError::TooManyVariants);
}

#[test]
fn non_array_root_is_rejected() {
    let err = process_response(&b("getinfo"), obj(vec![])).unwrap_err();
    assert_eq!(err, TypegenError::RootNotArray);
}

#[test]
fn insufficient_label_skips_the_file() {
    let root = Value::Arr(vec![obj(vec![("deep", obj(vec![("x", label("INSUFFICIENT"))]))])]);
    let r = compile_file(&b("getlost"), root).unwrap();
    assert_eq!(r, None);
}

#[test]
fn bogus_label_aborts_with_invalid_annotation() {
    let root = Value::Arr(vec![obj(vec![("x", label("bogus"))])]);
    let err = compile_file(&b("getbad"), root).unwrap_err();
    assert_eq!(
        err,
        TypegenError::InvalidLabel { label: b("bogus"), location: b("X") }
    );
}

#[test]
fn identical_inner_records_are_deduplicated() {
    // two sibling fields of the same wire name spell the same inner
    // record; the module carries its text once
    let inner = || obj(vec![("m", obj(vec![("k", label("String"))]))]);
    let root = Value::Arr(vec![obj(vec![("a", inner()), ("b", inner())])]);
    let t = text(compile_file(&b("getdup"), root));
    let m_record = format!("{}pub struct M {{\n    pub k: String,\n}}\n", DERIVE);
    assert_eq!(t.matches(&m_record.as_str()).count(), 1);
}

#[test]
fn declaration_texts_are_sorted() {
    let root = Value::Arr(vec![obj(vec![
        ("zeta", obj(vec![("z", label("bool"))])),
        ("alpha", obj(vec![("a", label("bool"))])),
    ])]);
    let t = text(compile_file(&b("getboth"), root));
    let alpha_at = t.find("pub struct Alpha").unwrap();
    let zeta_at = t.find("pub struct Zeta").unwrap();
    assert!(alpha_at < zeta_at);
}

#[test]
fn key_order_does_not_change_output() {
    let r1 = Value::Arr(vec![obj(vec![
        ("b", label("bool")),
        ("a", label("String")),
        ("c", obj(vec![("k", label("Decimal"))])),
    ])]);
    let r2 = Value::Arr(vec![obj(vec![
        ("c", obj(vec![("k", label("Decimal"))])),
        ("a", label("String")),
        ("b", label("bool")),
    ])]);
    let t1 = text(compile_file(&b("getthing"), r1));
    let t2 = text(compile_file(&b("getthing"), r2));
    assert_eq!(t1, t2);
}

#[test]
fn reserved_module_name_gets_suffix() {
    let root = Value::Arr(vec![]);
    let t = text(compile_file(&b("type"), root));
    assert_eq!(
        t,
        format!("pub mod type_mod {{\n{}pub struct TypeResponse;\n}}\n", DERIVE)
    );
}

#[test]
fn process_response_getinfo() {
    let root = Value::Arr(vec![obj(vec![
        ("version", label("Decimal")),
        ("protocolversion", label("Decimal")),
        ("walletversion", label("Decimal")),
        ("balance", label("Decimal")),
        ("blocks", label("Decimal")),
        ("timeoffset", label("Decimal")),
        ("connections", label("Decimal")),
        ("Option<proxy>", label("String")),
        ("difficulty", label("Decimal")),
        ("testnet", label("bool")),
        ("keypoololdest", label("Decimal")),
        ("keypoolsize", label("Decimal")),
        ("unlocked_until", label("Decimal")),
        ("paytxfee", label("Decimal")),
        ("relayfee", label("Decimal")),
        ("errors", label("String")),
    ])]);
    let decls = process_response(&b("getinfo"), root).unwrap();
    assert_eq!(decls.len(), 1);
    match &decls[0] {
        Declaration::Record { name, fields } => {
            assert_eq!(name, &b("GetinfoResponse"));
            assert_eq!(fields.len(), 16);
            // the wrapped proxy key sorts first: uppercase precedes lowercase
            assert_eq!(fields[0].name, b("proxy"));
            assert_eq!(
                fields[0].ty,
                zcashrpc_typegen::ast::TypeExpr::OptionOf(Box::new(
                    zcashrpc_typegen::ast::TypeExpr::Text
                ))
            );
            assert_eq!(fields[1].name, b("balance"));
            assert_eq!(fields[15].name, b("walletversion"));
        }
        other => panic!("expected a record, got {:?}", other),
    }
}

#[test]
fn run_continues_past_an_insufficient_file() {
    let skipped = (
        b("getlost"),
        Value::Arr(vec![obj(vec![("x", label("INSUFFICIENT"))])]),
    );
    let kept = (b("getfoo"), Value::Arr(vec![]));
    let out = process_batch(vec![skipped, kept]).unwrap();
    let t = String::from_utf8(out).unwrap();
    assert_eq!(
        t,
        format!("pub mod getfoo {{
{}pub struct GetfooResponse;
}}
", DERIVE)
    );
}

#[test]
fn run_aborts_on_an_invalid_file() {
    let bad = (
        b("getbad"),
        Value::Arr(vec![obj(vec![("x", label("bogus"))])]),
    );
    let unreached_file = (b("getfoo"), Value::Arr(vec![]));
    let err = process_batch(vec![bad, unreached_file]).unwrap_err();
    assert_eq!(
        err,
        TypegenError::InvalidLabel { label: b("bogus"), location: b("X") }
    );
}

#[test]
fn run_concatenates_modules_in_file_order() {
    let f1 = (b("aaa"), Value::Arr(vec![]));
    let f2 = (b("bbb"), Value::Arr(vec![]));
    let out = process_batch(vec![f1, f2]).unwrap();
    let t = String::from_utf8(out).unwrap();
    let a_at = t.find("pub mod aaa").unwrap();
    let b_at = t.find("pub mod bbb").unwrap();
    assert!(a_at < b_at);
}
