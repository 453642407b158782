//! Parse-direction behavior on record schemas: each test builds the schema
//! and directives a host would hand over, compiles the parse plan, and runs
//! it on an input.

use fmtparse::diag::Span;
use fmtparse::format::DisplayFormat;
use fmtparse::interp::{run_parse_struct, NamedValue, Value};
use fmtparse::key::FieldKey;
use fmtparse::plan::compile_from_str_struct;
use fmtparse::schema::{FieldDecl, HelperAttributes, SpannedStr, StructSchema, TypeInfo};

fn ty(text: &str) -> TypeInfo {
    TypeInfo { text: text.to_string(), mentions_generics: false }
}

fn named_field(name: &str, tytext: &str) -> FieldDecl {
    FieldDecl {
        key: FieldKey::Named(name.to_string()),
        ty: ty(tytext),
        span: Span::call_site(),
        hattrs: HelperAttributes::empty(),
    }
}

fn unnamed_field(idx: usize, tytext: &str) -> FieldDecl {
    FieldDecl {
        key: FieldKey::Unnamed(idx),
        ty: ty(tytext),
        span: Span::call_site(),
        hattrs: HelperAttributes::empty(),
    }
}

fn fmt(template: &str) -> DisplayFormat {
    DisplayFormat::parse(template, Span::call_site()).unwrap()
}

fn struct_schema(fields: Vec<FieldDecl>, hattrs: HelperAttributes) -> StructSchema {
    StructSchema { span: Span::call_site(), hattrs, fields }
}

fn text_of(v: &Value, key: &FieldKey) -> String {
    match v {
        Value::Record(fs) => {
            for f in fs {
                if &f.key == key {
                    match &f.value {
                        Value::Text(t) => return t.clone(),
                        Value::Record(_) => panic!("field is a record"),
                    }
                }
            }
            panic!("field not found");
        }
        Value::Text(_) => panic!("value is not a record"),
    }
}

fn named_text(v: &Value, name: &str) -> String {
    text_of(v, &FieldKey::Named(name.to_string()))
}

fn text_leaf(t: &str) -> Value {
    Value::Text(t.to_string())
}

fn record(fields: Vec<(FieldKey, Value)>) -> Value {
    Value::Record(
        fields
            .into_iter()
            .map(|(key, value)| NamedValue { key, value })
            .collect(),
    )
}

#[test]
fn from_str_newtype() {
    let schema = struct_schema(vec![unnamed_field(0, "u32")], HelperAttributes::empty());
    let (plan, _) = compile_from_str_struct(&schema).unwrap();
    let v = run_parse_struct(&plan, "12", None).unwrap();
    let a = text_of(&v, &FieldKey::Unnamed(0));
    assert_eq!(a.parse::<u32>().unwrap(), 12);
}

#[test]
fn from_str_struct_format() {
    let mut hattrs = HelperAttributes::empty();
    hattrs.format = Some(fmt("{a},{b}"));
    let schema = struct_schema(vec![named_field("a", "u32"), named_field("b", "u32")], hattrs);
    let (plan, _) = compile_from_str_struct(&schema).unwrap();
    let v = run_parse_struct(&plan, "12,50", None).unwrap();
    assert_eq!(named_text(&v, "a").parse::<u32>().unwrap(), 12);
    assert_eq!(named_text(&v, "b").parse::<u32>().unwrap(), 50);
}

#[test]
fn from_str_struct_field_format() {
    let mut hattrs = HelperAttributes::empty();
    hattrs.format = Some(fmt("{a},{b}"));
    let mut a = named_field("a", "u32");
    a.hattrs.format = Some(fmt("--{}--"));
    let schema = struct_schema(vec![a, named_field("b", "u32")], hattrs);
    let (plan, _) = compile_from_str_struct(&schema).unwrap();
    let v = run_parse_struct(&plan, "--12--,50", None).unwrap();
    assert_eq!(named_text(&v, "a").parse::<u32>().unwrap(), 12);
    assert_eq!(named_text(&v, "b").parse::<u32>().unwrap(), 50);
}

#[test]
fn from_str_struct_field_regex_all() {
    let mut hattrs = HelperAttributes::empty();
    hattrs.format = Some(fmt("{a}{b}"));
    let mut a = named_field("a", "u32");
    a.hattrs.regex = Some(SpannedStr { text: "[0-9]+".to_string(), span: Span::call_site() });
    let schema = struct_schema(vec![a, named_field("b", "String")], hattrs);
    let (plan, _) = compile_from_str_struct(&schema).unwrap();
    let v = run_parse_struct(&plan, "12abc", None).unwrap();
    assert_eq!(named_text(&v, "a").parse::<u32>().unwrap(), 12);
    assert_eq!(named_text(&v, "b"), "abc");
}

#[test]
fn from_str_struct_field_regex_capture_self() {
    let mut hattrs = HelperAttributes::empty();
    hattrs.format = Some(fmt("{a},{b}"));
    let mut a = named_field("a", "u32");
    a.hattrs.regex = Some(
        SpannedStr { text: "---(?P<>[0-9]+)---".to_string(), span: Span::call_site() },
    );
    let schema = struct_schema(vec![a, named_field("b", "u32")], hattrs);
    let (plan, _) = compile_from_str_struct(&schema).unwrap();
    let v = run_parse_struct(&plan, "---12---,50", None).unwrap();
    assert_eq!(named_text(&v, "a").parse::<u32>().unwrap(), 12);
    assert_eq!(named_text(&v, "b").parse::<u32>().unwrap(), 50);
}

#[test]
fn from_str_struct_regex() {
    let mut hattrs = HelperAttributes::empty();
    hattrs.regex = Some(
        SpannedStr { text: "(?P<a>.*),(?P<b>.*)".to_string(), span: Span::call_site() },
    );
    let schema = struct_schema(vec![named_field("a", "u32"), named_field("b", "u32")], hattrs);
    let (plan, _) = compile_from_str_struct(&schema).unwrap();
    let v = run_parse_struct(&plan, "12,50", None).unwrap();
    assert_eq!(named_text(&v, "a").parse::<u32>().unwrap(), 12);
    assert_eq!(named_text(&v, "b").parse::<u32>().unwrap(), 50);
}

#[test]
fn from_str_struct_default() {
    let mut hattrs = HelperAttributes::empty();
    hattrs.format = Some(fmt("{a}"));
    hattrs.default_self = Some(Span::call_site());
    let schema = struct_schema(vec![named_field("a", "u32"), named_field("b", "u32")], hattrs);
    let (plan, _) = compile_from_str_struct(&schema).unwrap();
    let default = record(vec![
        (FieldKey::Named("a".to_string()), text_leaf("0")),
        (FieldKey::Named("b".to_string()), text_leaf("0")),
    ]);
    let v = run_parse_struct(&plan, "12", Some(&default)).unwrap();
    assert_eq!(named_text(&v, "a").parse::<u32>().unwrap(), 12);
    assert_eq!(named_text(&v, "b").parse::<u32>().unwrap(), 0);
}

#[test]
fn from_str_struct_field_default() {
    let mut hattrs = HelperAttributes::empty();
    hattrs.format = Some(fmt("{a}"));
    let a = named_field("a", "u32");
    let mut b = named_field("b", "u32");
    b.hattrs.default_self = Some(Span::call_site());
    let schema = struct_schema(vec![a, b], hattrs);
    let (plan, _) = compile_from_str_struct(&schema).unwrap();
    let default = record(vec![
        (FieldKey::Named("a".to_string()), text_leaf("0")),
        (FieldKey::Named("b".to_string()), text_leaf("0")),
    ]);
    let v = run_parse_struct(&plan, "12", Some(&default)).unwrap();
    assert_eq!(named_text(&v, "a").parse::<u32>().unwrap(), 12);
    assert_eq!(named_text(&v, "b").parse::<u32>().unwrap(), 0);
}

#[test]
fn from_str_tuple_struct() {
    let mut hattrs = HelperAttributes::empty();
    hattrs.format = Some(fmt("{0},{1}"));
    let schema = struct_schema(vec![unnamed_field(0, "u32"), unnamed_field(1, "u32")], hattrs);
    let (plan, _) = compile_from_str_struct(&schema).unwrap();
    let v = run_parse_struct(&plan, "12,50", None).unwrap();
    assert_eq!(text_of(&v, &FieldKey::Unnamed(0)).parse::<u32>().unwrap(), 12);
    assert_eq!(text_of(&v, &FieldKey::Unnamed(1)).parse::<u32>().unwrap(), 50);
}

#[test]
fn from_str_unit_struct() {
    let mut hattrs = HelperAttributes::empty();
    hattrs.format = Some(fmt("abc"));
    let schema = struct_schema(vec![], hattrs);
    let (plan, _) = compile_from_str_struct(&schema).unwrap();
    let v = run_parse_struct(&plan, "abc", None).unwrap();
    match v {
        Value::Record(fs) => assert_eq!(fs.len(), 0),
        Value::Text(_) => panic!("expected a record"),
    }
    assert!(run_parse_struct(&plan, "abd", None).is_err());
}
