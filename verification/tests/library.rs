//! The compiler's own behavior: casing styles, the tokenizer, diagnostics,
//! capture numbering, union dispatch, bound inference, and the round trip
//! between the formatter and parser plans.

use fmtparse::bounds::{Capability, WherePred};
use fmtparse::diag::{DiagnosticKind, Span};
use fmtparse::fmtplan::{compile_display_struct, FormatPlan};
use fmtparse::format::{DisplayFormat, DisplayFormatPart};
use fmtparse::interp::{run_format, run_parse_enum, run_parse_struct, NamedValue, Value};
use fmtparse::key::FieldKey;
use fmtparse::plan::{compile_from_str_enum, compile_from_str_struct, FieldSource};
use fmtparse::prog::MatchProgram;
use fmtparse::schema::{
    EnumSchema, FieldDecl, HelperAttributes, SpannedStr, StructSchema, TypeInfo, VariantSchema,
};
use fmtparse::style::DisplayStyle;
use fmtparse::text::{capture_name, join, trim_raw};

fn named_field(name: &str, tytext: &str) -> FieldDecl {
    FieldDecl {
        key: FieldKey::Named(name.to_string()),
        ty: TypeInfo { text: tytext.to_string(), mentions_generics: false },
        span: Span::call_site(),
        hattrs: HelperAttributes::empty(),
    }
}

fn fmt(template: &str) -> DisplayFormat {
    DisplayFormat::parse(template, Span::call_site()).unwrap()
}

fn struct_schema(fields: Vec<FieldDecl>, hattrs: HelperAttributes) -> StructSchema {
    StructSchema { span: Span::call_site(), hattrs, fields }
}

fn named_text(v: &Value, name: &str) -> String {
    match v {
        Value::Record(fs) => {
            for f in fs {
                if &f.key == &FieldKey::Named(name.to_string()) {
                    if let Value::Text(t) = &f.value {
                        return t.clone();
                    }
                }
            }
            panic!("field not found");
        }
        Value::Text(_) => panic!("not a record"),
    }
}

#[test]
fn style_apply_cases() {
    let snake_upper = DisplayStyle::parse("SNAKE_CASE").unwrap();
    assert_eq!(snake_upper.apply("HTTPServerError"), "HTTP_SERVER_ERROR");
    let snake = DisplayStyle::parse("snake_case").unwrap();
    assert_eq!(snake.apply("HTTPServerError"), "http_server_error");
    let kebab = DisplayStyle::parse("kebab-case").unwrap();
    assert_eq!(kebab.apply("fooBar"), "foo-bar");
    let none = DisplayStyle::parse("none").unwrap();
    assert_eq!(none.apply("x"), "x");
    let camel = DisplayStyle::parse("camelCase").unwrap();
    assert_eq!(camel.apply("foo_bar"), "fooBar");
    let title = DisplayStyle::parse("Title Case").unwrap();
    assert_eq!(title.apply("foo_bar"), "Foo Bar");
    assert!(DisplayStyle::parse("bogus").is_err());
}

#[test]
fn tokenizer_parts() {
    let f = fmt("a{{b}}{x:>5}");
    assert_eq!(f.parts.len(), 5);
    match &f.parts[0] {
        DisplayFormatPart::Str(s) => assert_eq!(s, "a"),
        _ => panic!("expected literal"),
    }
    assert!(matches!(&f.parts[1], DisplayFormatPart::EscapedBeginBracket));
    match &f.parts[4] {
        DisplayFormatPart::Var { arg, format_spec } => {
            assert_eq!(arg, "x");
            assert_eq!(format_spec, ">5");
        }
        _ => panic!("expected variable"),
    }
}

#[test]
fn tokenizer_rejects_unbalanced() {
    let r = DisplayFormat::parse("{a", Span::call_site());
    assert_eq!(r.unwrap_err().kind, DiagnosticKind::MalformedPattern);
    let r = DisplayFormat::parse("}", Span::call_site());
    assert_eq!(r.unwrap_err().kind, DiagnosticKind::MalformedPattern);
}

#[test]
fn unknown_field_diagnostic() {
    let mut hattrs = HelperAttributes::empty();
    hattrs.format = Some(fmt("{c}"));
    let schema = struct_schema(vec![named_field("a", "u32"), named_field("b", "u32")], hattrs);
    let d = compile_from_str_struct(&schema).unwrap_err();
    assert_eq!(d.kind, DiagnosticKind::UnknownField);
    assert_eq!(d.detail, "c");
}

#[test]
fn field_not_covered_diagnostic() {
    let mut hattrs = HelperAttributes::empty();
    hattrs.format = Some(fmt("{a}"));
    let schema = struct_schema(vec![named_field("a", "u32"), named_field("b", "u32")], hattrs);
    let d = compile_from_str_struct(&schema).unwrap_err();
    assert_eq!(d.kind, DiagnosticKind::FieldNotCovered);
    assert_eq!(d.detail, "b");
}

#[test]
fn invalid_regex_diagnostic() {
    let mut hattrs = HelperAttributes::empty();
    hattrs.regex = Some(SpannedStr { text: "(".to_string(), span: Span::call_site() });
    let schema = struct_schema(vec![named_field("a", "u32")], hattrs);
    let d = compile_from_str_struct(&schema).unwrap_err();
    assert_eq!(d.kind, DiagnosticKind::InvalidRegexFragment);
}

#[test]
fn default_on_union_diagnostic() {
    let mut hattrs = HelperAttributes::empty();
    hattrs.default_self = Some(Span::call_site());
    let schema = EnumSchema { span: Span::call_site(), hattrs, variants: vec![] };
    let d = compile_from_str_enum(&schema).unwrap_err();
    assert_eq!(d.kind, DiagnosticKind::ConflictingDirective);
}

#[test]
fn equality_program_for_literal_pattern() {
    let mut hattrs = HelperAttributes::empty();
    hattrs.format = Some(fmt("abc{{d}}"));
    let schema = struct_schema(vec![], hattrs);
    let (plan, _) = compile_from_str_struct(&schema).unwrap();
    match &plan.program {
        MatchProgram::Equality(lit) => assert_eq!(lit, "abc{d}"),
        MatchProgram::Regex(_) => panic!("expected an equality program"),
    }
    assert_eq!(plan.capture_count, 0);
}

#[test]
fn regex_program_for_variable_pattern() {
    let mut hattrs = HelperAttributes::empty();
    hattrs.format = Some(fmt("{a}+{b}"));
    let schema = struct_schema(vec![named_field("a", "u32"), named_field("b", "u32")], hattrs);
    let (plan, _) = compile_from_str_struct(&schema).unwrap();
    match &plan.program {
        MatchProgram::Regex(p) => {
            assert_eq!(p.pattern, "^(?P<value_1>.*?)\\+(?P<value_2>.*?)$");
        }
        MatchProgram::Equality(_) => panic!("expected a regex program"),
    }
    assert_eq!(plan.capture_count, 2);
}

#[test]
fn capture_numbering_deterministic() {
    let build = || {
        let mut hattrs = HelperAttributes::empty();
        hattrs.format = Some(fmt("{b},{a}"));
        let schema = struct_schema(
            vec![named_field("a", "u32"), named_field("b", "u32")],
            hattrs,
        );
        compile_from_str_struct(&schema).unwrap()
    };
    let (plan_a, wheres_a) = build();
    let (plan_b, wheres_b) = build();
    assert_eq!(plan_a.capture_count, plan_b.capture_count);
    match (&plan_a.program, &plan_b.program) {
        (MatchProgram::Regex(ra), MatchProgram::Regex(rb)) => {
            assert_eq!(ra.pattern, rb.pattern);
        }
        _ => panic!("expected regex programs"),
    }
    assert_eq!(wheres_a.len(), wheres_b.len());
    // First-encountered order: `b` stands first in the pattern, so it takes
    // slot one.
    match plan_a.construct.fields[1].source {
        FieldSource::FromCapture(slot) => assert_eq!(slot, 1),
        _ => panic!("expected a capture"),
    }
    match plan_a.construct.fields[0].source {
        FieldSource::FromCapture(slot) => assert_eq!(slot, 2),
        _ => panic!("expected a capture"),
    }
}

#[test]
fn deep_capture_single_slot() {
    let mut hattrs = HelperAttributes::empty();
    hattrs.format = Some(fmt("{a.b},{a.b}"));
    let mut a = named_field("a", "Inner");
    a.hattrs.default_self = Some(Span::call_site());
    let schema = struct_schema(vec![a], hattrs);
    let (plan, _) = compile_from_str_struct(&schema).unwrap();
    // Two references to `a.b`, one slot: idempotent assignment.
    assert_eq!(plan.capture_count, 1);
    assert_eq!(plan.construct.fields[0].deep.len(), 1);
    assert_eq!(plan.construct.fields[0].deep[0].slot, 1);
}

#[test]
fn deep_capture_sets_nested_value() {
    let mut hattrs = HelperAttributes::empty();
    hattrs.format = Some(fmt("{a.b}"));
    let mut a = named_field("a", "Inner");
    a.hattrs.default_self = Some(Span::call_site());
    let schema = struct_schema(vec![a], hattrs);
    let (plan, _) = compile_from_str_struct(&schema).unwrap();
    let inner = Value::Record(vec![NamedValue {
        key: FieldKey::Named("b".to_string()),
        value: Value::Text("0".to_string()),
    }]);
    let default = Value::Record(vec![NamedValue {
        key: FieldKey::Named("a".to_string()),
        value: inner,
    }]);
    let v = run_parse_struct(&plan, "7", Some(&default)).unwrap();
    match &v {
        Value::Record(fs) => match &fs[0].value {
            Value::Record(inner_fs) => match &inner_fs[0].value {
                Value::Text(t) => assert_eq!(t, "7"),
                _ => panic!("expected text at a.b"),
            },
            _ => panic!("expected record at a"),
        },
        _ => panic!("expected record"),
    }
}

#[test]
fn union_declaration_order_wins() {
    let unit = VariantSchema {
        span: Span::call_site(),
        ident: "x".to_string(),
        hattrs: HelperAttributes::empty(),
        fields: vec![],
    };
    let mut captured_hattrs = HelperAttributes::empty();
    captured_hattrs.format = Some(fmt("{n}"));
    let captured = VariantSchema {
        span: Span::call_site(),
        ident: "Captured".to_string(),
        hattrs: captured_hattrs,
        fields: vec![named_field("n", "String")],
    };
    let schema = EnumSchema {
        span: Span::call_site(),
        hattrs: HelperAttributes::empty(),
        variants: vec![unit, captured],
    };
    let (plan, _) = compile_from_str_enum(&schema).unwrap();
    // `Captured`'s regex admits "x" too; the literal arm stands first and wins.
    let (idx, _) = run_parse_enum(&plan, "x").unwrap();
    assert_eq!(idx, 0);
    let (idx, v) = run_parse_enum(&plan, "y").unwrap();
    assert_eq!(idx, 1);
    assert_eq!(named_text(&v, "n"), "y");
    let (idx, _) = run_parse_enum(&plan, "x ").unwrap();
    assert_eq!(idx, 1);
}

#[test]
fn union_styled_tag() {
    let mut enum_hattrs = HelperAttributes::empty();
    enum_hattrs.style = Some(DisplayStyle::parse("snake_case").unwrap());
    let unit = VariantSchema {
        span: Span::call_site(),
        ident: "HTTPServer".to_string(),
        hattrs: HelperAttributes::empty(),
        fields: vec![],
    };
    let schema = EnumSchema {
        span: Span::call_site(),
        hattrs: enum_hattrs,
        variants: vec![unit],
    };
    let (plan, _) = compile_from_str_enum(&schema).unwrap();
    let (idx, _) = run_parse_enum(&plan, "http_server").unwrap();
    assert_eq!(idx, 0);
    assert!(run_parse_enum(&plan, "HTTPServer").is_err());
}

#[test]
fn parse_bounds_are_parse_only() {
    let mut hattrs = HelperAttributes::empty();
    hattrs.format = Some(fmt("{a}"));
    let mut a = named_field("a", "T");
    a.ty.mentions_generics = true;
    let schema = struct_schema(vec![a], hattrs);
    let (_, wheres) = compile_from_str_struct(&schema).unwrap();
    assert_eq!(wheres.len(), 1);
    match &wheres[0] {
        WherePred::Obliged(tytext, cap) => {
            assert_eq!(tytext, "T");
            assert_eq!(*cap, Capability::Parse);
        }
        WherePred::Raw(_) => panic!("expected an obligation"),
    }
}

#[test]
fn display_bounds_are_format() {
    let mut hattrs = HelperAttributes::empty();
    hattrs.format = Some(fmt("{a}"));
    let mut a = named_field("a", "T");
    a.ty.mentions_generics = true;
    let schema = struct_schema(vec![a], hattrs);
    let (_, wheres) = compile_display_struct(&schema).unwrap();
    assert_eq!(wheres.len(), 1);
    match &wheres[0] {
        WherePred::Obliged(tytext, cap) => {
            assert_eq!(tytext, "T");
            assert_eq!(*cap, Capability::Format);
        }
        WherePred::Raw(_) => panic!("expected an obligation"),
    }
}

#[test]
fn round_trip_simple_record() {
    let mut hattrs = HelperAttributes::empty();
    hattrs.format = Some(fmt("{a},{b}"));
    let schema = struct_schema(
        vec![named_field("a", "String"), named_field("b", "String")],
        hattrs,
    );
    let (fplan, _): (FormatPlan, Vec<WherePred>) = compile_display_struct(&schema).unwrap();
    let (pplan, _) = compile_from_str_struct(&schema).unwrap();
    let v = Value::Record(vec![
        NamedValue {
            key: FieldKey::Named("a".to_string()),
            value: Value::Text("12".to_string()),
        },
        NamedValue {
            key: FieldKey::Named("b".to_string()),
            value: Value::Text("50".to_string()),
        },
    ]);
    let rendered = run_format(&fplan, &v).unwrap();
    assert_eq!(rendered, "12,50");
    let back = run_parse_struct(&pplan, &rendered, None).unwrap();
    assert_eq!(named_text(&back, "a"), "12");
    assert_eq!(named_text(&back, "b"), "50");
}

#[test]
fn literal_meta_characters_are_escaped() {
    let mut hattrs = HelperAttributes::empty();
    hattrs.format = Some(fmt("a+b{x}"));
    let schema = struct_schema(vec![named_field("x", "String")], hattrs);
    let (plan, _) = compile_from_str_struct(&schema).unwrap();
    let v = run_parse_struct(&plan, "a+bZ", None).unwrap();
    assert_eq!(named_text(&v, "x"), "Z");
    assert!(run_parse_struct(&plan, "aab", None).is_err());
}

#[test]
fn helper_text_functions() {
    assert_eq!(capture_name(7), "value_7");
    assert_eq!(trim_raw("r#type"), "type");
    assert_eq!(trim_raw("plain"), "plain");
    let items = vec!["a".to_string(), "b".to_string(), "c".to_string()];
    assert_eq!(join(&items, "."), "a.b.c");
    let one = vec!["solo".to_string()];
    assert_eq!(join(&one, "."), "solo");
    let none: Vec<String> = vec![];
    assert_eq!(join(&none, "."), "");
}

#[test]
fn field_keys_from_text() {
    assert_eq!(FieldKey::from_str("0"), FieldKey::Unnamed(0));
    assert_eq!(FieldKey::from_str("name"), FieldKey::Named("name".to_string()));
    assert_eq!(FieldKey::from_str("r#type"), FieldKey::Named("type".to_string()));
    assert_eq!(FieldKey::from_string("7".to_string()), FieldKey::Unnamed(7));
    let path = FieldKey::from_str_deep("a.0.b");
    assert_eq!(
        path,
        vec![
            FieldKey::Named("a".to_string()),
            FieldKey::Unnamed(0),
            FieldKey::Named("b".to_string()),
        ]
    );
    assert_eq!(FieldKey::from_str_deep(""), Vec::<FieldKey>::new());
}
