//! The laws this library states of itself: determinism of compilation,
//! idempotent slot assignment, the equality/regex dichotomy of match
//! programs, union dispatch order, the direction of inferred bounds, and
//! what ties parsing back to formatting.

use vstd::prelude::*;
use crate::bounds::{Capability, WherePredV};
use crate::builder::{
    BuilderV, ContextV, spec_builder_push_frag, spec_builder_push_str, spec_entry_allocates,
    spec_entry_set_capture, spec_find_deep, spec_find_field, spec_push_format, spec_set_capture,
    DeepCaptureV, FieldEntryV,
};
use crate::diag::Span;
use crate::format::FormatPartV;
use crate::interp::{
    spec_construct, spec_first_eq_arm, spec_run_parse_enum, spec_slot_text, ParseFailure, ValueV,
};
use crate::key::KeyV;
use crate::plan::{
    ConstructModeV, ConstructPlanV, EnumParsePlanV, FieldPlanV, spec_compile_from_str_enum,
    spec_compile_from_str_struct,
};
use crate::prog::{MatchProgramV, spec_match_program};
use crate::schema::{EnumSchemaV, StructSchemaV};

verus! {

/// Compilation is a pure function of the schema and its directives: two
/// compilations of equal inputs yield identical plans, slot assignments,
/// group names and bound sets. Every compiled artifact is pinned to this
/// function by the compiler's contract, so recompiling can never renumber a
/// slot.
pub proof fn lemma_compile_struct_deterministic(a: StructSchemaV, b: StructSchemaV)
    requires
        a == b,
    ensures
        spec_compile_from_str_struct(a) == spec_compile_from_str_struct(b),
{
}

/// Determinism of union compilation, as for records.
pub proof fn lemma_compile_enum_deterministic(a: EnumSchemaV, b: EnumSchemaV)
    requires
        a == b,
    ensures
        spec_compile_from_str_enum(a) == spec_compile_from_str_enum(b),
{
}

/// Slot assignment is idempotent: a reference that was just given its slot
/// asks again and receives the same slot, the same group name, and an
/// unchanged planner. Repeated references to one field, or to one deep
/// sub-path, therefore share a single capture slot.
pub proof fn lemma_set_capture_idempotent(
    b: BuilderV,
    ctx: ContextV,
    keys: Seq<KeyV>,
    span: Span,
    b1: BuilderV,
    name: Seq<char>,
)
    requires
        spec_set_capture(b, ctx, keys, span) == Ok::<(BuilderV, Seq<char>), crate::diag::DiagV>(
            (b1, name),
        ),
    ensures
        spec_set_capture(b1, ctx, keys, span) == Ok::<(BuilderV, Seq<char>), crate::diag::DiagV>(
            (b1, name),
        ),
{
    if !(ctx is Field) && keys.len() == 0 {
    } else {
        let field_key = if ctx is Field {
            ctx->Field_key
        } else {
            keys[0]
        };
        let sub = if ctx is Field {
            keys
        } else {
            keys.skip(1)
        };
        let i = spec_find_field(b.fields, field_key).unwrap();
        crate::builder::lemma_find_field_char(b.fields, field_key);
        let (e1, idx, next) = spec_entry_set_capture(b.fields[i], sub, b.capture_next);
        lemma_find_field_update(b.fields, i, e1, field_key);
        assert(spec_find_field(b1.fields, field_key) == Some(i));
        assert(b1.fields[i] == e1);
        if sub.len() == 0 {
            assert(e1.capture == Some(idx));
            assert(!spec_entry_allocates(e1, sub));
            assert(spec_entry_set_capture(e1, sub, b1.capture_next) == (
                e1,
                idx,
                b1.capture_next,
            ));
        } else {
            match spec_find_deep(b.fields[i].deep_captures, sub) {
                Some(slot) => {
                    assert(e1 == b.fields[i]);
                    assert(!spec_entry_allocates(e1, sub));
                },
                None => {
                    lemma_find_deep_push(
                        b.fields[i].deep_captures,
                        sub,
                        b.capture_next,
                    );
                    assert(spec_find_deep(e1.deep_captures, sub) == Some(b.capture_next));
                    assert(!spec_entry_allocates(e1, sub));
                },
            }
        }
        assert(b1.fields.update(i, e1) =~= b1.fields);
    }
}

/// Updating an entry without changing its key leaves the first-match search
/// where it was.
proof fn lemma_find_field_update(fields: Seq<FieldEntryV>, i: int, e: FieldEntryV, k: KeyV)
    requires
        spec_find_field(fields, k) == Some(i),
        0 <= i < fields.len(),
        e.key == fields[i].key,
    ensures
        spec_find_field(fields.update(i, e), k) == Some(i),
    decreases fields.len(),
{
    crate::builder::lemma_find_field_char(fields, k);
    if i == 0 {
        assert(fields.update(0, e)[0].key == k);
    } else {
        assert(fields[0].key != k);
        assert(fields.update(i, e)[0] == fields[0]);
        lemma_find_field_update(fields.skip(1), i - 1, e, k);
        assert(fields.update(i, e).skip(1) =~= fields.skip(1).update(i - 1, e));
    }
}

/// A sub-path just recorded is found, with its slot.
proof fn lemma_find_deep_push(dcs: Seq<DeepCaptureV>, path: Seq<KeyV>, slot: usize)
    requires
        spec_find_deep(dcs, path) is None,
    ensures
        spec_find_deep(dcs.push(DeepCaptureV { path, slot }), path) == Some(slot),
    decreases dcs.len(),
{
    if dcs.len() == 0 {
        assert(dcs.push(DeepCaptureV { path, slot })[0].path == path);
    } else {
        assert(dcs[0].path != path);
        lemma_find_deep_push(dcs.skip(1), path, slot);
        assert(dcs.push(DeepCaptureV { path, slot }).skip(1) =~= dcs.skip(1).push(
            DeepCaptureV { path, slot },
        ));
    }
}

/// A pattern with no variables compiles to an equality program: walking only
/// literal parts keeps the parse form pure literal text, and a literal parse
/// form finishes into a string-equality match program.
pub proof fn lemma_no_variables_equality(
    b: BuilderV,
    parts: Seq<FormatPartV>,
    fspan: Span,
    ctx: ContextV,
    fuel: nat,
)
    requires
        b.parse_format is Literal,
        forall|i: int| 0 <= i < parts.len() ==> !((#[trigger] parts[i]) is Var),
    ensures
        match spec_push_format(b, parts, fspan, ctx, fuel) {
            Ok(b2) => b2.parse_format is Literal && spec_match_program(b2.parse_format)
                is Equality,
            Err(_) => true,
        },
    decreases parts.len(),
{
    if parts.len() != 0 {
        assert(!(parts[0] is Var));
        let b2 = match parts[0] {
            FormatPartV::Str(s) => spec_builder_push_str(b, s),
            FormatPartV::EscapedBeginBracket => spec_builder_push_str(b, "{"@),
            FormatPartV::EscapedEndBracket => spec_builder_push_str(b, "}"@),
            FormatPartV::Var(_, _) => b,
        };
        assert(b2.parse_format is Literal);
        lemma_no_variables_equality(b2, parts.skip(1), fspan, ctx, fuel);
        assert(forall|i: int|
            0 <= i < parts.skip(1).len() ==> parts.skip(1)[i] == parts[i + 1]);
    }
}

/// Once a variable has turned the parse form into a fragment list, it stays
/// one, and the pattern therefore compiles to a regex program: no later part
/// can take the fragments away.
pub proof fn lemma_fragments_stay(
    b: BuilderV,
    parts: Seq<FormatPartV>,
    fspan: Span,
    ctx: ContextV,
    fuel: nat,
)
    requires
        b.parse_format is Fragments,
    ensures
        match spec_push_format(b, parts, fspan, ctx, fuel) {
            Ok(b2) => b2.parse_format is Fragments && spec_match_program(b2.parse_format)
                is Regex,
            Err(_) => true,
        },
    decreases fuel, 3nat, parts.len(),
{
    if parts.len() != 0 {
        let step: Result<BuilderV, crate::diag::DiagV> = match parts[0] {
            FormatPartV::Str(s) => Ok(spec_builder_push_str(b, s)),
            FormatPartV::EscapedBeginBracket => Ok(spec_builder_push_str(b, "{"@)),
            FormatPartV::EscapedEndBracket => Ok(spec_builder_push_str(b, "}"@)),
            FormatPartV::Var(arg, _fs) => {
                let keys = crate::key::spec_path_of(arg);
                if ctx is Variant && keys.len() == 0 {
                    Ok(
                        spec_builder_push_str(
                            b,
                            crate::style::spec_style_apply(ctx->Variant_style, ctx->Variant_tag),
                        ),
                    )
                } else if keys.len() == 1 {
                    crate::builder::spec_push_field(b, keys[0], fspan, fuel)
                } else {
                    match spec_set_capture(b, ctx, keys, fspan) {
                        Ok((b2, name)) => Ok(
                            spec_builder_push_frag(b2, crate::prog::FragV::Cap(name)),
                        ),
                        Err(d) => Err(d),
                    }
                }
            },
        };
        match step {
            Ok(b2) => {
                if parts[0] is Var {
                    let arg = parts[0]->Var_0;
                    let keys = crate::key::spec_path_of(arg);
                    if ctx is Variant && keys.len() == 0 {
                        assert(b2.parse_format is Fragments);
                    } else if keys.len() == 1 {
                        lemma_push_field_keeps_fragments(b, keys[0], fspan, fuel);
                        assert(b2.parse_format is Fragments);
                    } else {
                        assert(b2.parse_format is Fragments);
                    }
                } else {
                    assert(b2.parse_format is Fragments);
                }
                lemma_fragments_stay(b2, parts.skip(1), fspan, ctx, fuel);
            },
            Err(_) => {},
        }
    }
}

/// Expanding a field reference never turns fragments back into a literal.
pub proof fn lemma_push_field_keeps_fragments(b: BuilderV, key: KeyV, span: Span, fuel: nat)
    requires
        b.parse_format is Fragments,
    ensures
        match crate::builder::spec_push_field(b, key, span, fuel) {
            Ok(b2) => b2.parse_format is Fragments,
            Err(_) => true,
        },
    decreases fuel, 2nat, 0nat,
{
    match spec_find_field(b.fields, key) {
        None => {},
        Some(i) => {
            if fuel != 0 {
                lemma_push_attrs_keeps_fragments(
                    b,
                    b.fields[i].hattrs,
                    ContextV::Field { key, span: b.fields[i].span },
                    (fuel - 1) as nat,
                );
            }
        },
    }
}

/// Applying a scope's directives never turns fragments back into a literal.
pub proof fn lemma_push_attrs_keeps_fragments(
    b: BuilderV,
    h: crate::schema::HelperAttributesV,
    ctx: ContextV,
    fuel: nat,
)
    requires
        b.parse_format is Fragments,
    ensures
        match crate::builder::spec_push_attrs(b, h, ctx, fuel) {
            Ok(b2) => b2.parse_format is Fragments,
            Err(_) => true,
        },
    decreases fuel, 1nat, 0nat,
{
    lemma_try_push_attrs_keeps_fragments(b, h, ctx, fuel);
    match crate::builder::spec_try_push_attrs(b, h, ctx, fuel) {
        Err(_) => {},
        Ok((true, _)) => {},
        Ok((false, _)) => {
            if fuel != 0 {
                match crate::builder::spec_default_format(ctx) {
                    Err(_) => {},
                    Ok((parts, sp)) => {
                        lemma_fragments_stay(b, parts, sp, ctx, (fuel - 1) as nat);
                    },
                }
            }
        },
    }
}

/// A regex or pattern directive never turns fragments back into a literal.
pub proof fn lemma_try_push_attrs_keeps_fragments(
    b: BuilderV,
    h: crate::schema::HelperAttributesV,
    ctx: ContextV,
    fuel: nat,
)
    requires
        b.parse_format is Fragments,
    ensures
        match crate::builder::spec_try_push_attrs(b, h, ctx, fuel) {
            Ok((_, b2)) => b2.parse_format is Fragments,
            Err(_) => true,
        },
    decreases fuel, 0nat, 0nat,
{
    match h.regex {
        Some(lit) => {
            lemma_push_regex_keeps_fragments(b, lit, ctx);
        },
        None => match h.format {
            Some(f) => {
                if fuel != 0 {
                    lemma_fragments_stay(b, f.parts, f.span, ctx, (fuel - 1) as nat);
                }
            },
            None => {},
        },
    }
}

/// Splicing a raw regex always leaves a fragment list behind.
pub proof fn lemma_push_regex_keeps_fragments(
    b: BuilderV,
    lit: crate::schema::SpannedStrV,
    ctx: ContextV,
)
    ensures
        match crate::builder::spec_push_regex(b, lit, ctx) {
            Ok(b2) => b2.parse_format is Fragments,
            Err(_) => true,
        },
{
}

/// Marking defaults never touches the parse form.
proof fn lemma_apply_default_fields_parse_format(b: BuilderV, keys: Seq<KeyV>)
    ensures
        match crate::builder::spec_apply_default_fields(b, keys) {
            Ok(b1) => b1.parse_format == b.parse_format,
            Err(_) => true,
        },
    decreases keys.len(),
{
    if keys.len() != 0 {
        match spec_find_field(b.fields, keys[0]) {
            None => {},
            Some(i) => {
                lemma_apply_default_fields_parse_format(
                    BuilderV {
                        fields: b.fields.update(
                            i,
                            FieldEntryV { use_default: true, ..b.fields[i] },
                        ),
                        ..b
                    },
                    keys.skip(1),
                );
            },
        }
    }
}

/// A scope's default and span directives never touch the parse form.
proof fn lemma_apply_attrs_parse_format(b: BuilderV, h: crate::schema::HelperAttributesV)
    ensures
        match crate::builder::spec_apply_attrs(b, h) {
            Ok(b1) => b1.parse_format == b.parse_format,
            Err(_) => true,
        },
{
    let b1 = if h.default_self is Some {
        BuilderV { use_default: true, ..b }
    } else {
        b
    };
    lemma_apply_default_fields_parse_format(b1, h.default_fields);
}

/// A record pattern with zero variables compiles to an equality program: the
/// walk only ever appends literal text, so the parse form stays a pure
/// literal and finishes into a string-equality check.
pub proof fn lemma_literal_pattern_is_equality(data: StructSchemaV)
    requires
        data.hattrs.regex is None,
        data.hattrs.format is Some,
        forall|i: int|
            0 <= i < data.hattrs.format.unwrap().parts.len() ==> !((#[trigger] data.hattrs
                .format.unwrap().parts[i]) is Var),
    ensures
        match spec_compile_from_str_struct(data) {
            Ok((plan, _)) => plan.program is Equality,
            Err(_) => true,
        },
{
    let b = BuilderV {
        new_expr: data.hattrs.new_expr,
        ..crate::builder::spec_builder_new(data.fields)
    };
    lemma_apply_attrs_parse_format(b, data.hattrs);
    match crate::builder::spec_apply_attrs(b, data.hattrs) {
        Err(_) => {},
        Ok(b1) => {
            let f = data.hattrs.format.unwrap();
            let ctx = ContextV::Struct {
                newtype: crate::schema::spec_newtype_field(data.fields),
                span: data.span,
            };
            let fuel = crate::plan::spec_fuel(data.fields.len() as int);
            if fuel != 0 {
                lemma_no_variables_equality(b1, f.parts, f.span, ctx, (fuel - 1) as nat);
            }
        },
    }
}

/// Marking defaults keeps every entry's key and directives.
proof fn lemma_apply_default_fields_preserves_entries(b: BuilderV, keys: Seq<KeyV>)
    ensures
        match crate::builder::spec_apply_default_fields(b, keys) {
            Ok(b1) => b1.fields.len() == b.fields.len() && (forall|i: int|
                0 <= i < b1.fields.len() ==> (#[trigger] b1.fields[i]).key == b.fields[i].key
                    && b1.fields[i].hattrs == b.fields[i].hattrs),
            Err(_) => true,
        },
    decreases keys.len(),
{
    if keys.len() != 0 {
        match spec_find_field(b.fields, keys[0]) {
            None => {},
            Some(i) => {
                crate::builder::lemma_find_field_char(b.fields, keys[0]);
                let bnext = BuilderV {
                    fields: b.fields.update(
                        i,
                        FieldEntryV { use_default: true, ..b.fields[i] },
                    ),
                    ..b
                };
                lemma_apply_default_fields_preserves_entries(bnext, keys.skip(1));
            },
        }
    }
}

/// A record pattern with a variable compiles to a regex program, provided
/// the variable genuinely captures: either its path walks into nested
/// structure, or it addresses a field that carries no directive pattern or
/// regex of its own. (A field whose own directive pattern is pure literal
/// text contributes no capture, so such a pattern can still finish as an
/// equality program; those inputs stand outside this law.)
pub proof fn lemma_variable_pattern_is_regex(data: StructSchemaV, w: int)
    requires
        data.hattrs.regex is None,
        data.hattrs.format is Some,
        0 <= w < data.hattrs.format.unwrap().parts.len(),
        data.hattrs.format.unwrap().parts[w] is Var,
        ({
            let keys = crate::key::spec_path_of(data.hattrs.format.unwrap().parts[w]->Var_0);
            keys.len() >= 2 || (keys.len() == 1 && (match spec_find_field(
                crate::builder::spec_builder_new(data.fields).fields,
                keys[0],
            ) {
                Some(i) => crate::builder::spec_builder_new(data.fields).fields[i].hattrs.format
                    is None && crate::builder::spec_builder_new(
                    data.fields,
                ).fields[i].hattrs.regex is None,
                None => false,
            }))
        }),
    ensures
        match spec_compile_from_str_struct(data) {
            Ok((plan, _)) => plan.program is Regex,
            Err(_) => true,
        },
{
    let b = BuilderV {
        new_expr: data.hattrs.new_expr,
        ..crate::builder::spec_builder_new(data.fields)
    };
    let b0 = if data.hattrs.default_self is Some {
        BuilderV { use_default: true, ..b }
    } else {
        b
    };
    lemma_apply_default_fields_preserves_entries(b0, data.hattrs.default_fields);
    match crate::builder::spec_apply_attrs(b, data.hattrs) {
        Err(_) => {},
        Ok(b1) => {
            let f = data.hattrs.format.unwrap();
            let ctx = ContextV::Struct {
                newtype: crate::schema::spec_newtype_field(data.fields),
                span: data.span,
            };
            let fuel = crate::plan::spec_fuel(data.fields.len() as int);
            if fuel != 0 {
                lemma_capturing_variable_fragments(
                    b1,
                    f.parts,
                    f.span,
                    ctx,
                    (fuel - 1) as nat,
                    w,
                    b.fields,
                );
            }
        },
    }
}

/// Walking parts that hold a genuinely capturing variable leaves a fragment
/// list behind: the variable pushes a capture group, and fragments stay.
/// The field entries' directives are compared against the schema's starting
/// entries, whose keys and directives every walk step preserves.
proof fn lemma_capturing_variable_fragments(
    b: BuilderV,
    parts: Seq<FormatPartV>,
    fspan: Span,
    ctx: ContextV,
    fuel: nat,
    w: int,
    entries0: Seq<FieldEntryV>,
)
    requires
        0 <= w < parts.len(),
        parts[w] is Var,
        ctx is Struct,
        forall|i: int|
            0 <= i < b.fields.len() ==> #[trigger] b.fields[i].key == entries0[i].key && b.fields[
                i
            ].hattrs == entries0[i].hattrs,
        b.fields.len() == entries0.len(),
        ({
            let keys = crate::key::spec_path_of(parts[w]->Var_0);
            keys.len() >= 2 || (keys.len() == 1 && (match spec_find_field(entries0, keys[0]) {
                Some(i) => entries0[i].hattrs.format is None && entries0[i].hattrs.regex is None,
                None => false,
            }))
        }),
    ensures
        match spec_push_format(b, parts, fspan, ctx, fuel) {
            Ok(b2) => b2.parse_format is Fragments && spec_match_program(b2.parse_format)
                is Regex,
            Err(_) => true,
        },
    decreases parts.len(),
{
    let step: Result<BuilderV, crate::diag::DiagV> = match parts[0] {
        FormatPartV::Str(s) => Ok(spec_builder_push_str(b, s)),
        FormatPartV::EscapedBeginBracket => Ok(spec_builder_push_str(b, "{"@)),
        FormatPartV::EscapedEndBracket => Ok(spec_builder_push_str(b, "}"@)),
        FormatPartV::Var(arg, _fs) => {
            let keys = crate::key::spec_path_of(arg);
            if keys.len() == 1 {
                crate::builder::spec_push_field(b, keys[0], fspan, fuel)
            } else {
                match spec_set_capture(b, ctx, keys, fspan) {
                    Ok((b2, name)) => Ok(
                        spec_builder_push_frag(b2, crate::prog::FragV::Cap(name)),
                    ),
                    Err(d) => Err(d),
                }
            }
        },
    };
    match step {
        Err(_) => {},
        Ok(b2) => {
            if w == 0 {
                let arg = parts[0]->Var_0;
                let keys = crate::key::spec_path_of(arg);
                if keys.len() >= 2 {
                    assert(b2.parse_format is Fragments);
                } else {
                    lemma_plain_field_reference_fragments(b, keys[0], fspan, fuel, entries0);
                    assert(b2.parse_format is Fragments);
                }
                lemma_fragments_stay(b2, parts.skip(1), fspan, ctx, fuel);
            } else {
                lemma_step_preserves_entries(b, parts[0], fspan, ctx, fuel, b2, entries0);
                lemma_capturing_variable_fragments(
                    b2,
                    parts.skip(1),
                    fspan,
                    ctx,
                    fuel,
                    w - 1,
                    entries0,
                );
                assert(parts.skip(1)[w - 1] == parts[w]);
            }
        },
    }
}

/// Expanding a reference to a field that carries no directive pattern or
/// regex assigns it a direct capture slot, so the parse form becomes a
/// fragment list.
proof fn lemma_plain_field_reference_fragments(
    b: BuilderV,
    key: KeyV,
    span: Span,
    fuel: nat,
    entries0: Seq<FieldEntryV>,
)
    requires
        forall|i: int|
            0 <= i < b.fields.len() ==> #[trigger] b.fields[i].key == entries0[i].key && b.fields[
                i
            ].hattrs == entries0[i].hattrs,
        b.fields.len() == entries0.len(),
        match spec_find_field(entries0, key) {
            Some(i) => entries0[i].hattrs.format is None && entries0[i].hattrs.regex is None,
            None => false,
        },
    ensures
        match crate::builder::spec_push_field(b, key, span, fuel) {
            Ok(b2) => b2.parse_format is Fragments,
            Err(_) => true,
        },
{
    lemma_find_field_same_keys(b.fields, entries0, key);
    match spec_find_field(b.fields, key) {
        None => {},
        Some(i) => {
            crate::builder::lemma_find_field_char(b.fields, key);
            crate::builder::lemma_find_field_char(entries0, key);
            assert(spec_find_field(entries0, key) == Some(i));
            let h = b.fields[i].hattrs;
            assert(h.format is None && h.regex is None);
            if fuel != 0 {
                let fctx = ContextV::Field { key, span: b.fields[i].span };
                let f2 = (fuel - 1) as nat;
                // try_push_attrs finds nothing, the default pattern is the
                // bare value, and that reference takes a slot.
                assert(crate::builder::spec_try_push_attrs(b, h, fctx, f2) == Ok::<
                    (bool, BuilderV),
                    crate::diag::DiagV,
                >((false, b)));
                if f2 != 0 {
                    let parts = seq![FormatPartV::Var(Seq::<char>::empty(), Seq::<char>::empty())];
                    let f3 = (f2 - 1) as nat;
                    assert(crate::key::spec_path_of(Seq::<char>::empty()).len() == 0);
                    match spec_set_capture(b, fctx, Seq::empty(), b.fields[i].span) {
                        Err(_) => {},
                        Ok((bc, name)) => {
                            let b2 = spec_builder_push_frag(
                                bc,
                                crate::prog::FragV::Cap(name),
                            );
                            assert(b2.parse_format is Fragments);
                            lemma_fragments_stay(b2, parts.skip(1), b.fields[i].span, fctx, f3);
                        },
                    }
                }
            }
        },
    }
}

/// Two entry lists with the same keys agree on every first-match search.
proof fn lemma_find_field_same_keys(a: Seq<FieldEntryV>, c: Seq<FieldEntryV>, key: KeyV)
    requires
        a.len() == c.len(),
        forall|i: int| 0 <= i < a.len() ==> (#[trigger] a[i]).key == c[i].key,
    ensures
        spec_find_field(a, key) == spec_find_field(c, key),
    decreases a.len(),
{
    if a.len() != 0 && a[0].key != key {
        lemma_find_field_same_keys(a.skip(1), c.skip(1), key);
        assert(forall|i: int| 0 <= i < a.skip(1).len() ==> (#[trigger] a.skip(1)[i]).key == c
            .skip(1)[i].key);
    }
}

/// One walk step keeps every entry's key and directives: slot assignment
/// and default marking touch only the capture state.
proof fn lemma_step_preserves_entries(
    b: BuilderV,
    part: FormatPartV,
    fspan: Span,
    ctx: ContextV,
    fuel: nat,
    b2: BuilderV,
    entries0: Seq<FieldEntryV>,
)
    requires
        ctx is Struct,
        !(part is Var) ==> b2 == spec_builder_push_str(
            b,
            match part {
                FormatPartV::Str(s) => s,
                FormatPartV::EscapedBeginBracket => "{"@,
                FormatPartV::EscapedEndBracket => "}"@,
                FormatPartV::Var(_, _) => Seq::empty(),
            },
        ),
        part is Var ==> ({
            let keys = crate::key::spec_path_of(part->Var_0);
            if keys.len() == 1 {
                crate::builder::spec_push_field(b, keys[0], fspan, fuel) == Ok::<
                    BuilderV,
                    crate::diag::DiagV,
                >(b2)
            } else {
                match spec_set_capture(b, ctx, keys, fspan) {
                    Ok((bc, name)) => b2 == spec_builder_push_frag(
                        bc,
                        crate::prog::FragV::Cap(name),
                    ),
                    Err(_) => false,
                }
            }
        }),
        forall|i: int|
            0 <= i < b.fields.len() ==> #[trigger] b.fields[i].key == entries0[i].key && b.fields[
                i
            ].hattrs == entries0[i].hattrs,
        b.fields.len() == entries0.len(),
    ensures
        b2.fields.len() == entries0.len(),
        forall|i: int|
            0 <= i < b2.fields.len() ==> #[trigger] b2.fields[i].key == entries0[i].key
                && b2.fields[i].hattrs == entries0[i].hattrs,
{
    if part is Var {
        let keys = crate::key::spec_path_of(part->Var_0);
        if keys.len() == 1 {
            lemma_push_field_preserves_entries(b, keys[0], fspan, fuel, b2);
        } else {
            lemma_set_capture_preserves_entries(b, ctx, keys, fspan);
        }
    }
}

/// Slot assignment keeps every entry's key and directives.
proof fn lemma_set_capture_preserves_entries(
    b: BuilderV,
    ctx: ContextV,
    keys: Seq<KeyV>,
    span: Span,
)
    ensures
        match spec_set_capture(b, ctx, keys, span) {
            Ok((b2, _)) => b2.fields.len() == b.fields.len() && (forall|i: int|
                0 <= i < b2.fields.len() ==> (#[trigger] b2.fields[i]).key == b.fields[i].key
                    && b2.fields[i].hattrs == b.fields[i].hattrs),
            Err(_) => true,
        },
{
    match spec_set_capture(b, ctx, keys, span) {
        Ok((b2, _)) => {
            if !(ctx is Field) && keys.len() == 0 {
            } else {
                let field_key = if ctx is Field {
                    ctx->Field_key
                } else {
                    keys[0]
                };
                let sub = if ctx is Field {
                    keys
                } else {
                    keys.skip(1)
                };
                crate::builder::lemma_find_field_char(b.fields, field_key);
                let i = spec_find_field(b.fields, field_key).unwrap();
                let (e1, _idx, _next) = spec_entry_set_capture(
                    b.fields[i],
                    sub,
                    b.capture_next,
                );
                assert(e1.key == b.fields[i].key && e1.hattrs == b.fields[i].hattrs);
                assert forall|j: int|
                    0 <= j < b2.fields.len() implies (#[trigger] b2.fields[j]).key == b.fields[
                    j
                ].key && b2.fields[j].hattrs == b.fields[j].hattrs by {
                    if j != i {
                        assert(b2.fields[j] == b.fields[j]);
                    }
                }
            }
        },
        Err(_) => {},
    }
}

/// Expanding a field reference keeps every entry's key and directives.
proof fn lemma_push_field_preserves_entries(
    b: BuilderV,
    key: KeyV,
    span: Span,
    fuel: nat,
    b2: BuilderV,
)
    requires
        crate::builder::spec_push_field(b, key, span, fuel) == Ok::<BuilderV, crate::diag::DiagV>(
            b2,
        ),
    ensures
        b2.fields.len() == b.fields.len(),
        forall|i: int|
            0 <= i < b2.fields.len() ==> (#[trigger] b2.fields[i]).key == b.fields[i].key
                && b2.fields[i].hattrs == b.fields[i].hattrs,
    decreases fuel, 2nat, 0nat,
{
    match spec_find_field(b.fields, key) {
        None => {},
        Some(i) => {
            if fuel != 0 {
                lemma_push_attrs_preserves_entries(
                    b,
                    b.fields[i].hattrs,
                    ContextV::Field { key, span: b.fields[i].span },
                    (fuel - 1) as nat,
                    b2,
                );
            }
        },
    }
}

/// Applying a scope's directives keeps every entry's key and directives.
proof fn lemma_push_attrs_preserves_entries(
    b: BuilderV,
    h: crate::schema::HelperAttributesV,
    ctx: ContextV,
    fuel: nat,
    b2: BuilderV,
)
    requires
        crate::builder::spec_push_attrs(b, h, ctx, fuel) == Ok::<BuilderV, crate::diag::DiagV>(
            b2,
        ),
    ensures
        b2.fields.len() == b.fields.len(),
        forall|i: int|
            0 <= i < b2.fields.len() ==> (#[trigger] b2.fields[i]).key == b.fields[i].key
                && b2.fields[i].hattrs == b.fields[i].hattrs,
    decreases fuel, 1nat, 0nat,
{
    lemma_try_push_attrs_preserves_entries(b, h, ctx, fuel);
    match crate::builder::spec_try_push_attrs(b, h, ctx, fuel) {
        Err(_) => {},
        Ok((true, _)) => {},
        Ok((false, _)) => {
            if fuel != 0 {
                match crate::builder::spec_default_format(ctx) {
                    Err(_) => {},
                    Ok((parts, sp)) => {
                        lemma_push_format_preserves_entries(
                            b,
                            parts,
                            sp,
                            ctx,
                            (fuel - 1) as nat,
                            b2,
                        );
                    },
                }
            }
        },
    }
}

/// A regex or pattern directive keeps every entry's key and directives.
proof fn lemma_try_push_attrs_preserves_entries(
    b: BuilderV,
    h: crate::schema::HelperAttributesV,
    ctx: ContextV,
    fuel: nat,
)
    ensures
        match crate::builder::spec_try_push_attrs(b, h, ctx, fuel) {
            Ok((_, b2)) => b2.fields.len() == b.fields.len() && (forall|i: int|
                0 <= i < b2.fields.len() ==> (#[trigger] b2.fields[i]).key == b.fields[i].key
                    && b2.fields[i].hattrs == b.fields[i].hattrs),
            Err(_) => true,
        },
    decreases fuel, 0nat, 0nat,
{
    match h.regex {
        Some(lit) => {
            lemma_push_regex_preserves_entries(b, lit, ctx);
        },
        None => match h.format {
            Some(f) => {
                if fuel != 0 {
                    match spec_push_format(b, f.parts, f.span, ctx, (fuel - 1) as nat) {
                        Ok(b2) => {
                            lemma_push_format_preserves_entries(
                                b,
                                f.parts,
                                f.span,
                                ctx,
                                (fuel - 1) as nat,
                                b2,
                            );
                        },
                        Err(_) => {},
                    }
                }
            },
            None => {},
        },
    }
}

/// Splicing a raw regex keeps every entry's key and directives.
proof fn lemma_push_regex_preserves_entries(
    b: BuilderV,
    lit: crate::schema::SpannedStrV,
    ctx: ContextV,
)
    ensures
        match crate::builder::spec_push_regex(b, lit, ctx) {
            Ok(b2) => b2.fields.len() == b.fields.len() && (forall|i: int|
                0 <= i < b2.fields.len() ==> (#[trigger] b2.fields[i]).key == b.fields[i].key
                    && b2.fields[i].hattrs == b.fields[i].hattrs),
            Err(_) => true,
        },
{
    match crate::builder::spec_rewrite_caps(
        b,
        lit.text,
        0,
        ctx,
        lit.span,
        Seq::empty(),
        false,
        false,
    ) {
        Err(_) => {},
        Ok((b1, _, _, _)) => {
            lemma_rewrite_preserves_entries(b, lit.text, 0, ctx, lit.span, Seq::empty(), false,
                false);
            match spec_set_capture(b1, ctx, Seq::empty(), lit.span) {
                Err(_) => {},
                Ok((bc, _)) => {
                    lemma_set_capture_preserves_entries(b1, ctx, Seq::empty(), lit.span);
                },
            }
        },
    }
}

/// Rewriting a raw fragment's group names keeps every entry's key and
/// directives.
proof fn lemma_rewrite_preserves_entries(
    b: BuilderV,
    s: Seq<char>,
    i: int,
    ctx: ContextV,
    span: Span,
    acc: Seq<char>,
    has_cap: bool,
    has_empty: bool,
)
    ensures
        match crate::builder::spec_rewrite_caps(b, s, i, ctx, span, acc, has_cap, has_empty) {
            Ok((b1, _, _, _)) => b1.fields.len() == b.fields.len() && (forall|j: int|
                0 <= j < b1.fields.len() ==> (#[trigger] b1.fields[j]).key == b.fields[j].key
                    && b1.fields[j].hattrs == b.fields[j].hattrs),
            Err(_) => true,
        },
    decreases s.len() - i,
{
    if 0 <= i < s.len() {
        match crate::rawregex::spec_group_open_at(s, i) {
            Some(g) => {
                let name = s.subrange(i + 4, g);
                match spec_set_capture(b, ctx, crate::key::spec_path_of(name), span) {
                    Err(_) => {},
                    Ok((b2, gname)) => {
                        lemma_set_capture_preserves_entries(
                            b,
                            ctx,
                            crate::key::spec_path_of(name),
                            span,
                        );
                        crate::rawregex::lemma_run_name_bounds(s.skip(i + 4));
                        lemma_rewrite_preserves_entries(
                            b2,
                            s,
                            g + 1,
                            ctx,
                            span,
                            acc + "(?P<"@ + gname + ">"@,
                            true,
                            has_empty || gname == crate::builder::spec_empty_name(),
                        );
                    },
                }
            },
            None => {
                lemma_rewrite_preserves_entries(
                    b,
                    s,
                    i + 1,
                    ctx,
                    span,
                    acc + seq![s[i]],
                    has_cap,
                    has_empty,
                );
            },
        }
    }
}

/// One part's worth of walking keeps every entry's key and directives.
proof fn lemma_push_format_preserves_entries(
    b: BuilderV,
    parts: Seq<FormatPartV>,
    fspan: Span,
    ctx: ContextV,
    fuel: nat,
    b2: BuilderV,
)
    requires
        spec_push_format(b, parts, fspan, ctx, fuel) == Ok::<BuilderV, crate::diag::DiagV>(b2),
    ensures
        b2.fields.len() == b.fields.len(),
        forall|i: int|
            0 <= i < b2.fields.len() ==> (#[trigger] b2.fields[i]).key == b.fields[i].key
                && b2.fields[i].hattrs == b.fields[i].hattrs,
    decreases fuel, 3nat, parts.len(),
{
    if parts.len() != 0 {
        let step: Result<BuilderV, crate::diag::DiagV> = match parts[0] {
            FormatPartV::Str(s) => Ok(spec_builder_push_str(b, s)),
            FormatPartV::EscapedBeginBracket => Ok(spec_builder_push_str(b, "{"@)),
            FormatPartV::EscapedEndBracket => Ok(spec_builder_push_str(b, "}"@)),
            FormatPartV::Var(arg, _fs) => {
                let keys = crate::key::spec_path_of(arg);
                if ctx is Variant && keys.len() == 0 {
                    Ok(
                        spec_builder_push_str(
                            b,
                            crate::style::spec_style_apply(ctx->Variant_style, ctx->Variant_tag),
                        ),
                    )
                } else if keys.len() == 1 {
                    crate::builder::spec_push_field(b, keys[0], fspan, fuel)
                } else {
                    match spec_set_capture(b, ctx, keys, fspan) {
                        Ok((bc, name)) => Ok(
                            spec_builder_push_frag(bc, crate::prog::FragV::Cap(name)),
                        ),
                        Err(d) => Err(d),
                    }
                }
            },
        };
        match step {
            Err(_) => {},
            Ok(bmid) => {
                if parts[0] is Var {
                    let keys = crate::key::spec_path_of(parts[0]->Var_0);
                    if !(ctx is Variant && keys.len() == 0) {
                        if keys.len() == 1 {
                            lemma_push_field_preserves_entries(
                                b,
                                keys[0],
                                fspan,
                                fuel,
                                bmid,
                            );
                        } else {
                            lemma_set_capture_preserves_entries(b, ctx, keys, fspan);
                        }
                    }
                }
                lemma_push_format_preserves_entries(
                    bmid,
                    parts.skip(1),
                    fspan,
                    ctx,
                    fuel,
                    b2,
                );
            },
        }
    }
}

/// Union dispatch: declaration order decides, and every equality arm stands
/// before every regex arm. Whenever some variant's equality program is
/// exactly the input, the parse commits to the first such variant — even if
/// a later (or earlier) variant's regex could also match the input.
pub proof fn lemma_union_equality_wins(p: EnumParsePlanV, input: Seq<char>, i: int)
    requires
        spec_first_eq_arm(p.variants, input) == Some(i),
    ensures
        match spec_run_parse_enum(p, input) {
            Ok((j, _)) => j == i,
            Err(_) => true,
        },
{
}

/// The equality arm that wins is the first, in declaration order, whose
/// literal is the input; and a regex arm is consulted only when no equality
/// arm matched, again in declaration order.
pub proof fn lemma_union_dispatch_order(p: EnumParsePlanV, input: Seq<char>)
    ensures
        match spec_first_eq_arm(p.variants, input) {
            Some(i) => 0 <= i < p.variants.len() && (p.variants[i].plan.program matches
                MatchProgramV::Equality(lit) && lit == input) && (forall|j: int|
                0 <= j < i ==> !((#[trigger] p.variants[j].plan.program) matches
                    MatchProgramV::Equality(lit2) && lit2 == input)),
            None => forall|j: int|
                0 <= j < p.variants.len() ==> !((#[trigger] p.variants[j].plan.program) matches
                    MatchProgramV::Equality(lit2) && lit2 == input),
        },
    decreases p.variants.len(),
{
    lemma_first_eq_arm_order(p.variants, input);
}

proof fn lemma_first_eq_arm_order(vs: Seq<crate::plan::VariantPlanV>, input: Seq<char>)
    ensures
        match spec_first_eq_arm(vs, input) {
            Some(i) => 0 <= i < vs.len() && (vs[i].plan.program matches MatchProgramV::Equality(
                lit,
            ) && lit == input) && (forall|j: int|
                0 <= j < i ==> !((#[trigger] vs[j].plan.program) matches
                    MatchProgramV::Equality(lit2) && lit2 == input)),
            None => forall|j: int|
                0 <= j < vs.len() ==> !((#[trigger] vs[j].plan.program) matches
                    MatchProgramV::Equality(lit2) && lit2 == input),
        },
    decreases vs.len(),
{
    if vs.len() > 0 && !(vs[0].plan.program matches MatchProgramV::Equality(lit) && lit
        == input) {
        lemma_first_eq_arm_order(vs.skip(1), input);
        assert(forall|j: int| 1 <= j < vs.len() ==> vs[j] == vs.skip(1)[j - 1]);
    }
}

/// Bound inference follows the direction compiled: the parse-direction plan
/// obliges types to support parsing and nothing else. A generic field that
/// only ever stands in a capture position therefore needs no format
/// capability from the parse-direction plan alone.
pub proof fn lemma_parse_bounds_are_parse_only(data: StructSchemaV)
    ensures
        match spec_compile_from_str_struct(data) {
            Ok((_, wheres)) => forall|k: int|
                0 <= k < wheres.len() ==> ((#[trigger] wheres[k]) matches WherePredV::Obliged(
                    _ty,
                    cap,
                ) ==> cap == Capability::Parse),
            Err(_) => true,
        },
{
    match spec_compile_from_str_struct(data) {
        Ok((_plan, wheres)) => {
            assert forall|k: int|
                0 <= k < wheres.len() implies ((#[trigger] wheres[k]) matches
                WherePredV::Obliged(_ty, cap) ==> cap == Capability::Parse) by {
                let b = crate::plan::spec_build_bounds(
                    spec_from_struct_ok(data),
                    crate::bounds::spec_bounds_from_data(
                        crate::schema::spec_bound_from_str_resolved(data.hattrs),
                    ),
                );
                assert(wheres == crate::bounds::spec_build_wheres(b, Capability::Parse));
                if k < b.pred.len() {
                    assert(wheres[k] == WherePredV::Raw(b.pred[k]));
                } else {
                    assert(wheres[k] == WherePredV::Obliged(b.ty[k - b.pred.len()],
                        Capability::Parse));
                }
            }
        },
        Err(_) => {},
    }
}

/// The planner a record compiled through, on the success path.
pub open spec fn spec_from_struct_ok(data: StructSchemaV) -> BuilderV {
    match crate::plan::spec_from_struct(data) {
        Ok(b) => b,
        Err(_) => crate::builder::spec_builder_new(data.fields),
    }
}

/// Parsing inverts formatting, up to the regex engine: take a record plan in
/// the plain shape the round-trip law speaks of — every field filled from
/// its own capture slot, no deep slots, no defaults, no custom constructor —
/// and a record value whose fields are text. If the engine's captures hand
/// back exactly the fields' texts — which is what the synthesized anchored
/// regex asks of it when the texts avoid the pattern's literal separators —
/// then construction rebuilds exactly the value that was formatted.
pub proof fn lemma_parse_inverts_format(
    fields: Seq<FieldPlanV>,
    v: ValueV,
    caps: Seq<Option<Seq<char>>>,
)
    requires
        v is Record,
        v->Record_0.len() == fields.len(),
        forall|i: int|
            0 <= i < fields.len() ==> (#[trigger] fields[i]).source is FromCapture && fields[
                i
            ].deep.len() == 0,
        forall|i: int| 0 <= i < fields.len() ==> (#[trigger] v->Record_0[i]).0 == fields[i].key,
        forall|i: int| 0 <= i < fields.len() ==> (#[trigger] v->Record_0[i]).1 is Text,
        forall|i: int|
            0 <= i < fields.len() ==> spec_slot_text(
                caps,
                (#[trigger] fields[i]).source->FromCapture_0,
            ) == v->Record_0[i].1->Text_0,
    ensures
        spec_construct(
            ConstructPlanV { mode: ConstructModeV::Direct, fields },
            caps,
            None,
        ) == Ok::<ValueV, ParseFailure>(v),
{
    lemma_build_fields_exact(fields, v->Record_0, caps);
}

proof fn lemma_build_fields_exact(
    fields: Seq<FieldPlanV>,
    target: Seq<(KeyV, ValueV)>,
    caps: Seq<Option<Seq<char>>>,
)
    requires
        target.len() == fields.len(),
        forall|i: int|
            0 <= i < fields.len() ==> (#[trigger] fields[i]).source is FromCapture && fields[
                i
            ].deep.len() == 0,
        forall|i: int| 0 <= i < fields.len() ==> (#[trigger] target[i]).0 == fields[i].key,
        forall|i: int| 0 <= i < fields.len() ==> (#[trigger] target[i]).1 is Text,
        forall|i: int|
            0 <= i < fields.len() ==> spec_slot_text(
                caps,
                (#[trigger] fields[i]).source->FromCapture_0,
            ) == target[i].1->Text_0,
    ensures
        crate::interp::spec_build_fields(fields, caps, None) == Ok::<
            Seq<(KeyV, ValueV)>,
            ParseFailure,
        >(target),
    decreases fields.len(),
{
    if fields.len() == 0 {
        assert(target =~= Seq::<(KeyV, ValueV)>::empty());
    } else {
        assert(fields[0].deep =~= Seq::<DeepCaptureV>::empty());
        lemma_build_fields_exact(fields.skip(1), target.skip(1), caps);
        assert(forall|i: int|
            0 <= i < fields.skip(1).len() ==> fields.skip(1)[i] == fields[i + 1]);
        assert(forall|i: int|
            0 <= i < target.skip(1).len() ==> target.skip(1)[i] == target[i + 1]);
        let base = ValueV::Text(spec_slot_text(caps, fields[0].source->FromCapture_0));
        assert(base == target[0].1);
        assert(seq![(fields[0].key, base)] + target.skip(1) =~= target);
    }
}

} // verus!
