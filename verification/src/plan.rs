//! Parser plans: the artifact the parse-direction compiler hands to the
//! host. A plan holds one match program per record or variant and, with it,
//! the construction plan — which slot or default fills each field, and which
//! deep slots are written through setters after construction.

use vstd::prelude::*;
use crate::bounds::{Bounds, BoundsV, Capability, WherePred, WherePredV, spec_bounds_child,
    spec_bounds_from_data, spec_bounds_merge, spec_build_wheres};
use crate::builder::{
    BuilderV, ContextV, DeepCapture, DeepCaptureV, FieldEntryV, ParseContext, ParserBuilder,
    spec_apply_attrs, spec_builder_new, spec_push_attrs, spec_try_push_attrs,
};
use crate::diag::{DiagV, Diagnostic, DiagnosticKind, Span};
use crate::key::{FieldKey, KeyV, spec_key_text};
use crate::prog::{MatchProgram, MatchProgramV, spec_match_program};
use crate::schema::{
    EnumSchema, EnumSchemaV, HelperAttributesV, StructSchema, StructSchemaV, VariantSchema,
    VariantSchemaV, get_newtype_field, spec_bound_from_str_resolved, spec_newtype_field,
};
use crate::style::{DisplayStyle, spec_resolve_style};

verus! {

/// How a parsed value is put together: field by field, from a default value
/// that captures then override, or through a custom constructor expression
/// evaluated by the host over the materialized fields.
#[derive(Debug)]
pub enum ConstructMode {
    Direct,
    FromDefault,
    Custom(String),
}

/// The mathematical value of a construction mode.
pub enum ConstructModeV {
    Direct,
    FromDefault,
    Custom(Seq<char>),
}

impl View for ConstructMode {
    type V = ConstructModeV;

    open spec fn view(&self) -> ConstructModeV {
        match self {
            ConstructMode::Direct => ConstructModeV::Direct,
            ConstructMode::FromDefault => ConstructModeV::FromDefault,
            ConstructMode::Custom(e) => ConstructModeV::Custom(e@),
        }
    }
}

/// Where one field's value comes from at parse time.
#[derive(Debug, Clone, Copy, PartialEq, Eq, Structural)]
pub enum FieldSource {
    /// The text of a capture slot, converted by the field's own parser.
    FromCapture(usize),
    /// The field's default value.
    FromDefault,
    /// Nothing covers the field; allowed only under a whole-value default.
    Untouched,
}

/// One field's construction: its key, its source, and the deep slots written
/// into it after it exists.
#[derive(Debug)]
pub struct FieldPlan {
    pub key: FieldKey,
    pub source: FieldSource,
    pub deep: Vec<DeepCapture>,
}

/// The mathematical value of a field's construction.
pub struct FieldPlanV {
    pub key: KeyV,
    pub source: FieldSource,
    pub deep: Seq<DeepCaptureV>,
}

impl View for FieldPlan {
    type V = FieldPlanV;

    open spec fn view(&self) -> FieldPlanV {
        FieldPlanV { key: self.key@, source: self.source, deep: self.deep.deep_view() }
    }
}

impl DeepView for FieldPlan {
    type V = FieldPlanV;

    open spec fn deep_view(&self) -> FieldPlanV {
        self.view()
    }
}

/// The construction plan of one record or variant.
#[derive(Debug)]
pub struct ConstructPlan {
    pub mode: ConstructMode,
    pub fields: Vec<FieldPlan>,
}

/// The mathematical value of a construction plan.
pub struct ConstructPlanV {
    pub mode: ConstructModeV,
    pub fields: Seq<FieldPlanV>,
}

impl View for ConstructPlan {
    type V = ConstructPlanV;

    open spec fn view(&self) -> ConstructPlanV {
        ConstructPlanV { mode: self.mode@, fields: self.fields.deep_view() }
    }
}

/// The parse plan of a record: one match program, the construction plan, and
/// how many capture slots the program binds.
#[derive(Debug)]
pub struct StructParsePlan {
    pub program: MatchProgram,
    pub construct: ConstructPlan,
    pub capture_count: usize,
}

/// The mathematical value of a record's parse plan.
pub struct StructParsePlanV {
    pub program: MatchProgramV,
    pub construct: ConstructPlanV,
    pub capture_count: usize,
}

impl View for StructParsePlan {
    type V = StructParsePlanV;

    open spec fn view(&self) -> StructParsePlanV {
        StructParsePlanV {
            program: self.program@,
            construct: self.construct@,
            capture_count: self.capture_count,
        }
    }
}

/// The parse plan of one variant of a union.
#[derive(Debug)]
pub struct VariantPlan {
    pub tag: String,
    pub plan: StructParsePlan,
}

/// The mathematical value of a variant's parse plan.
pub struct VariantPlanV {
    pub tag: Seq<char>,
    pub plan: StructParsePlanV,
}

impl View for VariantPlan {
    type V = VariantPlanV;

    open spec fn view(&self) -> VariantPlanV {
        VariantPlanV { tag: self.tag@, plan: self.plan@ }
    }
}

impl DeepView for VariantPlan {
    type V = VariantPlanV;

    open spec fn deep_view(&self) -> VariantPlanV {
        self.view()
    }
}

/// The parse plan of a union: one plan per variant, in declaration order.
/// At parse time every equality arm is tried first, in declaration order,
/// then every regex arm, in declaration order.
#[derive(Debug)]
pub struct EnumParsePlan {
    pub variants: Vec<VariantPlan>,
}

/// The mathematical value of a union's parse plan.
pub struct EnumParsePlanV {
    pub variants: Seq<VariantPlanV>,
}

impl View for EnumParsePlan {
    type V = EnumParsePlanV;

    open spec fn view(&self) -> EnumParsePlanV {
        EnumParsePlanV { variants: self.variants.deep_view() }
    }
}

/// Where a field entry's value comes from: its slot, else its default, else
/// nothing.
pub open spec fn spec_field_source(e: FieldEntryV) -> FieldSource {
    match e.capture {
        Some(idx) => FieldSource::FromCapture(idx),
        None => {
            if e.use_default {
                FieldSource::FromDefault
            } else {
                FieldSource::Untouched
            }
        },
    }
}

/// The field plans of a builder's entries, in declaration order.
pub open spec fn spec_field_plans(fields: Seq<FieldEntryV>) -> Seq<FieldPlanV> {
    fields.map_values(
        |e: FieldEntryV| FieldPlanV {
            key: e.key,
            source: spec_field_source(e),
            deep: e.deep_captures,
        },
    )
}

/// The first field that nothing covers, if any.
pub open spec fn spec_first_uncovered(fields: Seq<FieldEntryV>) -> Option<int>
    decreases fields.len(),
{
    if fields.len() == 0 {
        None
    } else if spec_field_source(fields[0]) is Untouched {
        Some(0)
    } else {
        match spec_first_uncovered(fields.skip(1)) {
            Some(i) => Some(i + 1),
            None => None,
        }
    }
}

/// The diagnostic for a field with neither capture, sub-pattern, nor default.
pub open spec fn spec_not_covered_diag(span: Span, k: KeyV) -> DiagV {
    DiagV { span, kind: DiagnosticKind::FieldNotCovered, detail: spec_key_text(k) }
}

/// The construction plan a finished builder yields. Unless a whole-value
/// default fills the gaps, every field must be covered by a capture or its
/// own default.
pub open spec fn spec_build_construct(b: BuilderV) -> Result<ConstructPlanV, DiagV> {
    let mode = match b.new_expr {
        Some(e) => ConstructModeV::Custom(e),
        None => {
            if b.use_default {
                ConstructModeV::FromDefault
            } else {
                ConstructModeV::Direct
            }
        },
    };
    if !(mode is FromDefault) && spec_first_uncovered(b.fields) is Some {
        Err(
            spec_not_covered_diag(
                b.span,
                b.fields[spec_first_uncovered(b.fields).unwrap()].key,
            ),
        )
    } else {
        Ok(ConstructPlanV { mode, fields: spec_field_plans(b.fields) })
    }
}

/// The whole parse plan of a finished builder.
pub open spec fn spec_build_parse_plan(b: BuilderV) -> Result<StructParsePlanV, DiagV> {
    match spec_build_construct(b) {
        Err(d) => Err(d),
        Ok(c) => Ok(
            StructParsePlanV {
                program: spec_match_program(b.parse_format),
                construct: c,
                capture_count: if b.capture_next == 0 {
                    0
                } else {
                    (b.capture_next - 1) as usize
                },
            },
        ),
    }
}

/// The parse-direction bound set after walking every field: each field opens
/// a child scope under its own explicit list; a captured field whose type
/// mentions a generic parameter obliges that type, and the child's findings
/// merge back while the parent extends.
pub open spec fn spec_build_bounds_fields(fields: Seq<FieldEntryV>, bounds: BoundsV) -> BoundsV
    decreases fields.len(),
{
    if fields.len() == 0 {
        bounds
    } else {
        let f = fields[0];
        let child = spec_bounds_child(bounds, spec_bound_from_str_resolved(f.hattrs));
        let child2 = if child.can_extend && f.capture is Some && f.ty.mentions_generics {
            BoundsV { ty: child.ty.push(f.ty.text), ..child }
        } else {
            child
        };
        spec_build_bounds_fields(fields.skip(1), spec_bounds_merge(bounds, child2))
    }
}

/// Bound inference over a finished builder: nothing is added to a scope that
/// no longer extends.
pub open spec fn spec_build_bounds(b: BuilderV, bounds: BoundsV) -> BoundsV {
    if !bounds.can_extend {
        bounds
    } else {
        spec_build_bounds_fields(b.fields, bounds)
    }
}

/// The fuel that bounds every chain of directive expansions: one per field,
/// and two for the type-level scope — enough for every non-circular chain.
pub open spec fn spec_fuel(n_fields: int) -> nat {
    if n_fields + 2 <= usize::MAX {
        (n_fields + 2) as nat
    } else {
        usize::MAX as nat
    }
}

/// The planner a record compiles through.
pub open spec fn spec_from_struct(data: StructSchemaV) -> Result<BuilderV, DiagV> {
    let b = BuilderV { new_expr: data.hattrs.new_expr, ..spec_builder_new(data.fields) };
    match spec_apply_attrs(b, data.hattrs) {
        Err(d) => Err(d),
        Ok(b1) => spec_push_attrs(
            b1,
            data.hattrs,
            ContextV::Struct { newtype: spec_newtype_field(data.fields), span: data.span },
            spec_fuel(data.fields.len() as int),
        ),
    }
}

/// The planner a variant compiles through: the union's directives apply
/// first, then the variant's; the variant's own pattern or regex wins, else
/// the union's, else the default.
pub open spec fn spec_from_variant(
    variant: VariantSchemaV,
    enum_hattrs: HelperAttributesV,
) -> Result<BuilderV, DiagV> {
    let b = BuilderV { new_expr: variant.hattrs.new_expr, ..spec_builder_new(variant.fields) };
    let ctx = ContextV::Variant {
        tag: variant.ident,
        style: spec_resolve_style(variant.hattrs.style, enum_hattrs.style),
        is_unit: variant.fields.len() == 0,
        span: variant.span,
    };
    let fuel = spec_fuel(variant.fields.len() as int);
    match spec_apply_attrs(b, enum_hattrs) {
        Err(d) => Err(d),
        Ok(b1) => match spec_apply_attrs(b1, variant.hattrs) {
            Err(d) => Err(d),
            Ok(b2) => match spec_try_push_attrs(b2, variant.hattrs, ctx, fuel) {
                Err(d) => Err(d),
                Ok((true, b3)) => Ok(b3),
                Ok((false, _)) => spec_push_attrs(b2, enum_hattrs, ctx, fuel),
            },
        },
    }
}

impl ParserBuilder {
    /// Sets up and walks a record's pattern.
    pub fn from_struct(data: &StructSchema) -> (r: Result<ParserBuilder, Diagnostic>)
        ensures
            match spec_from_struct(data@) {
                Ok(b) => r matches Ok(p) && p@ == b,
                Err(d) => r matches Err(e) && e@ == d,
            },
    {
        let mut s = ParserBuilder::new(&data.fields);
        s.new_expr = match &data.hattrs.new_expr {
            Some(e) => Some(e.clone()),
            None => None,
        };
        let context = ParseContext::Struct {
            newtype: get_newtype_field(data),
            span: data.span,
        };
        proof {
            assert(context@ == (ContextV::Struct {
                newtype: spec_newtype_field(data@.fields),
                span: data@.span,
            }));
        }
        match s.apply_attrs(&data.hattrs) {
            Ok(()) => {},
            Err(e) => {
                return Err(e);
            },
        }
        let fuel = usize_fuel(data.fields.len());
        match s.push_attrs(&data.hattrs, &context, fuel) {
            Ok(()) => Ok(s),
            Err(e) => Err(e),
        }
    }

    /// Sets up and walks one variant's pattern.
    pub fn from_variant(
        variant: &VariantSchema,
        enum_hattrs: &crate::schema::HelperAttributes,
    ) -> (r: Result<ParserBuilder, Diagnostic>)
        ensures
            match spec_from_variant(variant@, enum_hattrs@) {
                Ok(b) => r matches Ok(p) && p@ == b,
                Err(d) => r matches Err(e) && e@ == d,
            },
    {
        let mut s = ParserBuilder::new(&variant.fields);
        s.new_expr = match &variant.hattrs.new_expr {
            Some(e) => Some(e.clone()),
            None => None,
        };
        let style = DisplayStyle::resolve(variant.hattrs.style, enum_hattrs.style);
        let context = ParseContext::Variant {
            tag: variant.ident.clone(),
            style,
            is_unit: variant.fields.len() == 0,
            span: variant.span,
        };
        let fuel = usize_fuel(variant.fields.len());
        match s.apply_attrs(enum_hattrs) {
            Ok(()) => {},
            Err(e) => {
                return Err(e);
            },
        }
        match s.apply_attrs(&variant.hattrs) {
            Ok(()) => {},
            Err(e) => {
                return Err(e);
            },
        }
        let handled = match s.try_push_attrs(&variant.hattrs, &context, fuel) {
            Ok(h) => h,
            Err(e) => {
                return Err(e);
            },
        };
        if !handled {
            match s.push_attrs(enum_hattrs, &context, fuel) {
                Ok(()) => {},
                Err(e) => {
                    return Err(e);
                },
            }
        }
        Ok(s)
    }

    /// The construction plan of the walked pattern.
    pub fn build_construct(&self) -> (r: Result<ConstructPlan, Diagnostic>)
        ensures
            match spec_build_construct(self@) {
                Ok(c) => r matches Ok(p) && p@ == c,
                Err(d) => r matches Err(e) && e@ == d,
            },
    {
        let mode = match &self.new_expr {
            Some(e) => ConstructMode::Custom(e.clone()),
            None => {
                if self.use_default {
                    ConstructMode::FromDefault
                } else {
                    ConstructMode::Direct
                }
            },
        };
        let from_default = matches!(mode, ConstructMode::FromDefault);
        let mut fields: Vec<FieldPlan> = Vec::new();
        let mut i: usize = 0;
        proof {
            crate::lemma_vec_deep_view_is(self.fields);
            lemma_first_uncovered_char(self@.fields);
        }
        while i < self.fields.len()
            invariant
                i <= self.fields@.len(),
                self@.fields.len() == self.fields@.len(),
                forall|k: int|
                    0 <= k < self.fields@.len() ==> #[trigger] self@.fields[k] == self.fields@[
                        k
                    ].deep_view(),
                from_default == (self@.new_expr is None && self@.use_default),
                from_default || (forall|k: int|
                    0 <= k < i ==> !(spec_field_source(#[trigger] self@.fields[k]) is Untouched)),
                fields@.len() == i,
                forall|k: int|
                    0 <= k < i ==> (#[trigger] fields@[k])@ == spec_field_plans(
                        self@.fields,
                    )[k],
            decreases self.fields@.len() - i,
        {
            let e = &self.fields[i];
            let source = match e.capture {
                Some(idx) => FieldSource::FromCapture(idx),
                None => {
                    if e.use_default {
                        FieldSource::FromDefault
                    } else {
                        FieldSource::Untouched
                    }
                },
            };
            if !from_default && matches!(source, FieldSource::Untouched) {
                proof {
                    lemma_first_uncovered_char(self@.fields);
                    assert(spec_field_source(self@.fields[i as int]) is Untouched);
                    let fi = spec_first_uncovered(self@.fields).unwrap();
                    assert(fi == i);
                }
                return Err(
                    Diagnostic::new(
                        self.span,
                        DiagnosticKind::FieldNotCovered,
                        e.key.to_text(),
                    ),
                );
            }
            let fp = FieldPlan {
                key: e.key.clone(),
                source,
                deep: clone_deep(&e.deep_captures),
            };
            proof {
                assert(fp@ == spec_field_plans(self@.fields)[i as int]);
            }
            fields.push(fp);
            i += 1;
        }
        proof {
            if !from_default {
                lemma_first_uncovered_char(self@.fields);
            }
            crate::lemma_vec_deep_view_is(fields);
            assert(fields.deep_view() =~= spec_field_plans(self@.fields));
        }
        Ok(ConstructPlan { mode, fields })
    }

    /// The whole parse plan: the match program and the construction plan.
    pub fn build_parse_plan(self) -> (r: Result<StructParsePlan, Diagnostic>)
        ensures
            match spec_build_parse_plan(self@) {
                Ok(p) => r matches Ok(q) && q@ == p,
                Err(d) => r matches Err(e) && e@ == d,
            },
    {
        let construct = match self.build_construct() {
            Ok(c) => c,
            Err(e) => {
                return Err(e);
            },
        };
        let capture_count = if self.capture_next == 0 {
            0
        } else {
            self.capture_next - 1
        };
        let program = MatchProgram::from_parse_format(self.parse_format);
        Ok(StructParsePlan { program, construct, capture_count })
    }

    /// Adds the parse-direction obligations of every captured generic field.
    pub fn build_bounds(&self, bounds: &mut Bounds)
        ensures
            final(bounds)@ == spec_build_bounds(self@, old(bounds)@),
    {
        if !bounds.can_extend {
            return;
        }
        let ghost bounds0 = bounds@;
        let mut i: usize = 0;
        proof {
            crate::lemma_vec_deep_view_is(self.fields);
            assert(self@.fields.skip(0) =~= self@.fields);
        }
        while i < self.fields.len()
            invariant
                i <= self.fields@.len(),
                self@.fields.len() == self.fields@.len(),
                forall|k: int|
                    0 <= k < self.fields@.len() ==> #[trigger] self@.fields[k] == self.fields@[
                        k
                    ].deep_view(),
                spec_build_bounds_fields(self@.fields.skip(i as int), bounds@)
                    == spec_build_bounds_fields(self@.fields, bounds0),
            decreases self.fields@.len() - i,
        {
            proof {
                assert(self@.fields.skip(i as int)[0] == self@.fields[i as int]);
                assert(self@.fields.skip(i as int).skip(1) =~= self@.fields.skip(i + 1 as int));
            }
            let e = &self.fields[i];
            let mut child = bounds.child(e.hattrs.bound_from_str_resolved());
            if child.can_extend && e.capture.is_some() && e.ty.mentions_generics {
                let ghost typrev = child.ty;
                let t = e.ty.text.clone();
                let ghost tg = t;
                child.ty.push(t);
                proof {
                    crate::lemma_vec_push_deep_view(child.ty, typrev, tg);
                }
            }
            bounds.merge_child(child);
            i += 1;
        }
        proof {
            assert(self@.fields.skip(self@.fields.len() as int) =~= Seq::<FieldEntryV>::empty());
        }
    }
}

/// The diagnostic for a whole-value default on a union, which is disallowed.
pub open spec fn spec_default_on_union_diag(span: Span) -> DiagV {
    DiagV {
        span,
        kind: DiagnosticKind::ConflictingDirective,
        detail: "whole-value default on a union"@,
    }
}

/// The parse-direction compilation of a record: the planner's parse plan,
/// and the where-clause its bound set builds under the parse capability.
pub open spec fn spec_compile_from_str_struct(data: StructSchemaV) -> Result<
    (StructParsePlanV, Seq<WherePredV>),
    DiagV,
> {
    match spec_from_struct(data) {
        Err(d) => Err(d),
        Ok(b) => match spec_build_parse_plan(b) {
            Err(d) => Err(d),
            Ok(plan) => Ok(
                (
                    plan,
                    spec_build_wheres(
                        spec_build_bounds(
                            b,
                            spec_bounds_from_data(spec_bound_from_str_resolved(data.hattrs)),
                        ),
                        Capability::Parse,
                    ),
                ),
            ),
        },
    }
}

/// The arms of a union's parse plan, variant by variant in declaration
/// order, threading the union's bound accumulator through each variant's
/// child scope.
pub open spec fn spec_enum_arms(
    variants: Seq<VariantSchemaV>,
    enum_hattrs: HelperAttributesV,
    bounds: BoundsV,
) -> Result<(Seq<VariantPlanV>, BoundsV), DiagV>
    decreases variants.len(),
{
    if variants.len() == 0 {
        Ok((Seq::empty(), bounds))
    } else {
        let v0 = variants[0];
        match spec_from_variant(v0, enum_hattrs) {
            Err(d) => Err(d),
            Ok(b) => {
                let child = spec_bounds_child(
                    bounds,
                    spec_bound_from_str_resolved(v0.hattrs),
                );
                let bounds2 = spec_bounds_merge(bounds, spec_build_bounds(b, child));
                match spec_build_parse_plan(b) {
                    Err(d) => Err(d),
                    Ok(plan) => match spec_enum_arms(variants.skip(1), enum_hattrs, bounds2) {
                        Err(d) => Err(d),
                        Ok((plans, bf)) => Ok(
                            (seq![VariantPlanV { tag: v0.ident, plan }] + plans, bf),
                        ),
                    },
                }
            },
        }
    }
}

/// The parse-direction compilation of a union: a whole-value default is
/// rejected; otherwise one plan per variant in declaration order, and the
/// collected where-clause under the parse capability.
pub open spec fn spec_compile_from_str_enum(data: EnumSchemaV) -> Result<
    (EnumParsePlanV, Seq<WherePredV>),
    DiagV,
> {
    match data.hattrs.default_self {
        Some(sp) => Err(spec_default_on_union_diag(sp)),
        None => {
            let bounds0 = spec_bounds_from_data(spec_bound_from_str_resolved(data.hattrs));
            match spec_enum_arms(data.variants, data.hattrs, bounds0) {
                Err(d) => Err(d),
                Ok((plans, bf)) => Ok(
                    (
                        EnumParsePlanV { variants: plans },
                        spec_build_wheres(bf, Capability::Parse),
                    ),
                ),
            }
        },
    }
}

/// Compiles the parse direction of a record schema.
pub fn compile_from_str_struct(data: &StructSchema) -> (r: Result<
    (StructParsePlan, Vec<WherePred>),
    Diagnostic,
>)
    ensures
        match spec_compile_from_str_struct(data@) {
            Ok((plan, wheres)) => r matches Ok(p) && p.0@ == plan && p.1.deep_view() == wheres,
            Err(d) => r matches Err(e) && e@ == d,
        },
{
    let p = match ParserBuilder::from_struct(data) {
        Ok(p) => p,
        Err(e) => {
            return Err(e);
        },
    };
    let mut bounds = Bounds::from_data(data.hattrs.bound_from_str_resolved());
    p.build_bounds(&mut bounds);
    let wheres = bounds.build_wheres(Capability::Parse);
    let plan = match p.build_parse_plan() {
        Ok(plan) => plan,
        Err(e) => {
            return Err(e);
        },
    };
    Ok((plan, wheres))
}

/// Compiles the parse direction of a union schema.
#[verifier::rlimit(100)]
#[verifier::spinoff_prover]
pub fn compile_from_str_enum(data: &EnumSchema) -> (r: Result<
    (EnumParsePlan, Vec<WherePred>),
    Diagnostic,
>)
    ensures
        match spec_compile_from_str_enum(data@) {
            Ok((plan, wheres)) => r matches Ok(p) && p.0@ == plan && p.1.deep_view() == wheres,
            Err(d) => r matches Err(e) && e@ == d,
        },
{
    if let Some(sp) = data.hattrs.default_self {
        let mut detail = String::new();
        detail.append("whole-value default on a union");
        return Err(Diagnostic::new(sp, DiagnosticKind::ConflictingDirective, detail));
    }
    let mut bounds = Bounds::from_data(data.hattrs.bound_from_str_resolved());
    let ghost enum_h = data.hattrs@;
    let ghost variantsm = data.variants.deep_view();
    let mut plans: Vec<VariantPlan> = Vec::new();
    let mut i: usize = 0;
    proof {
        crate::lemma_vec_deep_view_is(data.variants);
        assert(variantsm.skip(0) =~= variantsm);
    }
    while i < data.variants.len()
        invariant
            i <= data.variants@.len(),
            data.hattrs@.default_self is None,
            enum_h == data.hattrs@,
            variantsm == data.variants.deep_view(),
            variantsm.len() == data.variants@.len(),
            forall|k: int|
                0 <= k < data.variants@.len() ==> #[trigger] variantsm[k] == data.variants@[
                    k
                ].deep_view(),
            spec_enum_arms(variantsm, enum_h, spec_bounds_from_data(
                spec_bound_from_str_resolved(enum_h),
            )) == (match spec_enum_arms(variantsm.skip(i as int), enum_h, bounds@) {
                Err(d) => Err(d),
                Ok((rest, bf)) => Ok(
                    (plans.deep_view() + rest, bf),
                ),
            }),
        decreases data.variants@.len() - i,
    {
        proof {
            assert(variantsm.skip(i as int)[0] == variantsm[i as int]);
            assert(variantsm.skip(i as int).skip(1) =~= variantsm.skip(i + 1 as int));
        }
        let ghost bprev = bounds@;
        let ghost plansprev = plans;
        let variant = &data.variants[i];
        let p = match ParserBuilder::from_variant(variant, &data.hattrs) {
            Ok(p) => p,
            Err(e) => {
                return Err(e);
            },
        };
        let mut child = bounds.child(variant.hattrs.bound_from_str_resolved());
        p.build_bounds(&mut child);
        bounds.merge_child(child);
        let plan = match p.build_parse_plan() {
            Ok(plan) => plan,
            Err(e) => {
                return Err(e);
            },
        };
        let vp = VariantPlan { tag: variant.ident.clone(), plan };
        let ghost vpg = vp;
        plans.push(vp);
        proof {
            crate::lemma_vec_push_deep_view(plans, plansprev, vpg);
            assert(plans.deep_view() =~= plansprev.deep_view() + seq![vpg@]);
            assert(vpg@ == (VariantPlanV { tag: variantsm[i as int].ident, plan: plan@ }));
            let step = spec_enum_arms(variantsm.skip(i + 1 as int), enum_h, bounds@);
            assert(spec_enum_arms(variantsm.skip(i as int), enum_h, bprev) == (match step {
                Err(d) => Err(d),
                Ok((rest, bf)) => Ok(((seq![vpg@] + rest), bf)),
            }));
            match step {
                Ok((rest, bf)) => {
                    assert(plansprev.deep_view() + (seq![vpg@] + rest) =~= plans.deep_view()
                        + rest);
                },
                Err(_) => {},
            }
        }
        i += 1;
    }
    proof {
        assert(variantsm.skip(variantsm.len() as int) =~= Seq::<VariantSchemaV>::empty());
        assert(plans.deep_view() + Seq::<VariantPlanV>::empty() =~= plans.deep_view());
    }
    let wheres = bounds.build_wheres(Capability::Parse);
    Ok((EnumParsePlan { variants: plans }, wheres))
}

/// What the first-uncovered search means, position by position.
proof fn lemma_first_uncovered_char(fields: Seq<FieldEntryV>)
    ensures
        match spec_first_uncovered(fields) {
            Some(i) => 0 <= i < fields.len() && spec_field_source(fields[i]) is Untouched && (
            forall|j: int| 0 <= j < i ==> !(spec_field_source(fields[j]) is Untouched)),
            None => forall|j: int|
                0 <= j < fields.len() ==> !(spec_field_source(fields[j]) is Untouched),
        },
    decreases fields.len(),
{
    if fields.len() > 0 && !(spec_field_source(fields[0]) is Untouched) {
        lemma_first_uncovered_char(fields.skip(1));
        assert(forall|j: int| 1 <= j < fields.len() ==> fields[j] == fields.skip(1)[j - 1]);
    }
}

/// Copies a deep-capture list, keeping its value.
fn clone_deep(v: &Vec<DeepCapture>) -> (r: Vec<DeepCapture>)
    ensures
        r.deep_view() == v.deep_view(),
{
    let mut r: Vec<DeepCapture> = Vec::new();
    let mut i: usize = 0;
    while i < v.len()
        invariant
            i <= v@.len(),
            r@.len() == i,
            forall|k: int| 0 <= k < i ==> (#[trigger] r@[k])@ == v@[k]@,
        decreases v@.len() - i,
    {
        let d = &v[i];
        let c = DeepCapture { path: crate::schema::clone_keys(&d.path), slot: d.slot };
        proof {
            assert(c@ == v@[i as int]@);
        }
        r.push(c);
        i += 1;
    }
    proof {
        crate::lemma_vec_deep_view_is(r);
        crate::lemma_vec_deep_view_is(*v);
        assert(r.deep_view() =~= v.deep_view());
    }
    r
}

/// The fuel for a schema with this many fields.
fn usize_fuel(n: usize) -> (r: usize)
    ensures
        r as nat == spec_fuel(n as int),
{
    if n > usize::MAX - 2 {
        usize::MAX
    } else {
        n + 2
    }
}

} // verus!
