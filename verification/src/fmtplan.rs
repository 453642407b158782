//! Formatter plans: the display-direction artifact. A compiled pattern
//! becomes an ordered list of literal runs and value references ready to
//! hand to a textual writer; a field with its own directive pattern is
//! expanded in place. Alongside the steps, bound inference collects the
//! format-capability obligations of every generic field the plan renders.

use vstd::prelude::*;
use crate::bounds::{Bounds, BoundsV, Capability, WherePred, WherePredV, spec_bounds_child,
    spec_bounds_from_data, spec_bounds_merge, spec_build_wheres};
use crate::diag::{DiagV, Diagnostic, DiagnosticKind, Span};
use crate::format::{DisplayFormat, DisplayFormatPart, FormatPartV};
use crate::key::{FieldKey, KeyV, spec_path_of};
use crate::schema::{
    EnumSchema, EnumSchemaV, FieldDecl, FieldDeclV, HelperAttributes, HelperAttributesV,
    StructSchema, StructSchemaV, TypeInfo, TypeInfoV, VariantSchema, VariantSchemaV,
    get_newtype_field, spec_newtype_field,
};
use crate::style::{DisplayStyle, spec_resolve_style, spec_style_apply};
use crate::builder::{spec_missing_format_diag, spec_unknown_field_diag};

verus! {

/// One step of a formatter plan: literal text, or the value at a field path
/// rendered under a format spec.
#[derive(Debug)]
pub enum FormatStep {
    Lit(String),
    Value { path: Vec<FieldKey>, fspec: String },
}

/// The mathematical value of a formatter step.
pub enum FormatStepV {
    Lit(Seq<char>),
    Value { path: Seq<KeyV>, fspec: Seq<char> },
}

impl View for FormatStep {
    type V = FormatStepV;

    open spec fn view(&self) -> FormatStepV {
        match self {
            FormatStep::Lit(s) => FormatStepV::Lit(s@),
            FormatStep::Value { path, fspec } => FormatStepV::Value {
                path: path.deep_view(),
                fspec: fspec@,
            },
        }
    }
}

impl DeepView for FormatStep {
    type V = FormatStepV;

    open spec fn deep_view(&self) -> FormatStepV {
        self.view()
    }
}

/// A formatter plan: the steps, in rendering order.
#[derive(Debug)]
pub struct FormatPlan {
    pub steps: Vec<FormatStep>,
}

/// The mathematical value of a formatter plan.
pub struct FormatPlanV {
    pub steps: Seq<FormatStepV>,
}

impl View for FormatPlan {
    type V = FormatPlanV;

    open spec fn view(&self) -> FormatPlanV {
        FormatPlanV { steps: self.steps.deep_view() }
    }
}

/// The formatter plan of one variant of a union.
#[derive(Debug)]
pub struct VariantFormatPlan {
    pub tag: String,
    pub plan: FormatPlan,
}

/// The mathematical value of a variant's formatter plan.
pub struct VariantFormatPlanV {
    pub tag: Seq<char>,
    pub plan: FormatPlanV,
}

impl View for VariantFormatPlan {
    type V = VariantFormatPlanV;

    open spec fn view(&self) -> VariantFormatPlanV {
        VariantFormatPlanV { tag: self.tag@, plan: self.plan@ }
    }
}

impl DeepView for VariantFormatPlan {
    type V = VariantFormatPlanV;

    open spec fn deep_view(&self) -> VariantFormatPlanV {
        self.view()
    }
}

/// The root a pattern renders under: the record itself, or one variant.
#[derive(Debug)]
pub enum FmtRoot {
    Struct { span: Span },
    Variant { tag: String, style: DisplayStyle, span: Span },
}

/// The mathematical value of a root.
pub enum FmtRootV {
    Struct { span: Span },
    Variant { tag: Seq<char>, style: DisplayStyle, span: Span },
}

impl View for FmtRoot {
    type V = FmtRootV;

    open spec fn view(&self) -> FmtRootV {
        match self {
            FmtRoot::Struct { span } => FmtRootV::Struct { span: *span },
            FmtRoot::Variant { tag, style, span } => FmtRootV::Variant {
                tag: tag@,
                style: *style,
                span: *span,
            },
        }
    }
}

/// The field chain a nested pattern renders inside: the path from the root
/// value to the field whose directive pattern is being expanded, and that
/// field's type.
pub struct ChainV {
    pub path: Seq<KeyV>,
    pub ty: TypeInfoV,
}

/// The first declared field with the given key.
pub open spec fn spec_find_decl(fields: Seq<FieldDeclV>, k: KeyV) -> Option<int>
    decreases fields.len(),
{
    if fields.len() == 0 {
        None
    } else if fields[0].key == k {
        Some(0)
    } else {
        match spec_find_decl(fields.skip(1), k) {
            Some(i) => Some(i + 1),
            None => None,
        }
    }
}

/// What the first-match search over declarations means.
pub proof fn lemma_find_decl_char(fields: Seq<FieldDeclV>, k: KeyV)
    ensures
        match spec_find_decl(fields, k) {
            Some(i) => 0 <= i < fields.len() && fields[i].key == k && (forall|j: int|
                0 <= j < i ==> fields[j].key != k),
            None => forall|j: int| 0 <= j < fields.len() ==> fields[j].key != k,
        },
    decreases fields.len(),
{
    if fields.len() > 0 && fields[0].key != k {
        lemma_find_decl_char(fields.skip(1), k);
        assert(forall|j: int| 1 <= j < fields.len() ==> fields[j] == fields.skip(1)[j - 1]);
    }
}

/// The diagnostic for a whole-value reference in a record pattern, which has
/// no value to name.
pub open spec fn spec_self_in_struct_diag(span: Span) -> DiagV {
    DiagV {
        span,
        kind: DiagnosticKind::MalformedPattern,
        detail: "whole-value reference in a record pattern"@,
    }
}

/// A reference to the chain's own field: the format-capability obligation if
/// its type mentions a generic parameter, and a value step at the chain.
pub open spec fn spec_arg_by_expr(
    path: Seq<KeyV>,
    ty: TypeInfoV,
    fspec: Seq<char>,
    bounds: BoundsV,
) -> (Seq<FormatStepV>, BoundsV) {
    let b2 = if ty.mentions_generics && bounds.can_extend {
        BoundsV { ty: bounds.ty.push(ty.text), ..bounds }
    } else {
        bounds
    };
    (seq![FormatStepV::Value { path, fspec }], b2)
}

/// The steps and bound effect of one variable reference, in the walk's
/// context: a whole-value reference is the variant tag at a variant root, the
/// chain's field inside a field expansion, and an error in a record pattern;
/// a one-key reference at the root expands the field's own pattern or
/// renders the field; anything else renders the addressed value as written,
/// trusted to be reachable.
pub open spec fn spec_format_arg(
    arg: Seq<char>,
    fspec: Seq<char>,
    fspan: Span,
    root: FmtRootV,
    chain: Option<ChainV>,
    fields: Seq<FieldDeclV>,
    bounds: BoundsV,
) -> Result<(Seq<FormatStepV>, BoundsV), DiagV>
    decreases (if chain is None { 1int } else { 0int }), 0int, 0int,
{
    let keys = spec_path_of(arg);
    if keys.len() == 0 {
        match chain {
            Some(c) => Ok(spec_arg_by_expr(c.path, c.ty, fspec, bounds)),
            None => match root {
                FmtRootV::Struct { .. } => Err(spec_self_in_struct_diag(fspan)),
                FmtRootV::Variant { tag, style, .. } => Ok(
                    (seq![FormatStepV::Lit(spec_style_apply(style, tag))], bounds),
                ),
            },
        }
    } else if keys.len() == 1 && chain is None {
        match spec_find_decl(fields, keys[0]) {
            None => Err(spec_unknown_field_diag(fspan, keys[0])),
            Some(i) => {
                let f = fields[i];
                let child = spec_bounds_child(bounds, f.hattrs.bound_display);
                match f.hattrs.format {
                    Some(fmt) => {
                        match spec_format_steps(
                            fmt.parts,
                            fmt.span,
                            root,
                            Some(ChainV { path: seq![keys[0]], ty: f.ty }),
                            fields,
                            child,
                            Seq::empty(),
                        ) {
                            Err(d) => Err(d),
                            Ok((steps, child2)) => Ok(
                                (steps, spec_bounds_merge(bounds, child2)),
                            ),
                        }
                    },
                    None => {
                        let (steps, child2) = spec_arg_by_expr(
                            seq![keys[0]],
                            f.ty,
                            fspec,
                            child,
                        );
                        Ok((steps, spec_bounds_merge(bounds, child2)))
                    },
                }
            },
        }
    } else {
        let base: Seq<KeyV> = match chain {
            Some(c) => c.path,
            None => Seq::empty(),
        };
        Ok((seq![FormatStepV::Value { path: base + keys, fspec }], bounds))
    }
}

/// The steps and bound effect of a pattern's parts, walked in order.
pub open spec fn spec_format_steps(
    parts: Seq<FormatPartV>,
    fspan: Span,
    root: FmtRootV,
    chain: Option<ChainV>,
    fields: Seq<FieldDeclV>,
    bounds: BoundsV,
    steps: Seq<FormatStepV>,
) -> Result<(Seq<FormatStepV>, BoundsV), DiagV>
    decreases (if chain is None { 1int } else { 0int }), 1int, parts.len(),
{
    if parts.len() == 0 {
        Ok((steps, bounds))
    } else {
        let step: Result<(Seq<FormatStepV>, BoundsV), DiagV> = match parts[0] {
            FormatPartV::Str(s) => Ok((seq![FormatStepV::Lit(s)], bounds)),
            FormatPartV::EscapedBeginBracket => Ok((seq![FormatStepV::Lit("{"@)], bounds)),
            FormatPartV::EscapedEndBracket => Ok((seq![FormatStepV::Lit("}"@)], bounds)),
            FormatPartV::Var(arg, fs) => spec_format_arg(
                arg,
                fs,
                fspan,
                root,
                chain,
                fields,
                bounds,
            ),
        };
        match step {
            Err(d) => Err(d),
            Ok((new_steps, b2)) => spec_format_steps(
                parts.skip(1),
                fspan,
                root,
                chain,
                fields,
                b2,
                steps + new_steps,
            ),
        }
    }
}

/// The walk only appends: its result over any accumulator is the
/// accumulator followed by its result over the empty one.
pub proof fn lemma_steps_acc(
    parts: Seq<FormatPartV>,
    fspan: Span,
    root: FmtRootV,
    chain: Option<ChainV>,
    fields: Seq<FieldDeclV>,
    bounds: BoundsV,
    steps: Seq<FormatStepV>,
)
    ensures
        spec_format_steps(parts, fspan, root, chain, fields, bounds, steps) == (
        match spec_format_steps(parts, fspan, root, chain, fields, bounds, Seq::empty()) {
            Ok((s, b)) => Ok::<(Seq<FormatStepV>, BoundsV), DiagV>((steps + s, b)),
            Err(d) => Err(d),
        }),
    decreases parts.len(),
{
    if parts.len() == 0 {
        assert(steps + Seq::<FormatStepV>::empty() =~= steps);
    } else {
        let step: Result<(Seq<FormatStepV>, BoundsV), DiagV> = match parts[0] {
            FormatPartV::Str(s) => Ok((seq![FormatStepV::Lit(s)], bounds)),
            FormatPartV::EscapedBeginBracket => Ok((seq![FormatStepV::Lit("{"@)], bounds)),
            FormatPartV::EscapedEndBracket => Ok((seq![FormatStepV::Lit("}"@)], bounds)),
            FormatPartV::Var(arg, fs) => spec_format_arg(
                arg,
                fs,
                fspan,
                root,
                chain,
                fields,
                bounds,
            ),
        };
        match step {
            Err(_) => {},
            Ok((ns, b2)) => {
                lemma_steps_acc(parts.skip(1), fspan, root, chain, fields, b2, steps + ns);
                lemma_steps_acc(
                    parts.skip(1),
                    fspan,
                    root,
                    chain,
                    fields,
                    b2,
                    Seq::<FormatStepV>::empty() + ns,
                );
                match spec_format_steps(
                    parts.skip(1),
                    fspan,
                    root,
                    chain,
                    fields,
                    b2,
                    Seq::<FormatStepV>::empty(),
                ) {
                    Ok((s, _b)) => {
                        assert((steps + ns) + s =~= steps + ((Seq::<FormatStepV>::empty() + ns)
                            + s));
                    },
                    Err(_) => {},
                }
            },
        }
    }
}

/// The field chain a nested pattern renders inside, as the walker holds it.
#[derive(Debug)]
pub struct FmtChain {
    pub path: Vec<FieldKey>,
    pub ty: TypeInfo,
}

/// The mathematical value of a chain option.
pub open spec fn spec_chain_view(chain: Option<&FmtChain>) -> Option<ChainV> {
    match chain {
        Some(c) => Some(ChainV { path: c.path.deep_view(), ty: c.ty@ }),
        None => None,
    }
}

/// Finds the first declared field with the given key.
fn decl_index_of(fields: &Vec<FieldDecl>, key: &FieldKey) -> (r: Option<usize>)
    ensures
        r matches Some(i) ==> i < fields@.len() && spec_find_decl(fields.deep_view(), key@)
            == Some(i as int),
        r is None ==> spec_find_decl(fields.deep_view(), key@) is None,
{
    proof {
        crate::lemma_vec_deep_view_is(*fields);
        lemma_find_decl_char(fields.deep_view(), key@);
    }
    let mut i: usize = 0;
    while i < fields.len()
        invariant
            i <= fields@.len(),
            fields.deep_view().len() == fields@.len(),
            forall|k: int|
                0 <= k < fields@.len() ==> #[trigger] fields.deep_view()[k] == fields@[
                    k
                ].deep_view(),
            forall|j: int| 0 <= j < i ==> fields.deep_view()[j].key != key@,
        decreases fields@.len() - i,
    {
        if &fields[i].key == key {
            proof {
                assert(fields.deep_view()[i as int].key == key@);
                lemma_find_decl_char(fields.deep_view(), key@);
            }
            return Some(i);
        }
        i += 1;
    }
    proof {
        lemma_find_decl_char(fields.deep_view(), key@);
    }
    None
}

/// Appends a value step at the chain's field, collecting its obligation.
fn push_arg_by_expr(
    path: Vec<FieldKey>,
    ty: &TypeInfo,
    fspec: String,
    steps: &mut Vec<FormatStep>,
    bounds: &mut Bounds,
)
    ensures
        ({
            let (s2, b2) = spec_arg_by_expr(path.deep_view(), ty@, fspec@, old(bounds)@);
            final(steps).deep_view() == old(steps).deep_view() + s2 && final(bounds)@ == b2
        }),
{
    if ty.mentions_generics && bounds.can_extend {
        let ghost typrev = bounds.ty;
        let t = ty.text.clone();
        let ghost tg = t;
        bounds.ty.push(t);
        proof {
            crate::lemma_vec_push_deep_view(bounds.ty, typrev, tg);
        }
    }
    let ghost sprev = *steps;
    let item = FormatStep::Value { path, fspec };
    let ghost itemg = item;
    steps.push(item);
    proof {
        crate::lemma_vec_push_deep_view(*steps, sprev, itemg);
        assert(steps.deep_view() =~= sprev.deep_view() + seq![itemg@]);
    }
}

/// Appends a literal step.
fn push_lit_step(text: String, steps: &mut Vec<FormatStep>)
    ensures
        final(steps).deep_view() == old(steps).deep_view() + seq![FormatStepV::Lit(text@)],
{
    let ghost sprev = *steps;
    let item = FormatStep::Lit(text);
    let ghost itemg = item;
    steps.push(item);
    proof {
        crate::lemma_vec_push_deep_view(*steps, sprev, itemg);
        assert(steps.deep_view() =~= sprev.deep_view() + seq![itemg@]);
    }
}

/// Walks a pattern's parts, appending steps and collecting obligations.
#[verifier::rlimit(60)]
pub fn walk_format_steps(
    parts: &Vec<DisplayFormatPart>,
    fspan: Span,
    root: &FmtRoot,
    chain: Option<&FmtChain>,
    fields: &Vec<FieldDecl>,
    steps: &mut Vec<FormatStep>,
    bounds: &mut Bounds,
) -> (r: Result<(), Diagnostic>)
    ensures
        match spec_format_steps(
            parts.deep_view(),
            fspan,
            root@,
            spec_chain_view(chain),
            fields.deep_view(),
            old(bounds)@,
            old(steps).deep_view(),
        ) {
            Ok((s2, b2)) => r is Ok && final(steps).deep_view() == s2 && final(bounds)@ == b2,
            Err(d) => r matches Err(e) && e@ == d,
        },
    decreases (if chain.is_none() { 1int } else { 0int }), 1int, 0int,
{
    let ghost partsm = parts.deep_view();
    let ghost fieldsm = fields.deep_view();
    let ghost chainv = spec_chain_view(chain);
    let ghost rootv = root@;
    let mut i: usize = 0;
    proof {
        crate::lemma_vec_deep_view_is(*parts);
        assert(partsm.skip(0) =~= partsm);
    }
    while i < parts.len()
        invariant
            i <= parts@.len(),
            partsm == parts.deep_view(),
            partsm.len() == parts@.len(),
            fieldsm == fields.deep_view(),
            chainv == spec_chain_view(chain),
            rootv == root@,
            forall|k: int|
                0 <= k < parts@.len() ==> #[trigger] partsm[k] == parts@[k].deep_view(),
            spec_format_steps(
                partsm,
                fspan,
                rootv,
                chainv,
                fieldsm,
                old(bounds)@,
                old(steps).deep_view(),
            ) == spec_format_steps(
                partsm.skip(i as int),
                fspan,
                rootv,
                chainv,
                fieldsm,
                bounds@,
                steps.deep_view(),
            ),
        decreases parts@.len() - i,
    {
        proof {
            assert(partsm.skip(i as int)[0] == partsm[i as int]);
            assert(partsm.skip(i as int).skip(1) =~= partsm.skip(i + 1 as int));
        }
        let ghost bprev = bounds@;
        let ghost stepsprev = steps.deep_view();
        match &parts[i] {
            DisplayFormatPart::Str(s) => {
                push_lit_step(s.clone(), steps);
            },
            DisplayFormatPart::EscapedBeginBracket => {
                let mut t = String::new();
                t.append("{");
                push_lit_step(t, steps);
            },
            DisplayFormatPart::EscapedEndBracket => {
                let mut t = String::new();
                t.append("}");
                push_lit_step(t, steps);
            },
            DisplayFormatPart::Var { arg, format_spec } => {
                let keys = FieldKey::from_str_deep(arg.as_str());
                proof {
                    crate::lemma_vec_deep_view_is(keys);
                    assert(keys.deep_view() =~= spec_path_of(arg@));
                }
                if keys.len() == 0 {
                    match chain {
                        Some(c) => {
                            push_arg_by_expr(
                                crate::schema::clone_keys(&c.path),
                                &c.ty,
                                format_spec.clone(),
                                steps,
                                bounds,
                            );
                        },
                        None => match root {
                            FmtRoot::Struct { .. } => {
                                let mut detail = String::new();
                                detail.append("whole-value reference in a record pattern");
                                proof {
                                    assert(chainv is None);
                                    assert(rootv is Struct);
                                    assert(spec_format_arg(
                                        arg@, format_spec@, fspan, rootv, chainv, fieldsm, bprev,
                                    ) == Err::<(Seq<FormatStepV>, BoundsV), DiagV>(
                                        spec_self_in_struct_diag(fspan),
                                    ));
                                    assert(detail@ == spec_self_in_struct_diag(fspan).detail);
                                }
                                return Err(
                                    Diagnostic::new(
                                        fspan,
                                        DiagnosticKind::MalformedPattern,
                                        detail,
                                    ),
                                );
                            },
                            FmtRoot::Variant { tag, style, .. } => {
                                let rendered = style.apply(tag.as_str());
                                push_lit_step(rendered, steps);
                            },
                        },
                    }
                } else if keys.len() == 1 && chain.is_none() {
                    proof {
                        crate::lemma_vec_deep_view_is(*fields);
                        assert(keys.deep_view()[0] == keys@[0]@);
                    }
                    let fi = match decl_index_of(fields, &keys[0]) {
                        Some(fi) => fi,
                        None => {
                            return Err(
                                Diagnostic::new(
                                    fspan,
                                    DiagnosticKind::UnknownField,
                                    keys[0].to_text(),
                                ),
                            );
                        },
                    };
                    let f = &fields[fi];
                    proof {
                        assert(fieldsm[fi as int] == fields@[fi as int].deep_view());
                    }
                    let bd = match &f.hattrs.bound_display {
                        Some(b) => Some(crate::schema::clone_bounds(b)),
                        None => None,
                    };
                    proof {
                        assert(bd.deep_view() == fieldsm[fi as int].hattrs.bound_display);
                    }
                    let mut child = bounds.child(bd);
                    match &f.hattrs.format {
                        Some(fmt) => {
                            let mut cpath: Vec<FieldKey> = Vec::new();
                            cpath.push(keys[0].clone());
                            let chain2 = FmtChain { path: cpath, ty: f.ty.clone() };
                            proof {
                                crate::lemma_vec_deep_view_is(chain2.path);
                                assert(chain2.path.deep_view() =~= seq![keys.deep_view()[0]]);
                            }
                            let ghost child_pre = child@;
                            let ghost steps_pre = steps.deep_view();
                            let r_nested = walk_format_steps(
                                &fmt.parts,
                                fmt.span,
                                root,
                                Some(&chain2),
                                fields,
                                steps,
                                &mut child,
                            );
                            proof {
                                lemma_steps_acc(
                                    fmt.parts.deep_view(),
                                    fmt.span,
                                    rootv,
                                    spec_chain_view(Some(&chain2)),
                                    fieldsm,
                                    child_pre,
                                    steps_pre,
                                );
                                assert(fmt@.parts == fmt.parts.deep_view());
                            }
                            match r_nested {
                                Ok(()) => {},
                                Err(e) => {
                                    return Err(e);
                                },
                            }
                        },
                        None => {
                            let mut cpath: Vec<FieldKey> = Vec::new();
                            cpath.push(keys[0].clone());
                            proof {
                                crate::lemma_vec_deep_view_is(cpath);
                                assert(cpath.deep_view() =~= seq![keys.deep_view()[0]]);
                            }
                            push_arg_by_expr(cpath, &f.ty, format_spec.clone(), steps, &mut child);
                        },
                    }
                    bounds.merge_child(child);
                } else {
                    let mut full: Vec<FieldKey> = match chain {
                        Some(c) => crate::schema::clone_keys(&c.path),
                        None => Vec::new(),
                    };
                    let mut k: usize = 0;
                    let ghost base = full.deep_view();
                    proof {
                        if chain is None {
                            assert(base =~= Seq::<KeyV>::empty());
                        }
                    }
                    while k < keys.len()
                        invariant
                            k <= keys@.len(),
                            keys.deep_view().len() == keys@.len(),
                            forall|j: int|
                                0 <= j < keys@.len() ==> #[trigger] keys.deep_view()[j] == keys@[
                                    j
                                ].deep_view(),
                            full.deep_view() =~= base + keys.deep_view().subrange(0, k as int),
                        decreases keys@.len() - k,
                    {
                        let ghost fprev = full;
                        let kk = keys[k].clone();
                        let ghost kkg = kk;
                        full.push(kk);
                        proof {
                            crate::lemma_vec_push_deep_view(full, fprev, kkg);
                            assert(full.deep_view() =~= base + keys.deep_view().subrange(
                                0,
                                k + 1 as int,
                            ));
                        }
                        k += 1;
                    }
                    proof {
                        assert(keys.deep_view().subrange(0, keys.deep_view().len() as int)
                            =~= keys.deep_view());
                        assert(full.deep_view() =~= base + keys.deep_view());
                    }
                    let ghost sprev2 = *steps;
                    let item = FormatStep::Value { path: full, fspec: format_spec.clone() };
                    let ghost itemg = item;
                    steps.push(item);
                    proof {
                        crate::lemma_vec_push_deep_view(*steps, sprev2, itemg);
                        assert(steps.deep_view() =~= sprev2.deep_view() + seq![itemg@]);
                    }
                }
            },
        }
        proof {
            assert(spec_format_steps(
                partsm.skip(i as int),
                fspan,
                rootv,
                chainv,
                fieldsm,
                bprev,
                stepsprev,
            ) == spec_format_steps(
                partsm.skip(i + 1 as int),
                fspan,
                rootv,
                chainv,
                fieldsm,
                bounds@,
                steps.deep_view(),
            ));
        }
        i += 1;
    }
    proof {
        assert(partsm.skip(partsm.len() as int) =~= Seq::<FormatPartV>::empty());
    }
    Ok(())
}

/// The pattern a record renders with: its directive, or the single field of
/// a one-field record; a multi-field record must say.
pub open spec fn spec_struct_display_parts(data: StructSchemaV) -> Result<
    (Seq<FormatPartV>, Span),
    DiagV,
> {
    match data.hattrs.format {
        Some(f) => Ok((f.parts, f.span)),
        None => match spec_newtype_field(data.fields) {
            Some(name) => Ok((seq![FormatPartV::Var(name, Seq::empty())], data.span)),
            None => Err(spec_missing_format_diag(data.span)),
        },
    }
}

/// The display-direction compilation of a record: the formatter steps and
/// the where-clause under the format capability.
pub open spec fn spec_compile_display_struct(data: StructSchemaV) -> Result<
    (FormatPlanV, Seq<WherePredV>),
    DiagV,
> {
    match spec_struct_display_parts(data) {
        Err(d) => Err(d),
        Ok((parts, sp)) => {
            let bounds0 = spec_bounds_from_data(data.hattrs.bound_display);
            match spec_format_steps(
                parts,
                sp,
                FmtRootV::Struct { span: data.span },
                None,
                data.fields,
                bounds0,
                Seq::empty(),
            ) {
                Err(d) => Err(d),
                Ok((steps, b)) => Ok(
                    (
                        FormatPlanV { steps },
                        spec_build_wheres(b, Capability::Format),
                    ),
                ),
            }
        },
    }
}

/// The pattern one variant renders with: its own directive, else the
/// union's, else the bare tag of a unit variant.
pub open spec fn spec_variant_display_parts(
    variant: VariantSchemaV,
    enum_hattrs: HelperAttributesV,
) -> Result<(Seq<FormatPartV>, Span), DiagV> {
    match variant.hattrs.format {
        Some(f) => Ok((f.parts, f.span)),
        None => match enum_hattrs.format {
            Some(f) => Ok((f.parts, f.span)),
            None => {
                if variant.fields.len() == 0 {
                    Ok((seq![FormatPartV::Var(Seq::empty(), Seq::empty())], variant.span))
                } else {
                    Err(spec_missing_format_diag(variant.span))
                }
            },
        },
    }
}

/// The formatter arms of a union, variant by variant in declaration order.
pub open spec fn spec_display_arms(
    variants: Seq<VariantSchemaV>,
    enum_hattrs: HelperAttributesV,
    bounds: BoundsV,
) -> Result<(Seq<VariantFormatPlanV>, BoundsV), DiagV>
    decreases variants.len(),
{
    if variants.len() == 0 {
        Ok((Seq::empty(), bounds))
    } else {
        let v0 = variants[0];
        match spec_variant_display_parts(v0, enum_hattrs) {
            Err(d) => Err(d),
            Ok((parts, sp)) => {
                let root = FmtRootV::Variant {
                    tag: v0.ident,
                    style: spec_resolve_style(v0.hattrs.style, enum_hattrs.style),
                    span: v0.span,
                };
                let child = spec_bounds_child(bounds, v0.hattrs.bound_display);
                match spec_format_steps(parts, sp, root, None, v0.fields, child, Seq::empty()) {
                    Err(d) => Err(d),
                    Ok((steps, child2)) => {
                        let bounds2 = spec_bounds_merge(bounds, child2);
                        match spec_display_arms(variants.skip(1), enum_hattrs, bounds2) {
                            Err(d) => Err(d),
                            Ok((plans, bf)) => Ok(
                                (
                                    seq![
                                        VariantFormatPlanV {
                                            tag: v0.ident,
                                            plan: FormatPlanV { steps },
                                        },
                                    ] + plans,
                                    bf,
                                ),
                            ),
                        }
                    },
                }
            },
        }
    }
}

/// The display-direction compilation of a union.
pub open spec fn spec_compile_display_enum(data: EnumSchemaV) -> Result<
    (Seq<VariantFormatPlanV>, Seq<WherePredV>),
    DiagV,
> {
    let bounds0 = spec_bounds_from_data(data.hattrs.bound_display);
    match spec_display_arms(data.variants, data.hattrs, bounds0) {
        Err(d) => Err(d),
        Ok((plans, bf)) => Ok((plans, spec_build_wheres(bf, Capability::Format))),
    }
}

/// Compiles the display direction of a record schema.
pub fn compile_display_struct(data: &StructSchema) -> (r: Result<
    (FormatPlan, Vec<WherePred>),
    Diagnostic,
>)
    ensures
        match spec_compile_display_struct(data@) {
            Ok((plan, wheres)) => r matches Ok(p) && p.0@ == plan && p.1.deep_view() == wheres,
            Err(d) => r matches Err(e) && e@ == d,
        },
{
    let (parts, sp): (&Vec<DisplayFormatPart>, Span) = match &data.hattrs.format {
        Some(f) => (&f.parts, f.span),
        None => {
            match get_newtype_field(data) {
                Some(name) => {
                    let mut owned: Vec<DisplayFormatPart> = Vec::new();
                    owned.push(
                        DisplayFormatPart::Var { arg: name, format_spec: String::new() },
                    );
                    proof {
                        crate::lemma_vec_deep_view_is(owned);
                        assert(owned.deep_view() =~= seq![
                            FormatPartV::Var(
                                spec_newtype_field(data@.fields).unwrap(),
                                Seq::<char>::empty(),
                            ),
                        ]);
                    }
                    return compile_display_struct_steps(data, owned, data.span);
                },
                None => {
                    let mut detail = String::new();
                    detail.append("format directive required");
                    return Err(
                        Diagnostic::new(
                            data.span,
                            DiagnosticKind::MalformedPattern,
                            detail,
                        ),
                    );
                },
            }
        },
    };
    let mut owned: Vec<DisplayFormatPart> = Vec::new();
    let mut i: usize = 0;
    while i < parts.len()
        invariant
            i <= parts@.len(),
            owned@.len() == i,
            forall|k: int| 0 <= k < i ==> (#[trigger] owned@[k])@ == parts@[k]@,
        decreases parts@.len() - i,
    {
        owned.push(parts[i].clone());
        i += 1;
    }
    proof {
        crate::lemma_vec_deep_view_is(owned);
        crate::lemma_vec_deep_view_is(*parts);
        assert(owned.deep_view() =~= parts.deep_view());
    }
    compile_display_struct_steps(data, owned, sp)
}

/// The shared tail of the record display compilation: walks the chosen
/// parts and builds the where-clause.
fn compile_display_struct_steps(
    data: &StructSchema,
    parts: Vec<DisplayFormatPart>,
    sp: Span,
) -> (r: Result<(FormatPlan, Vec<WherePred>), Diagnostic>)
    requires
        spec_struct_display_parts(data@) == Ok::<(Seq<FormatPartV>, Span), DiagV>(
            (parts.deep_view(), sp),
        ),
    ensures
        match spec_compile_display_struct(data@) {
            Ok((plan, wheres)) => r matches Ok(p) && p.0@ == plan && p.1.deep_view() == wheres,
            Err(d) => r matches Err(e) && e@ == d,
        },
{
    let bd = match &data.hattrs.bound_display {
        Some(b) => Some(crate::schema::clone_bounds(b)),
        None => None,
    };
    proof {
        assert(bd.deep_view() == data@.hattrs.bound_display);
    }
    let mut bounds = Bounds::from_data(bd);
    let root = FmtRoot::Struct { span: data.span };
    let mut steps: Vec<FormatStep> = Vec::new();
    proof {
        assert(steps.deep_view() =~= Seq::<FormatStepV>::empty());
    }
    match walk_format_steps(&parts, sp, &root, None, &data.fields, &mut steps, &mut bounds) {
        Ok(()) => {},
        Err(e) => {
            return Err(e);
        },
    }
    let wheres = bounds.build_wheres(Capability::Format);
    Ok((FormatPlan { steps }, wheres))
}

/// Compiles the display direction of a union schema.
#[verifier::rlimit(100)]
#[verifier::spinoff_prover]
pub fn compile_display_enum(data: &EnumSchema) -> (r: Result<
    (Vec<VariantFormatPlan>, Vec<WherePred>),
    Diagnostic,
>)
    ensures
        match spec_compile_display_enum(data@) {
            Ok((plans, wheres)) => r matches Ok(p) && p.0.deep_view() == plans && p.1.deep_view()
                == wheres,
            Err(d) => r matches Err(e) && e@ == d,
        },
{
    let bd = match &data.hattrs.bound_display {
        Some(b) => Some(crate::schema::clone_bounds(b)),
        None => None,
    };
    proof {
        assert(bd.deep_view() == data@.hattrs.bound_display);
    }
    let mut bounds = Bounds::from_data(bd);
    let ghost enum_h = data.hattrs@;
    let ghost variantsm = data.variants.deep_view();
    let mut plans: Vec<VariantFormatPlan> = Vec::new();
    let mut i: usize = 0;
    proof {
        crate::lemma_vec_deep_view_is(data.variants);
        assert(variantsm.skip(0) =~= variantsm);
    }
    while i < data.variants.len()
        invariant
            i <= data.variants@.len(),
            enum_h == data.hattrs@,
            variantsm == data.variants.deep_view(),
            variantsm.len() == data.variants@.len(),
            forall|k: int|
                0 <= k < data.variants@.len() ==> #[trigger] variantsm[k] == data.variants@[
                    k
                ].deep_view(),
            spec_display_arms(variantsm, enum_h, spec_bounds_from_data(enum_h.bound_display))
                == (match spec_display_arms(variantsm.skip(i as int), enum_h, bounds@) {
                Err(d) => Err(d),
                Ok((rest, bf)) => Ok((plans.deep_view() + rest, bf)),
            }),
        decreases data.variants@.len() - i,
    {
        proof {
            assert(variantsm.skip(i as int)[0] == variantsm[i as int]);
            assert(variantsm.skip(i as int).skip(1) =~= variantsm.skip(i + 1 as int));
        }
        let ghost bprev = bounds@;
        let ghost plansprev = plans;
        let variant = &data.variants[i];
        let vparts: Vec<DisplayFormatPart>;
        let vsp: Span;
        if let Some(f) = &variant.hattrs.format {
            vparts = clone_parts(&f.parts);
            vsp = f.span;
        } else if let Some(f) = &data.hattrs.format {
            vparts = clone_parts(&f.parts);
            vsp = f.span;
        } else if variant.fields.len() == 0 {
            let mut p: Vec<DisplayFormatPart> = Vec::new();
            p.push(DisplayFormatPart::Var { arg: String::new(), format_spec: String::new() });
            proof {
                crate::lemma_vec_deep_view_is(p);
                assert(p.deep_view() =~= seq![
                    FormatPartV::Var(Seq::<char>::empty(), Seq::<char>::empty()),
                ]);
            }
            vparts = p;
            vsp = variant.span;
        } else {
            let mut detail = String::new();
            detail.append("format directive required");
            return Err(
                Diagnostic::new(variant.span, DiagnosticKind::MalformedPattern, detail),
            );
        }
        proof {
            assert(spec_variant_display_parts(variantsm[i as int], enum_h) == Ok::<
                (Seq<FormatPartV>, Span),
                DiagV,
            >((vparts.deep_view(), vsp)));
        }
        let style = DisplayStyle::resolve(variant.hattrs.style, data.hattrs.style);
        let root = FmtRoot::Variant { tag: variant.ident.clone(), style, span: variant.span };
        let vbd = match &variant.hattrs.bound_display {
            Some(b) => Some(crate::schema::clone_bounds(b)),
            None => None,
        };
        proof {
            assert(vbd.deep_view() == variantsm[i as int].hattrs.bound_display);
        }
        let mut child = bounds.child(vbd);
        let mut steps: Vec<FormatStep> = Vec::new();
        proof {
            assert(steps.deep_view() =~= Seq::<FormatStepV>::empty());
        }
        match walk_format_steps(
            &vparts,
            vsp,
            &root,
            None,
            &variant.fields,
            &mut steps,
            &mut child,
        ) {
            Ok(()) => {},
            Err(e) => {
                return Err(e);
            },
        }
        bounds.merge_child(child);
        let vp = VariantFormatPlan {
            tag: variant.ident.clone(),
            plan: FormatPlan { steps },
        };
        let ghost vpg = vp;
        plans.push(vp);
        proof {
            crate::lemma_vec_push_deep_view(plans, plansprev, vpg);
            assert(plans.deep_view() =~= plansprev.deep_view() + seq![vpg@]);
            let step = spec_display_arms(variantsm.skip(i + 1 as int), enum_h, bounds@);
            assert(spec_display_arms(variantsm.skip(i as int), enum_h, bprev) == (match step {
                Err(d) => Err(d),
                Ok((rest, bf)) => Ok(((seq![vpg@] + rest), bf)),
            }));
            match step {
                Ok((rest, _bf)) => {
                    assert(plansprev.deep_view() + (seq![vpg@] + rest) =~= plans.deep_view()
                        + rest);
                },
                Err(_) => {},
            }
        }
        i += 1;
    }
    proof {
        assert(variantsm.skip(variantsm.len() as int) =~= Seq::<VariantSchemaV>::empty());
        assert(plans.deep_view() + Seq::<VariantFormatPlanV>::empty() =~= plans.deep_view());
    }
    let wheres = bounds.build_wheres(Capability::Format);
    Ok((plans, wheres))
}

/// Copies a pattern's parts.
fn clone_parts(v: &Vec<DisplayFormatPart>) -> (r: Vec<DisplayFormatPart>)
    ensures
        r.deep_view() == v.deep_view(),
{
    let mut r: Vec<DisplayFormatPart> = Vec::new();
    let mut i: usize = 0;
    while i < v.len()
        invariant
            i <= v@.len(),
            r@.len() == i,
            forall|k: int| 0 <= k < i ==> (#[trigger] r@[k])@ == v@[k]@,
        decreases v@.len() - i,
    {
        r.push(v[i].clone());
        i += 1;
    }
    proof {
        crate::lemma_vec_deep_view_is(r);
        crate::lemma_vec_deep_view_is(*v);
        assert(r.deep_view() =~= v.deep_view());
    }
    r
}

} // verus!
