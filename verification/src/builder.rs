//! The capture and default planner. Walking a compiled pattern in its schema
//! context, it decides for every variable how parsing will satisfy it: a
//! direct capture slot on a field, a deep slot on a sub-path of a field, the
//! style-rendered variant tag, or an expansion of the field's own directive
//! pattern or regex. Slots are dense and assigned on first use, starting at
//! one; a repeated reference reuses its slot.

use vstd::prelude::*;
use crate::diag::{DiagV, Diagnostic, DiagnosticKind, Span};
use crate::format::FormatPartV;
use crate::key::{FieldKey, KeyV, spec_key_text, spec_path_of};
use crate::prog::{FragV, ParseFormat, ParseFormatV, RegexFragment, spec_pf_push_str};
use crate::schema::{
    FieldDecl, FieldDeclV, HelperAttributes, HelperAttributesV, SpannedStrV, TypeInfo, TypeInfoV,
    spec_from_str_format_span,
};
use crate::style::DisplayStyle;
use crate::text::{capture_name, spec_capture_name};

verus! {

/// A deep capture: a sub-path continuing past a field, and the slot that
/// holds its text.
#[derive(Debug)]
pub struct DeepCapture {
    pub path: Vec<FieldKey>,
    pub slot: usize,
}

/// The mathematical value of a deep capture.
pub struct DeepCaptureV {
    pub path: Seq<KeyV>,
    pub slot: usize,
}

impl View for DeepCapture {
    type V = DeepCaptureV;

    open spec fn view(&self) -> DeepCaptureV {
        DeepCaptureV { path: self.path.deep_view(), slot: self.slot }
    }
}

impl DeepView for DeepCapture {
    type V = DeepCaptureV;

    open spec fn deep_view(&self) -> DeepCaptureV {
        self.view()
    }
}

/// The planner's record of one field: its declaration, its direct slot if
/// one was assigned, its deep slots, and whether it falls back to a default.
#[derive(Debug)]
pub struct FieldEntry {
    pub key: FieldKey,
    pub ty: TypeInfo,
    pub span: Span,
    pub hattrs: HelperAttributes,
    pub deep_captures: Vec<DeepCapture>,
    pub capture: Option<usize>,
    pub use_default: bool,
}

/// The mathematical value of a field entry.
pub struct FieldEntryV {
    pub key: KeyV,
    pub ty: TypeInfoV,
    pub span: Span,
    pub hattrs: HelperAttributesV,
    pub deep_captures: Seq<DeepCaptureV>,
    pub capture: Option<usize>,
    pub use_default: bool,
}

impl View for FieldEntry {
    type V = FieldEntryV;

    open spec fn view(&self) -> FieldEntryV {
        FieldEntryV {
            key: self.key@,
            ty: self.ty@,
            span: self.span,
            hattrs: self.hattrs@,
            deep_captures: self.deep_captures.deep_view(),
            capture: self.capture,
            use_default: self.use_default,
        }
    }
}

impl DeepView for FieldEntry {
    type V = FieldEntryV;

    open spec fn deep_view(&self) -> FieldEntryV {
        self.view()
    }
}

/// The planner's state while it walks one pattern: the next free slot, the
/// parse form under assembly, the field entries in declaration order, and
/// the scope's own default, span and custom-constructor directives.
#[derive(Debug)]
pub struct ParserBuilder {
    pub capture_next: usize,
    pub parse_format: ParseFormat,
    pub fields: Vec<FieldEntry>,
    pub use_default: bool,
    pub span: Span,
    pub new_expr: Option<String>,
}

/// The mathematical value of the planner state.
pub struct BuilderV {
    pub capture_next: usize,
    pub parse_format: ParseFormatV,
    pub fields: Seq<FieldEntryV>,
    pub use_default: bool,
    pub span: Span,
    pub new_expr: Option<Seq<char>>,
}

impl View for ParserBuilder {
    type V = BuilderV;

    open spec fn view(&self) -> BuilderV {
        BuilderV {
            capture_next: self.capture_next,
            parse_format: self.parse_format@,
            fields: self.fields.deep_view(),
            use_default: self.use_default,
            span: self.span,
            new_expr: self.new_expr.deep_view(),
        }
    }
}

/// The schema context a pattern is compiled in: the record itself, one
/// variant of a union, or one field whose own directive pattern is being
/// expanded.
#[derive(Debug)]
pub enum ParseContext {
    Struct { newtype: Option<String>, span: Span },
    Variant { tag: String, style: DisplayStyle, is_unit: bool, span: Span },
    Field { key: FieldKey, span: Span },
}

/// The mathematical value of a context.
pub enum ContextV {
    Struct { newtype: Option<Seq<char>>, span: Span },
    Variant { tag: Seq<char>, style: DisplayStyle, is_unit: bool, span: Span },
    Field { key: KeyV, span: Span },
}

impl View for ParseContext {
    type V = ContextV;

    open spec fn view(&self) -> ContextV {
        match self {
            ParseContext::Struct { newtype, span } => ContextV::Struct {
                newtype: newtype.deep_view(),
                span: *span,
            },
            ParseContext::Variant { tag, style, is_unit, span } => ContextV::Variant {
                tag: tag@,
                style: *style,
                is_unit: *is_unit,
                span: *span,
            },
            ParseContext::Field { key, span } => ContextV::Field { key: key@, span: *span },
        }
    }
}

/// The entry a field declaration starts from: no slots, and a default only
/// if the field carries its own whole-value default directive.
pub open spec fn spec_entry_of(f: FieldDeclV) -> FieldEntryV {
    FieldEntryV {
        key: f.key,
        ty: f.ty,
        span: f.span,
        hattrs: f.hattrs,
        deep_captures: Seq::empty(),
        capture: None,
        use_default: f.hattrs.default_self is Some,
    }
}

/// The planner state a schema starts from: slots from one, an empty literal
/// parse form, one entry per field.
pub open spec fn spec_builder_new(fields: Seq<FieldDeclV>) -> BuilderV {
    BuilderV {
        capture_next: 1,
        parse_format: ParseFormatV::Literal(Seq::empty()),
        fields: fields.map_values(|f: FieldDeclV| spec_entry_of(f)),
        use_default: false,
        span: Span { lo: 0, hi: 0 },
        new_expr: None,
    }
}

/// The first field with the given key.
pub open spec fn spec_find_field(fields: Seq<FieldEntryV>, k: KeyV) -> Option<int>
    decreases fields.len(),
{
    if fields.len() == 0 {
        None
    } else if fields[0].key == k {
        Some(0)
    } else {
        match spec_find_field(fields.skip(1), k) {
            Some(i) => Some(i + 1),
            None => None,
        }
    }
}

/// What the first-match search means, position by position.
pub proof fn lemma_find_field_char(fields: Seq<FieldEntryV>, k: KeyV)
    ensures
        match spec_find_field(fields, k) {
            Some(i) => 0 <= i < fields.len() && fields[i].key == k && (forall|j: int|
                0 <= j < i ==> fields[j].key != k),
            None => forall|j: int| 0 <= j < fields.len() ==> fields[j].key != k,
        },
    decreases fields.len(),
{
    if fields.len() > 0 && fields[0].key != k {
        lemma_find_field_char(fields.skip(1), k);
        assert(forall|j: int|
            1 <= j < fields.len() ==> fields[j] == fields.skip(1)[j - 1]);
    }
}

/// The slot already assigned to a sub-path, if any.
pub open spec fn spec_find_deep(dcs: Seq<DeepCaptureV>, path: Seq<KeyV>) -> Option<usize>
    decreases dcs.len(),
{
    if dcs.len() == 0 {
        None
    } else if dcs[0].path == path {
        Some(dcs[0].slot)
    } else {
        spec_find_deep(dcs.skip(1), path)
    }
}

/// The group name that stands for the whole value in a raw regex; such a
/// reference never becomes a capture slot.
pub open spec fn spec_empty_name() -> Seq<char> {
    "empty"@
}

/// The effect of assigning or reusing a slot on one entry: an existing slot
/// for the same target is reused; otherwise the next slot is taken. The
/// second result is the slot, the third the next free slot afterwards.
pub open spec fn spec_entry_set_capture(e: FieldEntryV, sub: Seq<KeyV>, next: usize) -> (
    FieldEntryV,
    usize,
    usize,
) {
    if sub.len() == 0 {
        match e.capture {
            Some(idx) => (e, idx, next),
            None => (
                FieldEntryV { capture: Some(next), ..e },
                next,
                (next + 1) as usize,
            ),
        }
    } else {
        match spec_find_deep(e.deep_captures, sub) {
            Some(idx) => (e, idx, next),
            None => (
                FieldEntryV {
                    deep_captures: e.deep_captures.push(DeepCaptureV { path: sub, slot: next }),
                    ..e
                },
                next,
                (next + 1) as usize,
            ),
        }
    }
}

/// Whether assigning a slot on this entry would allocate a new one.
pub open spec fn spec_entry_allocates(e: FieldEntryV, sub: Seq<KeyV>) -> bool {
    if sub.len() == 0 {
        e.capture is None
    } else {
        spec_find_deep(e.deep_captures, sub) is None
    }
}

/// The diagnostic for a path segment that names no field.
pub open spec fn spec_unknown_field_diag(span: Span, k: KeyV) -> DiagV {
    DiagV { span, kind: DiagnosticKind::UnknownField, detail: spec_key_text(k) }
}

/// The diagnostic for a pattern that needs more slots than the machine can
/// number.
pub open spec fn spec_slots_exhausted_diag(span: Span) -> DiagV {
    DiagV { span, kind: DiagnosticKind::MalformedPattern, detail: "too many captures"@ }
}

/// The effect of one variable reference on the planner: in a field context
/// the whole reference is a sub-path of that field; elsewhere an empty path
/// is the whole value and yields the reserved name, and a non-empty path
/// addresses its first key's field. The result is the capture-group name the
/// reference parses into.
pub open spec fn spec_set_capture(
    b: BuilderV,
    ctx: ContextV,
    keys: Seq<KeyV>,
    span: Span,
) -> Result<(BuilderV, Seq<char>), DiagV> {
    let (field_key, sub) = if ctx is Field {
        (ctx->Field_key, keys)
    } else if keys.len() == 0 {
        (KeyV::Unnamed(0), Seq::empty())
    } else {
        (keys[0], keys.skip(1))
    };
    if !(ctx is Field) && keys.len() == 0 {
        Ok((b, spec_empty_name()))
    } else {
        match spec_find_field(b.fields, field_key) {
            None => Err(spec_unknown_field_diag(span, field_key)),
            Some(i) => {
                if spec_entry_allocates(b.fields[i], sub) && b.capture_next == usize::MAX {
                    Err(spec_slots_exhausted_diag(span))
                } else {
                    let (e, idx, next) = spec_entry_set_capture(b.fields[i], sub, b.capture_next);
                    Ok(
                        (
                            BuilderV {
                                fields: b.fields.update(i, e),
                                capture_next: next,
                                ..b
                            },
                            spec_capture_name(idx as nat),
                        ),
                    )
                }
            },
        }
    }
}

/// The effect of a scope's default directives and span on the planner.
pub open spec fn spec_apply_attrs(b: BuilderV, h: HelperAttributesV) -> Result<BuilderV, DiagV> {
    let b1 = if h.default_self is Some {
        BuilderV { use_default: true, ..b }
    } else {
        b
    };
    match spec_apply_default_fields(b1, h.default_fields) {
        Err(d) => Err(d),
        Ok(b2) => Ok(
            match spec_from_str_format_span(h) {
                Some(sp) => BuilderV { span: sp, ..b2 },
                None => b2,
            },
        ),
    }
}

/// Each listed field is marked to fall back to its default.
pub open spec fn spec_apply_default_fields(b: BuilderV, keys: Seq<KeyV>) -> Result<BuilderV, DiagV>
    decreases keys.len(),
{
    if keys.len() == 0 {
        Ok(b)
    } else {
        match spec_find_field(b.fields, keys[0]) {
            None => Err(spec_unknown_field_diag(b.span, keys[0])),
            Some(i) => spec_apply_default_fields(
                BuilderV {
                    fields: b.fields.update(
                        i,
                        FieldEntryV { use_default: true, ..b.fields[i] },
                    ),
                    ..b
                },
                keys.skip(1),
            ),
        }
    }
}

/// What the first-match search over deep captures means.
pub proof fn lemma_find_deep_char(dcs: Seq<DeepCaptureV>, path: Seq<KeyV>)
    ensures
        match spec_find_deep(dcs, path) {
            Some(slot) => exists|i: int|
                0 <= i < dcs.len() && (#[trigger] dcs[i]).path == path && dcs[i].slot == slot && (
                forall|j: int| 0 <= j < i ==> (#[trigger] dcs[j]).path != path),
            None => forall|j: int| 0 <= j < dcs.len() ==> (#[trigger] dcs[j]).path != path,
        },
    decreases dcs.len(),
{
    if dcs.len() > 0 && dcs[0].path != path {
        lemma_find_deep_char(dcs.skip(1), path);
        assert(forall|j: int| 1 <= j < dcs.len() ==> dcs[j] == dcs.skip(1)[j - 1]);
        if spec_find_deep(dcs.skip(1), path) is Some {
            let i0 = choose|i: int|
                0 <= i < dcs.skip(1).len() && (#[trigger] dcs.skip(1)[i]).path == path && dcs.skip(
                    1,
                )[i].slot == spec_find_deep(dcs.skip(1), path).unwrap() && (forall|j: int|
                    0 <= j < i ==> (#[trigger] dcs.skip(1)[j]).path != path);
            assert(dcs[i0 + 1].path == path && dcs[i0 + 1].slot == spec_find_deep(
                dcs,
                path,
            ).unwrap());
            assert(forall|j: int| 0 <= j < i0 + 1 ==> (#[trigger] dcs[j]).path != path);
        }
    }
}

/// Whether two key lists denote the same path.
fn keys_eq(a: &Vec<FieldKey>, b: &Vec<FieldKey>) -> (r: bool)
    ensures
        r == (a.deep_view() == b.deep_view()),
{
    proof {
        crate::lemma_vec_deep_view_is(*a);
        crate::lemma_vec_deep_view_is(*b);
    }
    if a.len() != b.len() {
        proof {
            assert(a.deep_view().len() != b.deep_view().len());
        }
        return false;
    }
    let mut i: usize = 0;
    while i < a.len()
        invariant
            i <= a@.len(),
            a@.len() == b@.len(),
            a.deep_view().len() == a@.len(),
            b.deep_view().len() == b@.len(),
            forall|k: int|
                0 <= k < a@.len() ==> #[trigger] a.deep_view()[k] == a@[k].deep_view(),
            forall|k: int|
                0 <= k < b@.len() ==> #[trigger] b.deep_view()[k] == b@[k].deep_view(),
            forall|k: int| 0 <= k < i ==> a.deep_view()[k] == b.deep_view()[k],
        decreases a@.len() - i,
    {
        if !(&a[i] == &b[i]) {
            proof {
                assert(a.deep_view()[i as int] != b.deep_view()[i as int]);
            }
            return false;
        }
        i += 1;
    }
    proof {
        assert(a.deep_view() =~= b.deep_view());
    }
    true
}

/// The slot already recorded for a sub-path.
fn find_deep_slot(dcs: &Vec<DeepCapture>, sub: &Vec<FieldKey>) -> (r: Option<usize>)
    ensures
        r == spec_find_deep(dcs.deep_view(), sub.deep_view()),
{
    proof {
        crate::lemma_vec_deep_view_is(*dcs);
        lemma_find_deep_char(dcs.deep_view(), sub.deep_view());
    }
    let mut j: usize = 0;
    while j < dcs.len()
        invariant
            j <= dcs@.len(),
            dcs.deep_view().len() == dcs@.len(),
            forall|k: int|
                0 <= k < dcs@.len() ==> #[trigger] dcs.deep_view()[k] == dcs@[k].deep_view(),
            forall|k: int| 0 <= k < j ==> (#[trigger] dcs.deep_view()[k]).path != sub.deep_view(),
        decreases dcs@.len() - j,
    {
        if keys_eq(&dcs[j].path, sub) {
            proof {
                lemma_find_deep_char(dcs.deep_view(), sub.deep_view());
                assert((dcs.deep_view()[j as int]).path == sub.deep_view());
                if spec_find_deep(dcs.deep_view(), sub.deep_view()) is Some {
                    let i0 = choose|i: int|
                        0 <= i < dcs.deep_view().len() && (#[trigger] dcs.deep_view()[i]).path
                            == sub.deep_view() && dcs.deep_view()[i].slot == spec_find_deep(
                            dcs.deep_view(),
                            sub.deep_view(),
                        ).unwrap() && (forall|jj: int|
                            0 <= jj < i ==> (#[trigger] dcs.deep_view()[jj]).path != sub
                                .deep_view());
                    assert(i0 == j);
                }
            }
            return Some(dcs[j].slot);
        }
        j += 1;
    }
    proof {
        lemma_find_deep_char(dcs.deep_view(), sub.deep_view());
    }
    None
}

/// The diagnostic text for directives that expand into each other.
fn recursive_expansion_text() -> (r: String)
    ensures
        r@ == "recursive format expansion"@,
{
    let mut r = String::new();
    r.append("recursive format expansion");
    r
}

/// The diagnostic text for a whole-value group outside a variant's regex.
fn empty_capture_text() -> (r: String)
    ensures
        r@ == "empty capture name"@,
{
    let mut r = String::new();
    r.append("empty capture name");
    r
}

/// The diagnostic text for a scope that needs a pattern directive.
fn missing_format_text() -> (r: String)
    ensures
        r@ == "format directive required"@,
{
    let mut r = String::new();
    r.append("format directive required");
    r
}

/// The span a context locates its diagnostics at.
fn context_span(ctx: &ParseContext) -> (r: Span)
    ensures
        r == ctx_span(ctx@),
{
    match ctx {
        ParseContext::Struct { span, .. } => *span,
        ParseContext::Variant { span, .. } => *span,
        ParseContext::Field { span, .. } => *span,
    }
}

/// The parts a scope falls back to without a pattern directive.
fn default_format_parts(ctx: &ParseContext) -> (r: Result<
    (Vec<crate::format::DisplayFormatPart>, Span),
    Diagnostic,
>)
    ensures
        match spec_default_format(ctx@) {
            Ok((parts, sp)) => r matches Ok(p) && p.0.deep_view() == parts && p.1 == sp,
            Err(d) => r matches Err(e) && e@ == d,
        },
{
    match ctx {
        ParseContext::Struct { newtype, span } => match newtype {
            Some(name) => {
                let mut parts: Vec<crate::format::DisplayFormatPart> = Vec::new();
                parts.push(
                    crate::format::DisplayFormatPart::Var {
                        arg: name.clone(),
                        format_spec: String::new(),
                    },
                );
                proof {
                    crate::lemma_vec_deep_view_is(parts);
                    assert(parts.deep_view() =~= seq![
                        FormatPartV::Var(name@, Seq::<char>::empty()),
                    ]);
                }
                Ok((parts, *span))
            },
            None => Err(
                Diagnostic::new(*span, DiagnosticKind::MalformedPattern, missing_format_text()),
            ),
        },
        ParseContext::Variant { is_unit, span, .. } => {
            if *is_unit {
                let mut parts: Vec<crate::format::DisplayFormatPart> = Vec::new();
                parts.push(
                    crate::format::DisplayFormatPart::Var {
                        arg: String::new(),
                        format_spec: String::new(),
                    },
                );
                proof {
                    crate::lemma_vec_deep_view_is(parts);
                    assert(parts.deep_view() =~= seq![
                        FormatPartV::Var(Seq::<char>::empty(), Seq::<char>::empty()),
                    ]);
                }
                Ok((parts, *span))
            } else {
                Err(
                    Diagnostic::new(
                        *span,
                        DiagnosticKind::MalformedPattern,
                        missing_format_text(),
                    ),
                )
            }
        },
        ParseContext::Field { span, .. } => {
            let mut parts: Vec<crate::format::DisplayFormatPart> = Vec::new();
            parts.push(
                crate::format::DisplayFormatPart::Var {
                    arg: String::new(),
                    format_spec: String::new(),
                },
            );
            proof {
                crate::lemma_vec_deep_view_is(parts);
                assert(parts.deep_view() =~= seq![
                    FormatPartV::Var(Seq::<char>::empty(), Seq::<char>::empty()),
                ]);
            }
            Ok((parts, *span))
        },
    }
}

/// The diagnostic text for a pattern that outruns the machine's slot numbers.
fn too_many_captures_text() -> (r: String)
    ensures
        r@ == "too many captures"@,
{
    let mut r = String::new();
    r.append("too many captures");
    r
}

/// The tail of a key list from `start` on, as owned keys.
fn keys_suffix(keys: &Vec<FieldKey>, start: usize) -> (r: Vec<FieldKey>)
    requires
        start <= keys@.len(),
    ensures
        r.deep_view() == keys.deep_view().skip(start as int),
{
    let mut r: Vec<FieldKey> = Vec::new();
    let mut i = start;
    while i < keys.len()
        invariant
            start <= i <= keys@.len(),
            r@.len() == i - start,
            forall|k: int|
                0 <= k < i - start ==> (#[trigger] r@[k])@ == keys@[start + k]@,
        decreases keys@.len() - i,
    {
        r.push(keys[i].clone());
        i += 1;
    }
    proof {
        crate::lemma_vec_deep_view_is(r);
        crate::lemma_vec_deep_view_is(*keys);
        assert forall|k: int| 0 <= k < r@.len() implies #[trigger] r.deep_view()[k]
            == keys.deep_view().skip(start as int)[k] by {
            assert(r@[k]@ == keys@[start + k]@);
        }
        assert(r.deep_view() =~= keys.deep_view().skip(start as int));
    }
    r
}

/// The planner with literal text appended to its parse form.
pub open spec fn spec_builder_push_str(b: BuilderV, s: Seq<char>) -> BuilderV {
    BuilderV { parse_format: spec_pf_push_str(b.parse_format, s), ..b }
}

/// The planner with a fragment appended to its parse form, which thereby
/// stops being a pure literal.
pub open spec fn spec_builder_push_frag(b: BuilderV, f: FragV) -> BuilderV {
    BuilderV {
        parse_format: ParseFormatV::Fragments(
            crate::prog::spec_pf_fragments(b.parse_format).push(f),
        ),
        ..b
    }
}

/// The diagnostic for a scope whose directives expand into each other
/// without end.
pub open spec fn spec_recursion_diag(span: Span) -> DiagV {
    DiagV {
        span,
        kind: DiagnosticKind::ConflictingDirective,
        detail: "recursive format expansion"@,
    }
}

/// The diagnostic for a scope that needs a pattern and has none.
pub open spec fn spec_missing_format_diag(span: Span) -> DiagV {
    DiagV { span, kind: DiagnosticKind::MalformedPattern, detail: "format directive required"@ }
}

/// The diagnostic for a raw fragment that is not a well-formed regex.
pub open spec fn spec_invalid_regex_diag(span: Span, text: Seq<char>) -> DiagV {
    DiagV { span, kind: DiagnosticKind::InvalidRegexFragment, detail: text }
}

/// The parts a scope falls back to when it carries no pattern directive: a
/// record renders its single field, a unit variant its tag, a field its own
/// value; a multi-field record or variant without a pattern is an error.
pub open spec fn spec_default_format(ctx: ContextV) -> Result<(Seq<FormatPartV>, Span), DiagV> {
    match ctx {
        ContextV::Struct { newtype, span } => match newtype {
            Some(name) => Ok((seq![FormatPartV::Var(name, Seq::empty())], span)),
            None => Err(spec_missing_format_diag(span)),
        },
        ContextV::Variant { is_unit, span, .. } => {
            if is_unit {
                Ok((seq![FormatPartV::Var(Seq::empty(), Seq::empty())], span))
            } else {
                Err(spec_missing_format_diag(span))
            }
        },
        ContextV::Field { span, .. } => Ok(
            (seq![FormatPartV::Var(Seq::empty(), Seq::empty())], span),
        ),
    }
}

/// The effect of walking a pattern's parts in order: literal parts extend
/// the parse form; a variable is the variant tag, a field reference, or a
/// capture group, as `spec_push_field` and `spec_set_capture` say.
pub open spec fn spec_push_format(
    b: BuilderV,
    parts: Seq<FormatPartV>,
    fspan: Span,
    ctx: ContextV,
    fuel: nat,
) -> Result<BuilderV, DiagV>
    decreases fuel, 3nat, parts.len(),
{
    if parts.len() == 0 {
        Ok(b)
    } else {
        let step: Result<BuilderV, DiagV> = match parts[0] {
            FormatPartV::Str(s) => Ok(spec_builder_push_str(b, s)),
            FormatPartV::EscapedBeginBracket => Ok(spec_builder_push_str(b, "{"@)),
            FormatPartV::EscapedEndBracket => Ok(spec_builder_push_str(b, "}"@)),
            FormatPartV::Var(arg, _fs) => {
                let keys = spec_path_of(arg);
                if ctx is Variant && keys.len() == 0 {
                    Ok(
                        spec_builder_push_str(
                            b,
                            crate::style::spec_style_apply(ctx->Variant_style, ctx->Variant_tag),
                        ),
                    )
                } else if keys.len() == 1 {
                    spec_push_field(b, keys[0], fspan, fuel)
                } else {
                    match spec_set_capture(b, ctx, keys, fspan) {
                        Ok((b2, name)) => Ok(spec_builder_push_frag(b2, FragV::Cap(name))),
                        Err(d) => Err(d),
                    }
                }
            },
        };
        match step {
            Ok(b2) => spec_push_format(b2, parts.skip(1), fspan, ctx, fuel),
            Err(d) => Err(d),
        }
    }
}

/// A one-key reference expands the addressed field's own directives in a
/// field context; without any, the field gets a direct capture slot.
pub open spec fn spec_push_field(b: BuilderV, key: KeyV, span: Span, fuel: nat) -> Result<
    BuilderV,
    DiagV,
>
    decreases fuel, 2nat, 0nat,
{
    match spec_find_field(b.fields, key) {
        None => Err(spec_unknown_field_diag(span, key)),
        Some(i) => {
            if fuel == 0 {
                Err(spec_recursion_diag(span))
            } else {
                spec_push_attrs(
                    b,
                    b.fields[i].hattrs,
                    ContextV::Field { key, span: b.fields[i].span },
                    (fuel - 1) as nat,
                )
            }
        },
    }
}

/// A scope's own regex or pattern directive, else its default pattern.
pub open spec fn spec_push_attrs(
    b: BuilderV,
    h: HelperAttributesV,
    ctx: ContextV,
    fuel: nat,
) -> Result<BuilderV, DiagV>
    decreases fuel, 1nat, 0nat,
{
    match spec_try_push_attrs(b, h, ctx, fuel) {
        Err(d) => Err(d),
        Ok((true, b2)) => Ok(b2),
        Ok((false, _)) => {
            if fuel == 0 {
                Err(spec_recursion_diag(ctx_span(ctx)))
            } else {
                match spec_default_format(ctx) {
                    Err(d) => Err(d),
                    Ok((parts, sp)) => spec_push_format(b, parts, sp, ctx, (fuel - 1) as nat),
                }
            }
        },
    }
}

/// The span a context locates its diagnostics at.
pub open spec fn ctx_span(ctx: ContextV) -> Span {
    match ctx {
        ContextV::Struct { span, .. } => span,
        ContextV::Variant { span, .. } => span,
        ContextV::Field { span, .. } => span,
    }
}

/// A regex directive wins over a pattern directive; with neither, the scope
/// is untouched and the first result is false.
pub open spec fn spec_try_push_attrs(
    b: BuilderV,
    h: HelperAttributesV,
    ctx: ContextV,
    fuel: nat,
) -> Result<(bool, BuilderV), DiagV>
    decreases fuel, 0nat, 0nat,
{
    match h.regex {
        Some(lit) => match spec_push_regex(b, lit, ctx) {
            Ok(b2) => Ok((true, b2)),
            Err(d) => Err(d),
        },
        None => match h.format {
            Some(f) => {
                if fuel == 0 {
                    Err(spec_recursion_diag(f.span))
                } else {
                    match spec_push_format(b, f.parts, f.span, ctx, (fuel - 1) as nat) {
                        Ok(b2) => Ok((true, b2)),
                        Err(d) => Err(d),
                    }
                }
            },
            None => Ok((false, b)),
        },
    }
}

/// The effect of one raw regex fragment: its group names are rewritten left
/// to right, each becoming a capture slot through `spec_set_capture`; the
/// result is the rewritten text and whether any group, and in particular the
/// whole-value group, was seen.
pub open spec fn spec_rewrite_caps(
    b: BuilderV,
    s: Seq<char>,
    i: int,
    ctx: ContextV,
    span: Span,
    acc: Seq<char>,
    has_cap: bool,
    has_empty: bool,
) -> Result<(BuilderV, Seq<char>, bool, bool), DiagV>
    decreases s.len() - i,
    via spec_rewrite_caps_dec
{
    if i < 0 || i >= s.len() {
        Ok((b, acc, has_cap, has_empty))
    } else {
        match crate::rawregex::spec_group_open_at(s, i) {
            Some(g) => {
                let name = s.subrange(i + 4, g);
                match spec_set_capture(b, ctx, spec_path_of(name), span) {
                    Err(d) => Err(d),
                    Ok((b2, gname)) => spec_rewrite_caps(
                        b2,
                        s,
                        g + 1,
                        ctx,
                        span,
                        acc + "(?P<"@ + gname + ">"@,
                        true,
                        has_empty || gname == spec_empty_name(),
                    ),
                }
            },
            None => spec_rewrite_caps(b, s, i + 1, ctx, span, acc + seq![s[i]], has_cap, has_empty),
        }
    }
}

#[via_fn]
proof fn spec_rewrite_caps_dec(
    b: BuilderV,
    s: Seq<char>,
    i: int,
    ctx: ContextV,
    span: Span,
    acc: Seq<char>,
    has_cap: bool,
    has_empty: bool,
) {
    if 0 <= i < s.len() && crate::rawregex::spec_group_open_at(s, i) is Some {
        crate::rawregex::lemma_run_name_bounds(s.skip(i + 4));
    }
}

/// The diagnostic for a whole-value group outside a variant's regex.
pub open spec fn spec_empty_in_record_diag(span: Span) -> DiagV {
    DiagV {
        span,
        kind: DiagnosticKind::InvalidRegexFragment,
        detail: "empty capture name"@,
    }
}

/// The effect of a raw regex directive on the planner. The fragment must
/// validate, with its names rewritten to plain identifiers, before anything
/// is assigned. A whole-value group is allowed only in a variant, where the
/// whole fragment becomes one raw node with that group replaced by the
/// style-rendered tag; in a field context a fragment without any group is
/// wrapped whole into the field's own capture group.
pub open spec fn spec_push_regex(b: BuilderV, lit: SpannedStrV, ctx: ContextV) -> Result<
    BuilderV,
    DiagV,
> {
    if !crate::rx::spec_is_valid_regex(
        crate::rawregex::spec_debug_names(lit.text),
    ) {
        Err(spec_invalid_regex_diag(lit.span, lit.text))
    } else {
        match spec_rewrite_caps(b, lit.text, 0, ctx, lit.span, Seq::empty(), false, false) {
            Err(d) => Err(d),
            Ok((b1, text, has_cap, has_empty)) => {
                if has_empty {
                    match ctx {
                        ContextV::Variant { tag, style, .. } => {
                            let tag_lit = crate::prog::spec_escape(
                                crate::style::spec_style_apply(style, tag),
                            );
                            Ok(
                                spec_builder_push_frag(
                                    b1,
                                    FragV::Raw(
                                        crate::rawregex::spec_expand_empty(text, 0, tag_lit),
                                    ),
                                ),
                            )
                        },
                        _ => Err(spec_empty_in_record_diag(lit.span)),
                    }
                } else if ctx is Field && !has_cap {
                    match spec_set_capture(b1, ctx, Seq::empty(), lit.span) {
                        Err(d) => Err(d),
                        Ok((b2, name)) => Ok(
                            spec_builder_push_frag(
                                b2,
                                FragV::Raw("(?P<"@ + name + ">"@ + text + ")"@),
                            ),
                        ),
                    }
                } else {
                    Ok(spec_builder_push_frag(b1, FragV::Raw(text)))
                }
            },
        }
    }
}

impl ParserBuilder {
    /// One entry per declared field, slots from one, nothing pushed yet.
    pub fn new(fields: &Vec<FieldDecl>) -> (r: ParserBuilder)
        ensures
            r@ == spec_builder_new(fields.deep_view()),
    {
        let mut entries: Vec<FieldEntry> = Vec::new();
        let mut i: usize = 0;
        while i < fields.len()
            invariant
                i <= fields@.len(),
                entries@.len() == i,
                forall|k: int|
                    0 <= k < i ==> (#[trigger] entries@[k])@ == spec_entry_of(
                        fields@[k]@,
                    ),
            decreases fields@.len() - i,
        {
            let f = &fields[i];
            let e = FieldEntry {
                key: f.key.clone(),
                ty: f.ty.clone(),
                span: f.span,
                hattrs: f.hattrs.clone(),
                deep_captures: Vec::new(),
                capture: None,
                use_default: f.hattrs.default_self.is_some(),
            };
            proof {
                assert(e@.deep_captures =~= Seq::<DeepCaptureV>::empty());
                assert(e@ == spec_entry_of(fields@[i as int]@));
            }
            entries.push(e);
            i += 1;
        }
        let r = ParserBuilder {
            capture_next: 1,
            parse_format: ParseFormat::new(),
            fields: entries,
            use_default: false,
            span: Span::call_site(),
            new_expr: None,
        };
        proof {
            crate::lemma_vec_deep_view_is(r.fields);
            crate::lemma_vec_deep_view_is(*fields);
            assert(r@.fields =~= fields.deep_view().map_values(
                |f: FieldDeclV| spec_entry_of(f),
            ));
        }
        r
    }

    /// Finds the entry for a key, as the first-match search does.
    fn entry_index(&self, key: &FieldKey) -> (r: Option<usize>)
        ensures
            r matches Some(i) ==> i < self.fields@.len() && spec_find_field(self@.fields, key@)
                == Some(i as int),
            r is None ==> spec_find_field(self@.fields, key@) is None,
    {
        let mut i: usize = 0;
        proof {
            crate::lemma_vec_deep_view_is(self.fields);
            lemma_find_field_char(self@.fields, key@);
        }
        while i < self.fields.len()
            invariant
                i <= self.fields@.len(),
                self@.fields.len() == self.fields@.len(),
                forall|j: int| 0 <= j < i ==> self@.fields[j].key != key@,
                forall|k: int|
                    0 <= k < self.fields@.len() ==> #[trigger] self@.fields[k] == self.fields@[
                        k
                    ].deep_view(),
            decreases self.fields@.len() - i,
        {
            if &self.fields[i].key == key {
                proof {
                    lemma_find_field_char(self@.fields, key@);
                    assert(self@.fields[i as int].key == key@);
                }
                return Some(i);
            }
            i += 1;
        }
        proof {
            lemma_find_field_char(self@.fields, key@);
        }
        None
    }

    /// Assigns or reuses the capture slot a variable reference parses into,
    /// and returns the name of its capture group.
    pub fn set_capture(&mut self, context: &ParseContext, keys: &Vec<FieldKey>, span: Span) -> (r:
        Result<String, Diagnostic>)
        ensures
            match spec_set_capture(old(self)@, context@, keys.deep_view(), span) {
                Ok((b, name)) => r matches Ok(n) && final(self)@ == b && n@ == name,
                Err(d) => r matches Err(e) && e@ == d,
            },
    {
        proof {
            crate::lemma_vec_deep_view_is(*keys);
        }
        let is_field_ctx = matches!(context, ParseContext::Field { .. });
        if !is_field_ctx && keys.len() == 0 {
            let mut n = String::new();
            n.append("empty");
            proof {
                assert(keys.deep_view() =~= Seq::<KeyV>::empty());
            }
            return Ok(n);
        }
        let (field_key, sub): (&FieldKey, Vec<FieldKey>) = match context {
            ParseContext::Field { key, .. } => (key, crate::schema::clone_keys(keys)),
            _ => (&keys[0], keys_suffix(keys, 1)),
        };
        proof {
            if context@ is Field {
                assert(sub.deep_view() == keys.deep_view());
            } else {
                assert(field_key@ == keys.deep_view()[0]);
            }
        }
        let i = match self.entry_index(field_key) {
            Some(i) => i,
            None => {
                return Err(
                    Diagnostic::new(span, DiagnosticKind::UnknownField, field_key.to_text()),
                );
            },
        };
        let next = self.capture_next;
        let ghost bprev = self@;
        let ghost vprev = self.fields;
        let ghost subm = sub.deep_view();
        let idx: usize;
        if sub.len() == 0 {
            proof {
                assert(subm =~= Seq::<KeyV>::empty());
            }
            let e = &mut self.fields[i];
            match e.capture {
                Some(existing) => {
                    idx = existing;
                    proof {
                        assert(!spec_entry_allocates(bprev.fields[i as int], subm));
                    }
                },
                None => {
                    if next == usize::MAX {
                        return Err(
                            Diagnostic::new(
                                span,
                                DiagnosticKind::MalformedPattern,
                                too_many_captures_text(),
                            ),
                        );
                    }
                    e.capture = Some(next);
                    idx = next;
                    self.capture_next = next + 1;
                },
            }
        } else {
            let e = &mut self.fields[i];
            let found = find_deep_slot(&e.deep_captures, &sub);
            match found {
                Some(existing) => {
                    idx = existing;
                },
                None => {
                    if next == usize::MAX {
                        return Err(
                            Diagnostic::new(
                                span,
                                DiagnosticKind::MalformedPattern,
                                too_many_captures_text(),
                            ),
                        );
                    }
                    let ghost dprev = e.deep_captures;
                    let dc = DeepCapture { path: sub, slot: next };
                    let ghost dcg = dc;
                    e.deep_captures.push(dc);
                    proof {
                        crate::lemma_vec_push_deep_view(e.deep_captures, dprev, dcg);
                    }
                    idx = next;
                    self.capture_next = next + 1;
                },
            }
        }
        proof {
            crate::lemma_vec_deep_view_is(vprev);
            crate::lemma_vec_deep_view_is(self.fields);
            let (espec, idxspec, nextspec) = spec_entry_set_capture(
                bprev.fields[i as int],
                subm,
                bprev.capture_next,
            );
            assert(idx == idxspec);
            assert(self@.capture_next == nextspec);
            assert forall|k: int| 0 <= k < self@.fields.len() implies #[trigger] self@.fields[k]
                == bprev.fields.update(i as int, espec)[k] by {
                if k != i {
                    assert(self.fields@[k] == vprev@[k]);
                }
            }
            assert(self@.fields =~= bprev.fields.update(i as int, espec));
        }
        Ok(capture_name(idx))
    }

    /// Appends a fragment to the parse form.
    pub fn push_fragment(&mut self, frag: RegexFragment)
        ensures
            final(self)@ == spec_builder_push_frag(old(self)@, frag@),
    {
        self.parse_format.push_fragment(frag);
    }

    /// Walks a pattern's parts in order, extending the parse form and
    /// assigning slots as each part demands.
    pub fn push_format(
        &mut self,
        parts: &Vec<crate::format::DisplayFormatPart>,
        fspan: Span,
        context: &ParseContext,
        fuel: usize,
    ) -> (r: Result<(), Diagnostic>)
        ensures
            match spec_push_format(old(self)@, parts.deep_view(), fspan, context@, fuel as nat) {
                Ok(b) => r is Ok && final(self)@ == b,
                Err(d) => r matches Err(e) && e@ == d,
            },
        decreases fuel, 3int, 0int,
    {
        let ghost b0 = self@;
        let ghost partsm = parts.deep_view();
        let ghost ctxv = context@;
        let mut i: usize = 0;
        proof {
            crate::lemma_vec_deep_view_is(*parts);
            assert(partsm.skip(0) =~= partsm);
        }
        while i < parts.len()
            invariant
                i <= parts@.len(),
                b0 == old(self)@,
                partsm == parts.deep_view(),
                partsm.len() == parts@.len(),
                ctxv == context@,
                forall|k: int|
                    0 <= k < parts@.len() ==> #[trigger] partsm[k] == parts@[k].deep_view(),
                spec_push_format(b0, partsm, fspan, ctxv, fuel as nat) == spec_push_format(
                    self@,
                    partsm.skip(i as int),
                    fspan,
                    ctxv,
                    fuel as nat,
                ),
            decreases parts@.len() - i,
        {
            proof {
                assert(partsm.skip(i as int)[0] == partsm[i as int]);
                assert(partsm.skip(i as int).skip(1) =~= partsm.skip(i + 1 as int));
            }
            match &parts[i] {
                crate::format::DisplayFormatPart::Str(s) => {
                    self.push_str(s.as_str());
                },
                crate::format::DisplayFormatPart::EscapedBeginBracket => {
                    self.push_str("{");
                },
                crate::format::DisplayFormatPart::EscapedEndBracket => {
                    self.push_str("}");
                },
                crate::format::DisplayFormatPart::Var { arg, format_spec: _ } => {
                    let keys = FieldKey::from_str_deep(arg.as_str());
                    proof {
                        crate::lemma_vec_deep_view_is(keys);
                        assert(keys.deep_view() =~= spec_path_of(arg@));
                    }
                    let is_variant = matches!(context, ParseContext::Variant { .. });
                    if is_variant && keys.len() == 0 {
                        match context {
                            ParseContext::Variant { tag, style, .. } => {
                                let rendered = style.apply(tag.as_str());
                                self.push_str(rendered.as_str());
                            },
                            _ => {},
                        }
                    } else if keys.len() == 1 {
                        proof {
                            assert(keys.deep_view()[0] == keys@[0]@);
                        }
                        match self.push_field(&keys[0], fspan, fuel) {
                            Ok(()) => {},
                            Err(e) => {
                                return Err(e);
                            },
                        }
                    } else {
                        match self.set_capture(context, &keys, fspan) {
                            Ok(name) => {
                                self.push_fragment(RegexFragment::Cap(name));
                            },
                            Err(e) => {
                                return Err(e);
                            },
                        }
                    }
                },
            }
            i += 1;
        }
        proof {
            assert(partsm.skip(partsm.len() as int) =~= Seq::<FormatPartV>::empty());
        }
        Ok(())
    }

    /// Expands a one-key reference: the field's own directives, or a direct
    /// capture slot.
    pub fn push_field(&mut self, key: &FieldKey, span: Span, fuel: usize) -> (r: Result<
        (),
        Diagnostic,
    >)
        ensures
            match spec_push_field(old(self)@, key@, span, fuel as nat) {
                Ok(b) => r is Ok && final(self)@ == b,
                Err(d) => r matches Err(e) && e@ == d,
            },
        decreases fuel, 2int, 0int,
    {
        let i = match self.entry_index(key) {
            Some(i) => i,
            None => {
                return Err(
                    Diagnostic::new(span, DiagnosticKind::UnknownField, key.to_text()),
                );
            },
        };
        if fuel == 0 {
            return Err(
                Diagnostic::new(
                    span,
                    DiagnosticKind::ConflictingDirective,
                    recursive_expansion_text(),
                ),
            );
        }
        let h = self.fields[i].hattrs.clone();
        let fctx = ParseContext::Field { key: key.clone(), span: self.fields[i].span };
        proof {
            crate::lemma_vec_deep_view_is(self.fields);
            assert(h@ == self@.fields[i as int].hattrs);
            assert(fctx@ == (ContextV::Field { key: key@, span: self@.fields[i as int].span }));
        }
        self.push_attrs(&h, &fctx, fuel - 1)
    }

    /// Applies a scope's regex or pattern directive, falling back to the
    /// scope's default pattern.
    pub fn push_attrs(
        &mut self,
        hattrs: &HelperAttributes,
        context: &ParseContext,
        fuel: usize,
    ) -> (r: Result<(), Diagnostic>)
        ensures
            match spec_push_attrs(old(self)@, hattrs@, context@, fuel as nat) {
                Ok(b) => r is Ok && final(self)@ == b,
                Err(d) => r matches Err(e) && e@ == d,
            },
        decreases fuel, 1int, 0int,
    {
        let handled = match self.try_push_attrs(hattrs, context, fuel) {
            Ok(h) => h,
            Err(e) => {
                return Err(e);
            },
        };
        if handled {
            return Ok(());
        }
        if fuel == 0 {
            return Err(
                Diagnostic::new(
                    context_span(context),
                    DiagnosticKind::ConflictingDirective,
                    recursive_expansion_text(),
                ),
            );
        }
        let (parts, sp) = match default_format_parts(context) {
            Ok(p) => p,
            Err(e) => {
                return Err(e);
            },
        };
        self.push_format(&parts, sp, context, fuel - 1)
    }

    /// Applies the scope's own regex or pattern directive, if it has one.
    pub fn try_push_attrs(
        &mut self,
        hattrs: &HelperAttributes,
        context: &ParseContext,
        fuel: usize,
    ) -> (r: Result<bool, Diagnostic>)
        ensures
            match spec_try_push_attrs(old(self)@, hattrs@, context@, fuel as nat) {
                Ok((handled, b)) => r matches Ok(h) && h == handled && (handled
                    ==> final(self)@ == b) && (!handled ==> final(self)@ == old(self)@),
                Err(d) => r matches Err(e) && e@ == d,
            },
        decreases fuel, 0int, 0int,
    {
        if let Some(lit) = &hattrs.regex {
            match self.push_regex(lit, context) {
                Ok(()) => Ok(true),
                Err(e) => Err(e),
            }
        } else if let Some(f) = &hattrs.format {
            if fuel == 0 {
                return Err(
                    Diagnostic::new(
                        f.span,
                        DiagnosticKind::ConflictingDirective,
                        recursive_expansion_text(),
                    ),
                );
            }
            match self.push_format(&f.parts, f.span, context, fuel - 1) {
                Ok(()) => Ok(true),
                Err(e) => Err(e),
            }
        } else {
            Ok(false)
        }
    }

    /// Splices one raw regex directive: validates it, rewrites its group
    /// names into slots, and pushes the result as a raw fragment.
    pub fn push_regex(&mut self, lit: &crate::schema::SpannedStr, context: &ParseContext) -> (r:
        Result<(), Diagnostic>)
        ensures
            match spec_push_regex(old(self)@, lit@, context@) {
                Ok(b) => r is Ok && final(self)@ == b,
                Err(d) => r matches Err(e) && e@ == d,
            },
    {
        let dbg = crate::rawregex::debug_names(lit.text.as_str());
        if !crate::rx::regex_fragment_ok(dbg.as_str()) {
            return Err(
                Diagnostic::new(
                    lit.span,
                    DiagnosticKind::InvalidRegexFragment,
                    lit.text.clone(),
                ),
            );
        }
        let v = crate::text::chars_of(lit.text.as_str());
        let ghost b0 = self@;
        let ghost ctxv = context@;
        let mut acc = String::new();
        let mut has_cap = false;
        let mut has_empty = false;
        let mut i: usize = 0;
        while i < v.len()
            invariant
                i <= v@.len(),
                b0 == old(self)@,
                v@ == lit.text@,
                ctxv == context@,
                crate::rx::spec_is_valid_regex(crate::rawregex::spec_debug_names(lit.text@)),
                spec_rewrite_caps(b0, v@, 0, ctxv, lit.span, Seq::empty(), false, false)
                    == spec_rewrite_caps(
                    self@,
                    v@,
                    i as int,
                    ctxv,
                    lit.span,
                    acc@,
                    has_cap,
                    has_empty,
                ),
            decreases v@.len() - i,
        {
            let ghost sprev = self@;
            let ghost accprev = acc@;
            let ghost hcprev = has_cap;
            let ghost heprev = has_empty;
            match crate::rawregex::group_open_at(&v, i) {
                Some(g) => {
                    let namev = crate::rawregex::subvec(&v, i + 4, g);
                    let names = crate::text::string_of(&namev);
                    let keys = FieldKey::from_str_deep(names.as_str());
                    proof {
                        crate::lemma_vec_deep_view_is(keys);
                        assert(keys.deep_view() =~= spec_path_of(
                            v@.subrange(i + 4 as int, g as int),
                        ));
                    }
                    let gname = match self.set_capture(context, &keys, lit.span) {
                        Ok(n) => n,
                        Err(e) => {
                            proof {
                                assert(spec_rewrite_caps(
                                    sprev, v@, i as int, ctxv, lit.span, accprev, hcprev, heprev,
                                ) == Err::<(BuilderV, Seq<char>, bool, bool), DiagV>(e@));
                            }
                            return Err(e);
                        },
                    };
                    let ghost acc_old = acc@;
                    acc.append("(?P<");
                    acc.append(gname.as_str());
                    acc.append(">");
                    has_cap = true;
                    if crate::text::str_eq(gname.as_str(), "empty") {
                        has_empty = true;
                    }
                    proof {
                        assert(acc@ =~= acc_old + "(?P<"@ + gname@ + ">"@);
                        assert(has_empty == (heprev || gname@ == spec_empty_name()));
                        assert(spec_rewrite_caps(
                            sprev, v@, i as int, ctxv, lit.span, accprev, hcprev, heprev,
                        ) == spec_rewrite_caps(
                            self@, v@, g + 1 as int, ctxv, lit.span, acc@, true, has_empty,
                        ));
                    }
                    i = g + 1;
                },
                None => {
                    crate::text::push_char(&mut acc, v[i]);
                    proof {
                        assert(acc@ =~= accprev + seq![v@[i as int]]);
                        assert(spec_rewrite_caps(
                            sprev, v@, i as int, ctxv, lit.span, accprev, hcprev, heprev,
                        ) == spec_rewrite_caps(
                            self@, v@, i + 1 as int, ctxv, lit.span, acc@, has_cap, has_empty,
                        ));
                    }
                    i += 1;
                },
            }
        }
        // The scan consumed the whole fragment; what remains is to place it.
        proof {
            assert(spec_rewrite_caps(
                self@,
                v@,
                v@.len() as int,
                ctxv,
                lit.span,
                acc@,
                has_cap,
                has_empty,
            ) == Ok::<(BuilderV, Seq<char>, bool, bool), DiagV>(
                (self@, acc@, has_cap, has_empty),
            ));
        }
        if has_empty {
            match context {
                ParseContext::Variant { tag, style, .. } => {
                    let rendered = style.apply(tag.as_str());
                    let tag_lit = crate::prog::escape_literal(rendered.as_str());
                    let accv = crate::text::chars_of(acc.as_str());
                    let expanded = crate::rawregex::expand_empty(&accv, tag_lit.as_str());
                    self.push_fragment(RegexFragment::Raw(expanded));
                    Ok(())
                },
                _ => Err(
                    Diagnostic::new(
                        lit.span,
                        DiagnosticKind::InvalidRegexFragment,
                        empty_capture_text(),
                    ),
                ),
            }
        } else {
            let is_field = matches!(context, ParseContext::Field { .. });
            if is_field && !has_cap {
                let no_keys: Vec<FieldKey> = Vec::new();
                proof {
                    assert(no_keys.deep_view() =~= Seq::<KeyV>::empty());
                }
                let name = match self.set_capture(context, &no_keys, lit.span) {
                    Ok(n) => n,
                    Err(e) => {
                        return Err(e);
                    },
                };
                let mut wrapped = String::new();
                wrapped.append("(?P<");
                wrapped.append(name.as_str());
                wrapped.append(">");
                wrapped.append(acc.as_str());
                wrapped.append(")");
                proof {
                    assert(wrapped@ =~= "(?P<"@ + name@ + ">"@ + acc@ + ")"@);
                }
                self.push_fragment(RegexFragment::Raw(wrapped));
                Ok(())
            } else {
                self.push_fragment(RegexFragment::Raw(acc));
                Ok(())
            }
        }
    }

    /// Appends literal text to the parse form.
    pub fn push_str(&mut self, s: &str)
        ensures
            final(self)@ == (BuilderV { parse_format: spec_pf_push_str(old(self)@.parse_format, s@), ..old(self)@ }),
    {
        self.parse_format.push_str(s);
    }

    /// Marks the scope's defaults and remembers the template span.
    pub fn apply_attrs(&mut self, hattrs: &HelperAttributes) -> (r: Result<(), Diagnostic>)
        ensures
            match spec_apply_attrs(old(self)@, hattrs@) {
                Ok(b) => r is Ok && final(self)@ == b,
                Err(d) => r matches Err(e) && e@ == d,
            },
    {
        if hattrs.default_self.is_some() {
            self.use_default = true;
        }
        let ghost b1 = self@;
        let ghost keysm = hattrs@.default_fields;
        let mut i: usize = 0;
        proof {
            assert(keysm.skip(0) =~= keysm);
        }
        while i < hattrs.default_fields.len()
            invariant
                i <= hattrs.default_fields@.len(),
                keysm == hattrs@.default_fields,
                keysm.len() == hattrs.default_fields@.len(),
                forall|k: int|
                    0 <= k < keysm.len() ==> #[trigger] keysm[k] == hattrs.default_fields@[
                        k
                    ].deep_view(),
                b1 == (if hattrs@.default_self is Some {
                    BuilderV { use_default: true, ..old(self)@ }
                } else {
                    old(self)@
                }),
                spec_apply_default_fields(self@, keysm.skip(i as int))
                    == spec_apply_default_fields(b1, keysm),
            decreases hattrs.default_fields@.len() - i,
        {
            proof {
                crate::lemma_vec_deep_view_is(hattrs.default_fields);
                assert(keysm.skip(i as int)[0] == keysm[i as int]);
                assert(keysm.skip(i as int).skip(1) =~= keysm.skip(i + 1 as int));
            }
            let key = &hattrs.default_fields[i];
            match self.entry_index(key) {
                None => {
                    let d = Diagnostic::new(
                        self.span,
                        DiagnosticKind::UnknownField,
                        key.to_text(),
                    );
                    proof {
                        assert(spec_apply_default_fields(self@, keysm.skip(i as int))
                            == Err::<BuilderV, DiagV>(
                            spec_unknown_field_diag(self@.span, keysm[i as int]),
                        ));
                        assert(d@ == spec_unknown_field_diag(self@.span, keysm[i as int]));
                    }
                    return Err(d);
                },
                Some(idx) => {
                    let ghost bprev = self@;
                    let ghost vprev = self.fields;
                    let e = &mut self.fields[idx];
                    e.use_default = true;
                    proof {
                        crate::lemma_vec_deep_view_is(vprev);
                        crate::lemma_vec_deep_view_is(self.fields);
                        let target = bprev.fields.update(
                            idx as int,
                            FieldEntryV { use_default: true, ..bprev.fields[idx as int] },
                        );
                        assert forall|k: int| 0 <= k < self@.fields.len() implies #[trigger] self@
                            .fields[k] == target[k] by {
                            if k != idx {
                                assert(self.fields@[k] == vprev@[k]);
                            }
                        }
                        assert(self@.fields =~= target);
                    }
                },
            }
            i += 1;
        }
        proof {
            assert(keysm.skip(keysm.len() as int) =~= Seq::<KeyV>::empty());
        }
        match hattrs.from_str_format_span() {
            Some(sp) => {
                self.span = sp;
            },
            None => {},
        }
        Ok(())
    }
}

} // verus!
