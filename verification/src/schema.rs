//! The schema model: what the compiler knows about the type it compiles
//! patterns for. A schema is a record (ordered fields) or a union of
//! record-like variants; types and directives are carried as plain values at
//! the interface boundary with the host.

use vstd::prelude::*;
use crate::diag::Span;
use crate::format::{DisplayFormat, FormatV};
use crate::key::{FieldKey, KeyV, spec_key_text};
use crate::style::DisplayStyle;
use crate::text::spec_decimal;

verus! {

/// A string together with the source span it was written at.
#[derive(Debug)]
pub struct SpannedStr {
    pub text: String,
    pub span: Span,
}

/// The mathematical value of a spanned string.
pub struct SpannedStrV {
    pub text: Seq<char>,
    pub span: Span,
}

impl View for SpannedStr {
    type V = SpannedStrV;

    open spec fn view(&self) -> SpannedStrV {
        SpannedStrV { text: self.text@, span: self.span }
    }
}

impl DeepView for SpannedStr {
    type V = SpannedStrV;

    open spec fn deep_view(&self) -> SpannedStrV {
        self.view()
    }
}

impl Clone for SpannedStr {
    fn clone(&self) -> (r: Self)
        ensures
            r@ == self@,
    {
        SpannedStr { text: self.text.clone(), span: self.span }
    }
}

/// What the compiler reads of a field's declared type: its textual form, for
/// bound obligations, and whether it mentions a generic parameter of the
/// schema.
#[derive(Debug)]
pub struct TypeInfo {
    pub text: String,
    pub mentions_generics: bool,
}

/// The mathematical value of a type description.
pub struct TypeInfoV {
    pub text: Seq<char>,
    pub mentions_generics: bool,
}

impl View for TypeInfo {
    type V = TypeInfoV;

    open spec fn view(&self) -> TypeInfoV {
        TypeInfoV { text: self.text@, mentions_generics: self.mentions_generics }
    }
}

impl DeepView for TypeInfo {
    type V = TypeInfoV;

    open spec fn deep_view(&self) -> TypeInfoV {
        self.view()
    }
}

impl Clone for TypeInfo {
    fn clone(&self) -> (r: Self)
        ensures
            r@ == self@,
    {
        TypeInfo { text: self.text.clone(), mentions_generics: self.mentions_generics }
    }
}

/// One entry of an explicit bound list: a type to be given the capability
/// bound, a verbatim predicate, or the marker `..` that re-enables automatic
/// inference.
#[derive(Debug)]
pub enum Bound {
    Type(String),
    Pred(String),
    Default,
}

/// The mathematical value of a bound entry.
pub enum BoundV {
    Type(Seq<char>),
    Pred(Seq<char>),
    Default,
}

impl View for Bound {
    type V = BoundV;

    open spec fn view(&self) -> BoundV {
        match self {
            Bound::Type(s) => BoundV::Type(s@),
            Bound::Pred(s) => BoundV::Pred(s@),
            Bound::Default => BoundV::Default,
        }
    }
}

impl DeepView for Bound {
    type V = BoundV;

    open spec fn deep_view(&self) -> BoundV {
        self.view()
    }
}

impl Clone for Bound {
    fn clone(&self) -> (r: Self)
        ensures
            r@ == self@,
    {
        match self {
            Bound::Type(s) => Bound::Type(s.clone()),
            Bound::Pred(s) => Bound::Pred(s.clone()),
            Bound::Default => Bound::Default,
        }
    }
}

/// Clones a bound list, keeping its value.
pub fn clone_bounds(v: &Vec<Bound>) -> (r: Vec<Bound>)
    ensures
        r.deep_view() == v.deep_view(),
{
    let mut r: Vec<Bound> = Vec::new();
    let mut i: usize = 0;
    while i < v.len()
        invariant
            i <= v@.len(),
            r@.len() == i,
            forall|k: int| 0 <= k < i ==> (#[trigger] r@[k])@ == v@[k]@,
        decreases v@.len() - i,
    {
        r.push(v[i].clone());
        i += 1;
    }
    proof {
        let m1 = r.deep_view();
        let m2 = v.deep_view();
        assert(m1 == Seq::new(r@.len(), |j: int| r@[j].deep_view()));
        assert(m2 == Seq::new(v@.len(), |j: int| v@[j].deep_view()));
        assert forall|k: int| 0 <= k < m1.len() implies m1[k] == m2[k] by {
            assert(r@[k]@ == v@[k]@);
        }
        assert(m1 =~= m2);
    }
    r
}

/// Clones a key list, keeping its value.
pub fn clone_keys(v: &Vec<FieldKey>) -> (r: Vec<FieldKey>)
    ensures
        r.deep_view() == v.deep_view(),
{
    let mut r: Vec<FieldKey> = Vec::new();
    let mut i: usize = 0;
    while i < v.len()
        invariant
            i <= v@.len(),
            r@.len() == i,
            forall|k: int| 0 <= k < i ==> (#[trigger] r@[k])@ == v@[k]@,
        decreases v@.len() - i,
    {
        r.push(v[i].clone());
        i += 1;
    }
    proof {
        let m1 = r.deep_view();
        let m2 = v.deep_view();
        assert(m1 == Seq::new(r@.len(), |j: int| r@[j].deep_view()));
        assert(m2 == Seq::new(v@.len(), |j: int| v@[j].deep_view()));
        assert forall|k: int| 0 <= k < m1.len() implies m1[k] == m2[k] by {
            assert(r@[k]@ == v@[k]@);
        }
        assert(m1 =~= m2);
    }
    r
}

/// The directives a type, variant, or field carries: the format template,
/// casing style, explicit bound lists for each direction, a raw regex, the
/// default markers, and a custom construction expression. All are optional;
/// absent ones fall back per scope.
#[derive(Debug)]
pub struct HelperAttributes {
    pub format: Option<DisplayFormat>,
    pub style: Option<DisplayStyle>,
    pub bound_display: Option<Vec<Bound>>,
    pub bound_from_str: Option<Vec<Bound>>,
    pub regex: Option<SpannedStr>,
    pub default_self: Option<Span>,
    pub default_fields: Vec<FieldKey>,
    pub new_expr: Option<String>,
}

/// The mathematical value of a directive set.
pub struct HelperAttributesV {
    pub format: Option<FormatV>,
    pub style: Option<DisplayStyle>,
    pub bound_display: Option<Seq<BoundV>>,
    pub bound_from_str: Option<Seq<BoundV>>,
    pub regex: Option<SpannedStrV>,
    pub default_self: Option<Span>,
    pub default_fields: Seq<KeyV>,
    pub new_expr: Option<Seq<char>>,
}

impl View for HelperAttributes {
    type V = HelperAttributesV;

    open spec fn view(&self) -> HelperAttributesV {
        HelperAttributesV {
            format: self.format.deep_view(),
            style: self.style,
            bound_display: self.bound_display.deep_view(),
            bound_from_str: self.bound_from_str.deep_view(),
            regex: self.regex.deep_view(),
            default_self: self.default_self,
            default_fields: self.default_fields.deep_view(),
            new_expr: self.new_expr.deep_view(),
        }
    }
}

impl DeepView for HelperAttributes {
    type V = HelperAttributesV;

    open spec fn deep_view(&self) -> HelperAttributesV {
        self.view()
    }
}

impl Clone for HelperAttributes {
    fn clone(&self) -> (r: Self)
        ensures
            r@ == self@,
    {
        let format = match &self.format {
            Some(f) => Some(f.clone()),
            None => None,
        };
        let bound_display = match &self.bound_display {
            Some(b) => Some(clone_bounds(b)),
            None => None,
        };
        let bound_from_str = match &self.bound_from_str {
            Some(b) => Some(clone_bounds(b)),
            None => None,
        };
        let regex = match &self.regex {
            Some(s) => Some(s.clone()),
            None => None,
        };
        let new_expr = match &self.new_expr {
            Some(s) => Some(s.clone()),
            None => None,
        };
        let r = HelperAttributes {
            format,
            style: self.style,
            bound_display,
            bound_from_str,
            regex,
            default_self: self.default_self,
            default_fields: clone_keys(&self.default_fields),
            new_expr,
        };
        proof {
            assert(r@.format == self@.format);
            assert(r@.bound_display == self@.bound_display);
            assert(r@.bound_from_str == self@.bound_from_str);
            assert(r@.regex == self@.regex);
            assert(r@.new_expr == self@.new_expr);
        }
        r
    }
}

impl HelperAttributes {
    /// A directive set with nothing in it.
    pub fn empty() -> (r: HelperAttributes)
        ensures
            r@.format is None,
            r@.style is None,
            r@.bound_display is None,
            r@.bound_from_str is None,
            r@.regex is None,
            r@.default_self is None,
            r@.default_fields == Seq::<KeyV>::empty(),
            r@.new_expr is None,
    {
        let r = HelperAttributes {
            format: None,
            style: None,
            bound_display: None,
            bound_from_str: None,
            regex: None,
            default_self: None,
            default_fields: Vec::new(),
            new_expr: None,
        };
        proof {
            assert(r@.default_fields =~= Seq::<KeyV>::empty());
        }
        r
    }

    /// The span that locates this scope's parse-direction template: the raw
    /// regex's span if one is given, else the format template's.
    pub fn from_str_format_span(&self) -> (r: Option<Span>)
        ensures
            r == spec_from_str_format_span(self@),
    {
        if let Some(lit) = &self.regex {
            return Some(lit.span);
        }
        if let Some(format) = &self.format {
            return Some(format.span);
        }
        None
    }

    /// The explicit bound list in force for the parse direction: its own, or
    /// the display-direction list as a fallback.
    pub fn bound_from_str_resolved(&self) -> (r: Option<Vec<Bound>>)
        ensures
            r.deep_view() == spec_bound_from_str_resolved(self@),
    {
        match &self.bound_from_str {
            Some(b) => Some(clone_bounds(b)),
            None => match &self.bound_display {
                Some(b) => Some(clone_bounds(b)),
                None => None,
            },
        }
    }
}

/// The span locating a scope's parse-direction template.
pub open spec fn spec_from_str_format_span(h: HelperAttributesV) -> Option<Span> {
    match h.regex {
        Some(lit) => Some(lit.span),
        None => match h.format {
            Some(f) => Some(f.span),
            None => None,
        },
    }
}

/// The explicit parse-direction bound list, with the display list as fallback.
pub open spec fn spec_bound_from_str_resolved(h: HelperAttributesV) -> Option<Seq<BoundV>> {
    match h.bound_from_str {
        Some(b) => Some(b),
        None => h.bound_display,
    }
}

/// One declared field: its key, its type as the compiler sees it, where it
/// was declared, and its own directives.
#[derive(Debug)]
pub struct FieldDecl {
    pub key: FieldKey,
    pub ty: TypeInfo,
    pub span: Span,
    pub hattrs: HelperAttributes,
}

/// The mathematical value of a field declaration.
pub struct FieldDeclV {
    pub key: KeyV,
    pub ty: TypeInfoV,
    pub span: Span,
    pub hattrs: HelperAttributesV,
}

impl View for FieldDecl {
    type V = FieldDeclV;

    open spec fn view(&self) -> FieldDeclV {
        FieldDeclV {
            key: self.key@,
            ty: self.ty@,
            span: self.span,
            hattrs: self.hattrs@,
        }
    }
}

impl DeepView for FieldDecl {
    type V = FieldDeclV;

    open spec fn deep_view(&self) -> FieldDeclV {
        self.view()
    }
}

/// A record schema: ordered fields under type-level directives.
#[derive(Debug)]
pub struct StructSchema {
    pub span: Span,
    pub hattrs: HelperAttributes,
    pub fields: Vec<FieldDecl>,
}

/// The mathematical value of a record schema.
pub struct StructSchemaV {
    pub span: Span,
    pub hattrs: HelperAttributesV,
    pub fields: Seq<FieldDeclV>,
}

impl View for StructSchema {
    type V = StructSchemaV;

    open spec fn view(&self) -> StructSchemaV {
        StructSchemaV { span: self.span, hattrs: self.hattrs@, fields: self.fields.deep_view() }
    }
}

/// A variant of a union schema: a tag, directives, and record-like fields.
#[derive(Debug)]
pub struct VariantSchema {
    pub span: Span,
    pub ident: String,
    pub hattrs: HelperAttributes,
    pub fields: Vec<FieldDecl>,
}

/// The mathematical value of a variant schema.
pub struct VariantSchemaV {
    pub span: Span,
    pub ident: Seq<char>,
    pub hattrs: HelperAttributesV,
    pub fields: Seq<FieldDeclV>,
}

impl View for VariantSchema {
    type V = VariantSchemaV;

    open spec fn view(&self) -> VariantSchemaV {
        VariantSchemaV {
            span: self.span,
            ident: self.ident@,
            hattrs: self.hattrs@,
            fields: self.fields.deep_view(),
        }
    }
}

impl DeepView for VariantSchema {
    type V = VariantSchemaV;

    open spec fn deep_view(&self) -> VariantSchemaV {
        self.view()
    }
}

/// A union schema: ordered variants under type-level directives.
#[derive(Debug)]
pub struct EnumSchema {
    pub span: Span,
    pub hattrs: HelperAttributes,
    pub variants: Vec<VariantSchema>,
}

/// The mathematical value of a union schema.
pub struct EnumSchemaV {
    pub span: Span,
    pub hattrs: HelperAttributesV,
    pub variants: Seq<VariantSchemaV>,
}

impl View for EnumSchema {
    type V = EnumSchemaV;

    open spec fn view(&self) -> EnumSchemaV {
        EnumSchemaV {
            span: self.span,
            hattrs: self.hattrs@,
            variants: self.variants.deep_view(),
        }
    }
}

/// Distinct fields carry distinct keys.
pub open spec fn spec_keys_unique(fields: Seq<FieldDeclV>) -> bool {
    forall|i: int, j: int|
        0 <= i < j < fields.len() ==> (#[trigger] fields[i].key) != (#[trigger] fields[j].key)
}

/// Finds the first field with the given key.
pub fn field_index_of(fields: &Vec<FieldDecl>, key: &FieldKey) -> (r: Option<usize>)
    ensures
        r matches Some(i) ==> i < fields@.len() && fields@[i as int]@.key == key@ && (forall|j: int|
            0 <= j < i ==> fields@[j]@.key != key@),
        r is None ==> forall|j: int| 0 <= j < fields@.len() ==> fields@[j]@.key != key@,
{
    let mut i: usize = 0;
    while i < fields.len()
        invariant
            i <= fields@.len(),
            forall|j: int| 0 <= j < i ==> fields@[j]@.key != key@,
        decreases fields@.len() - i,
    {
        if &fields[i].key == key {
            return Some(i);
        }
        i += 1;
    }
    None
}

/// The field a one-field record renders by default: the single field's key as
/// text, if the record has exactly one field.
pub open spec fn spec_newtype_field(fields: Seq<FieldDeclV>) -> Option<Seq<char>> {
    if fields.len() == 1 {
        Some(spec_key_text(fields[0].key))
    } else {
        None
    }
}

/// For a record of exactly one field, the text that addresses that field: its
/// name, or `0` for a positional field.
pub fn get_newtype_field(data: &StructSchema) -> (r: Option<String>)
    ensures
        r.deep_view() == spec_newtype_field(data.fields.deep_view()),
{
    if data.fields.len() == 1 {
        Some(data.fields[0].key.to_text())
    } else {
        None
    }
}

} // verus!
