//! Source locations and compile-time diagnostics. Every failure the compiler
//! detects carries the span of the template or regex directive it came from
//! and a kind from a small fixed taxonomy.

use vstd::prelude::*;

verus! {

/// A source location supplied by the host for a directive; carried through
/// unchanged into diagnostics.
#[derive(Clone, Copy, Debug, PartialEq, Eq, Structural)]
pub struct Span {
    pub lo: usize,
    pub hi: usize,
}

impl Span {
    /// The placeholder location used before any directive supplies one.
    pub fn call_site() -> (r: Span)
        ensures
            r == (Span { lo: 0, hi: 0 }),
    {
        Span { lo: 0, hi: 0 }
    }
}

/// The kinds of compile-time failure.
#[derive(Clone, Copy, Debug, PartialEq, Eq, Structural)]
pub enum DiagnosticKind {
    /// The template text does not follow the pattern grammar.
    MalformedPattern,
    /// A path segment names no field of the schema in scope.
    UnknownField,
    /// A field has neither a capture, a recursive sub-pattern, nor a default.
    FieldNotCovered,
    /// A user-supplied regex fragment is not well-formed.
    InvalidRegexFragment,
    /// Directives contradict each other, such as a whole-value default on a union.
    ConflictingDirective,
}

/// A compile-time failure: its kind, where it arose, and the offending text,
/// if any (a path segment, a field name, a regex fragment).
#[derive(Debug)]
pub struct Diagnostic {
    pub span: Span,
    pub kind: DiagnosticKind,
    pub detail: String,
}

/// The mathematical value of a diagnostic.
pub struct DiagV {
    pub span: Span,
    pub kind: DiagnosticKind,
    pub detail: Seq<char>,
}

impl View for Diagnostic {
    type V = DiagV;

    open spec fn view(&self) -> DiagV {
        DiagV { span: self.span, kind: self.kind, detail: self.detail@ }
    }
}

impl Diagnostic {
    /// Builds a diagnostic.
    pub fn new(span: Span, kind: DiagnosticKind, detail: String) -> (r: Diagnostic)
        ensures
            r.span == span,
            r.kind == kind,
            r.detail == detail,
    {
        Diagnostic { span, kind, detail }
    }
}

} // verus!
