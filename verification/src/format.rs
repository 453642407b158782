//! The pattern compiler: a template string is tokenized into an ordered
//! sequence of parts, in priority order an escaped brace `{{` or `}}`, a
//! maximal run of brace-free literal text, or a variable `{name}` /
//! `{name:spec}`. Anything else is a malformed pattern.

use vstd::prelude::*;
use crate::diag::{Diagnostic, DiagnosticKind, Span};

verus! {

/// One part of a compiled pattern.
#[derive(Debug)]
pub enum DisplayFormatPart {
    /// A run of literal text, free of braces.
    Str(String),
    /// The escape `{{`, rendered as one `{`.
    EscapedBeginBracket,
    /// The escape `}}`, rendered as one `}`.
    EscapedEndBracket,
    /// A variable `{arg}` or `{arg:format_spec}`; `arg` is a dotted field
    /// path, possibly empty.
    Var { arg: String, format_spec: String },
}

/// The mathematical value of a pattern part.
pub enum FormatPartV {
    Str(Seq<char>),
    EscapedBeginBracket,
    EscapedEndBracket,
    Var(Seq<char>, Seq<char>),
}

impl View for DisplayFormatPart {
    type V = FormatPartV;

    open spec fn view(&self) -> FormatPartV {
        match self {
            DisplayFormatPart::Str(s) => FormatPartV::Str(s@),
            DisplayFormatPart::EscapedBeginBracket => FormatPartV::EscapedBeginBracket,
            DisplayFormatPart::EscapedEndBracket => FormatPartV::EscapedEndBracket,
            DisplayFormatPart::Var { arg, format_spec } => FormatPartV::Var(arg@, format_spec@),
        }
    }
}

impl DeepView for DisplayFormatPart {
    type V = FormatPartV;

    open spec fn deep_view(&self) -> FormatPartV {
        self.view()
    }
}

impl Clone for DisplayFormatPart {
    fn clone(&self) -> (r: Self)
        ensures
            r@ == self@,
    {
        match self {
            DisplayFormatPart::Str(s) => DisplayFormatPart::Str(s.clone()),
            DisplayFormatPart::EscapedBeginBracket => DisplayFormatPart::EscapedBeginBracket,
            DisplayFormatPart::EscapedEndBracket => DisplayFormatPart::EscapedEndBracket,
            DisplayFormatPart::Var { arg, format_spec } => DisplayFormatPart::Var {
                arg: arg.clone(),
                format_spec: format_spec.clone(),
            },
        }
    }
}

/// A compiled pattern: its parts, and the source span of the template it was
/// read from.
#[derive(Debug)]
pub struct DisplayFormat {
    pub parts: Vec<DisplayFormatPart>,
    pub span: Span,
}

/// The mathematical value of a compiled pattern.
pub struct FormatV {
    pub parts: Seq<FormatPartV>,
    pub span: Span,
}

impl View for DisplayFormat {
    type V = FormatV;

    open spec fn view(&self) -> FormatV {
        FormatV { parts: self.parts.deep_view(), span: self.span }
    }
}

impl DeepView for DisplayFormat {
    type V = FormatV;

    open spec fn deep_view(&self) -> FormatV {
        self.view()
    }
}

impl Clone for DisplayFormat {
    fn clone(&self) -> (r: Self)
        ensures
            r@ == self@,
    {
        let mut parts: Vec<DisplayFormatPart> = Vec::new();
        let mut i: usize = 0;
        while i < self.parts.len()
            invariant
                i <= self.parts@.len(),
                parts@.len() == i,
                forall|k: int| 0 <= k < i ==> (#[trigger] parts@[k])@ == self.parts@[k]@,
            decreases self.parts@.len() - i,
        {
            parts.push(self.parts[i].clone());
            i += 1;
        }
        proof {
            let m1 = parts.deep_view();
            let m2 = self.parts.deep_view();
            assert(m1 == Seq::new(parts@.len(), |j: int| parts@[j].deep_view()));
            assert(m2 == Seq::new(self.parts@.len(), |j: int| self.parts@[j].deep_view()));
            assert forall|k: int| 0 <= k < m1.len() implies m1[k] == m2[k] by {
                assert(parts@[k]@ == self.parts@[k]@);
            }
            assert(m1 =~= m2);
        }
        DisplayFormat { parts, span: self.span }
    }
}

impl DisplayFormat {
    /// The mathematical value of the part list.
    pub open spec fn parts_view(&self) -> Seq<FormatPartV> {
        self.parts@.map_values(|p: DisplayFormatPart| p@)
    }
}

/// Whether a character is a brace.
pub open spec fn spec_is_brace(c: char) -> bool {
    c == '{' || c == '}'
}

/// The length of the maximal brace-free prefix.
pub open spec fn spec_run_str(s: Seq<char>) -> int
    decreases s.len(),
{
    if s.len() == 0 || spec_is_brace(s[0]) {
        0
    } else {
        1 + spec_run_str(s.skip(1))
    }
}

/// The length of the maximal prefix of variable-name characters, which stop
/// at a colon or a brace.
pub open spec fn spec_run_arg(s: Seq<char>) -> int
    decreases s.len(),
{
    if s.len() == 0 || s[0] == ':' || spec_is_brace(s[0]) {
        0
    } else {
        1 + spec_run_arg(s.skip(1))
    }
}

/// The length of the maximal prefix of format-spec characters, which stop
/// only at a closing brace.
pub open spec fn spec_run_spec(s: Seq<char>) -> int
    decreases s.len(),
{
    if s.len() == 0 || s[0] == '}' {
        0
    } else {
        1 + spec_run_spec(s.skip(1))
    }
}

proof fn lemma_run_str_bounds(s: Seq<char>)
    ensures
        0 <= spec_run_str(s) <= s.len(),
    decreases s.len(),
{
    if s.len() != 0 && !spec_is_brace(s[0]) {
        lemma_run_str_bounds(s.skip(1));
    }
}

proof fn lemma_run_arg_bounds(s: Seq<char>)
    ensures
        0 <= spec_run_arg(s) <= s.len(),
    decreases s.len(),
{
    if s.len() != 0 && s[0] != ':' && !spec_is_brace(s[0]) {
        lemma_run_arg_bounds(s.skip(1));
    }
}

proof fn lemma_run_spec_bounds(s: Seq<char>)
    ensures
        0 <= spec_run_spec(s) <= s.len(),
    decreases s.len(),
{
    if s.len() != 0 && s[0] != '}' {
        lemma_run_spec_bounds(s.skip(1));
    }
}

/// A prefix of non-stopping characters that ends at a stop or at the end of
/// the string is exactly the maximal brace-free run.
proof fn lemma_run_str_is(s: Seq<char>, n: int)
    requires
        0 <= n <= s.len(),
        forall|k: int| 0 <= k < n ==> !spec_is_brace(s[k]),
        n == s.len() || spec_is_brace(s[n]),
    ensures
        spec_run_str(s) == n,
    decreases n,
{
    if n == 0 {
    } else {
        assert(!spec_is_brace(s[0]));
        lemma_run_str_is(s.skip(1), n - 1);
    }
}

proof fn lemma_run_arg_is(s: Seq<char>, n: int)
    requires
        0 <= n <= s.len(),
        forall|k: int| 0 <= k < n ==> s[k] != ':' && !spec_is_brace(s[k]),
        n == s.len() || s[n] == ':' || spec_is_brace(s[n]),
    ensures
        spec_run_arg(s) == n,
    decreases n,
{
    if n == 0 {
    } else {
        lemma_run_arg_is(s.skip(1), n - 1);
    }
}

proof fn lemma_run_spec_is(s: Seq<char>, n: int)
    requires
        0 <= n <= s.len(),
        forall|k: int| 0 <= k < n ==> s[k] != '}',
        n == s.len() || s[n] == '}',
    ensures
        spec_run_spec(s) == n,
    decreases n,
{
    if n == 0 {
    } else {
        lemma_run_spec_is(s.skip(1), n - 1);
    }
}

/// The parts of a template, or nothing if the template leaves text that no
/// rule consumes. The rules apply in priority order: `{{`, `}}`, a maximal
/// brace-free literal run, then `{arg}` or `{arg:spec}`.
pub open spec fn spec_parse_format(s: Seq<char>) -> Option<Seq<FormatPartV>>
    decreases s.len(),
    via spec_parse_format_dec
{
    if s.len() == 0 {
        Some(Seq::empty())
    } else if s.len() >= 2 && s[0] == '{' && s[1] == '{' {
        match spec_parse_format(s.skip(2)) {
            Some(t) => Some(seq![FormatPartV::EscapedBeginBracket] + t),
            None => None,
        }
    } else if s.len() >= 2 && s[0] == '}' && s[1] == '}' {
        match spec_parse_format(s.skip(2)) {
            Some(t) => Some(seq![FormatPartV::EscapedEndBracket] + t),
            None => None,
        }
    } else if !spec_is_brace(s[0]) {
        let n = spec_run_str(s);
        match spec_parse_format(s.skip(n)) {
            Some(t) => Some(seq![FormatPartV::Str(s.take(n))] + t),
            None => None,
        }
    } else if s[0] == '{' {
        let j = 1 + spec_run_arg(s.skip(1));
        if j < s.len() && s[j] == '}' {
            match spec_parse_format(s.skip(j + 1)) {
                Some(t) => Some(seq![FormatPartV::Var(s.subrange(1, j), Seq::empty())] + t),
                None => None,
            }
        } else if j < s.len() && s[j] == ':' {
            let k = j + 1 + spec_run_spec(s.skip(j + 1));
            if k < s.len() && s[k] == '}' {
                match spec_parse_format(s.skip(k + 1)) {
                    Some(t) => Some(
                        seq![FormatPartV::Var(s.subrange(1, j), s.subrange(j + 1, k))] + t,
                    ),
                    None => None,
                }
            } else {
                None
            }
        } else {
            None
        }
    } else {
        None
    }
}

#[via_fn]
proof fn spec_parse_format_dec(s: Seq<char>) {
    lemma_run_str_bounds(s);
    if s.len() != 0 && !spec_is_brace(s[0]) {
        lemma_run_str_bounds(s.skip(1));
    }
    if s.len() != 0 {
        lemma_run_arg_bounds(s.skip(1));
        let j = 1 + spec_run_arg(s.skip(1));
        if j + 1 <= s.len() {
            lemma_run_spec_bounds(s.skip(j + 1));
        }
    }
}

impl DisplayFormat {
    /// Tokenizes a template string. Succeeds exactly when the grammar covers
    /// the whole template; a failure is a malformed-pattern diagnostic at the
    /// template's span.
    #[verifier::rlimit(100)]
    #[verifier::spinoff_prover]
    pub fn parse(s: &str, span: Span) -> (r: Result<DisplayFormat, Diagnostic>)
        ensures
            r matches Ok(f) ==> spec_parse_format(s@) == Some(f.parts_view()) && f.span == span,
            r is Err ==> spec_parse_format(s@) is None,
            r matches Err(d) ==> d.kind == DiagnosticKind::MalformedPattern && d.span == span,
    {
        let v = crate::text::chars_of(s);
        let n = v.len();
        let mut parts: Vec<DisplayFormatPart> = Vec::new();
        let mut i: usize = 0;
        proof {
            assert(v@.skip(0) =~= v@);
        }
        while i < n
            invariant
                i <= n,
                n == v@.len(),
                v@ == s@,
                spec_parse_format(v@) == (match spec_parse_format(v@.skip(i as int)) {
                    Some(t) => Some(
                        parts@.map_values(|p: DisplayFormatPart| p@) + t,
                    ),
                    None => None,
                }),
            decreases n - i,
        {
            let ghost suf = v@.skip(i as int);
            proof {
                assert(suf.len() == n - i);
                assert(forall|k: int| 0 <= k < suf.len() ==> suf[k] == v@[i + k]);
            }
            if v[i] == '{' && i + 1 < n && v[i + 1] == '{' {
                let ghost base = parts@;
                parts.push(DisplayFormatPart::EscapedBeginBracket);
                proof {
                    assert(suf.skip(2) =~= v@.skip(i + 2 as int));
                    lemma_push_part(base, DisplayFormatPart::EscapedBeginBracket);
                }
                i += 2;
            } else if v[i] == '}' && i + 1 < n && v[i + 1] == '}' {
                let ghost base = parts@;
                parts.push(DisplayFormatPart::EscapedEndBracket);
                proof {
                    assert(suf.skip(2) =~= v@.skip(i + 2 as int));
                    lemma_push_part(base, DisplayFormatPart::EscapedEndBracket);
                }
                i += 2;
            } else if v[i] != '{' && v[i] != '}' {
                let e = scan_str_run(&v, i);
                proof {
                    lemma_run_str_is(suf, e - i);
                    assert(suf.take(e - i) =~= v@.subrange(i as int, e as int));
                    assert(suf.skip(e - i) =~= v@.skip(e as int));
                }
                let lit = s.substring_char(i, e).to_owned();
                let item = DisplayFormatPart::Str(lit);
                let ghost base = parts@;
                let ghost itemg = item;
                parts.push(item);
                proof {
                    lemma_push_part(base, itemg);
                }
                i = e;
            } else if v[i] == '{' {
                let a = scan_arg_run(&v, i + 1);
                proof {
                    assert(suf.skip(1) =~= v@.skip(i + 1 as int));
                    lemma_run_arg_is(suf.skip(1), a - (i + 1));
                    assert(1 + spec_run_arg(suf.skip(1)) == a - i);
                }
                if a < n && v[a] == '}' {
                    let arg = s.substring_char(i + 1, a).to_owned();
                    proof {
                        assert(suf.subrange(1, a - i) =~= v@.subrange(i + 1 as int, a as int));
                        assert(suf.skip(a - i + 1) =~= v@.skip(a + 1 as int));
                    }
                    let item = DisplayFormatPart::Var { arg, format_spec: String::new() };
                    let ghost base = parts@;
                    let ghost itemg = item;
                    parts.push(item);
                    proof {
                        lemma_push_part(base, itemg);
                    }
                    i = a + 1;
                } else if a < n && v[a] == ':' {
                    let b = scan_spec_run(&v, a + 1);
                    proof {
                        assert(suf.skip(a - i + 1) =~= v@.skip(a + 1 as int));
                        lemma_run_spec_is(suf.skip(a - i + 1), b - (a + 1));
                    }
                    if b < n && v[b] == '}' {
                        let arg = s.substring_char(i + 1, a).to_owned();
                        let fspec = s.substring_char(a + 1, b).to_owned();
                        proof {
                            assert(suf.subrange(1, a - i) =~= v@.subrange(
                                i + 1 as int,
                                a as int,
                            ));
                            assert(suf.subrange(a - i + 1, b - i) =~= v@.subrange(
                                a + 1 as int,
                                b as int,
                            ));
                            assert(suf.skip(b - i + 1) =~= v@.skip(b + 1 as int));
                        }
                        let item = DisplayFormatPart::Var { arg, format_spec: fspec };
                        let ghost base = parts@;
                        let ghost itemg = item;
                        parts.push(item);
                        proof {
                            lemma_push_part(base, itemg);
                        }
                        i = b + 1;
                    } else {
                        let detail = s.substring_char(i, n).to_owned();
                        return Err(Diagnostic::new(span, DiagnosticKind::MalformedPattern, detail));
                    }
                } else {
                    let detail = s.substring_char(i, n).to_owned();
                    return Err(Diagnostic::new(span, DiagnosticKind::MalformedPattern, detail));
                }
            } else {
                let detail = s.substring_char(i, n).to_owned();
                return Err(Diagnostic::new(span, DiagnosticKind::MalformedPattern, detail));
            }
        }
        proof {
            assert(v@.skip(n as int) =~= Seq::<char>::empty());
            assert(parts@.map_values(|p: DisplayFormatPart| p@) + Seq::<FormatPartV>::empty()
                =~= parts@.map_values(|p: DisplayFormatPart| p@));
        }
        Ok(DisplayFormat { parts, span })
    }
}

/// Pushing a part appends its value to the viewed part list.
proof fn lemma_push_part(base: Seq<DisplayFormatPart>, item: DisplayFormatPart)
    ensures
        base.push(item).map_values(|q: DisplayFormatPart| q@) =~= base.map_values(
            |q: DisplayFormatPart| q@,
        ) + seq![item@],
{
}

/// The end of the maximal brace-free run from `start`.
fn scan_str_run(v: &Vec<char>, start: usize) -> (e: usize)
    requires
        start <= v@.len(),
    ensures
        start <= e <= v@.len(),
        forall|k: int| start <= k < e ==> !spec_is_brace(v@[k]),
        e == v@.len() || spec_is_brace(v@[e as int]),
{
    let mut e = start;
    while e < v.len()
        invariant
            start <= e <= v@.len(),
            forall|k: int| start <= k < e ==> !spec_is_brace(v@[k]),
        decreases v@.len() - e,
    {
        let c = v[e];
        if c == '{' || c == '}' {
            return e;
        }
        e += 1;
    }
    e
}

/// The end of the maximal run of variable-name characters from `start`.
fn scan_arg_run(v: &Vec<char>, start: usize) -> (e: usize)
    requires
        start <= v@.len(),
    ensures
        start <= e <= v@.len(),
        forall|k: int| start <= k < e ==> v@[k] != ':' && !spec_is_brace(v@[k]),
        e == v@.len() || v@[e as int] == ':' || spec_is_brace(v@[e as int]),
{
    let mut e = start;
    while e < v.len()
        invariant
            start <= e <= v@.len(),
            forall|k: int| start <= k < e ==> v@[k] != ':' && !spec_is_brace(v@[k]),
        decreases v@.len() - e,
    {
        let c = v[e];
        if c == ':' || c == '{' || c == '}' {
            return e;
        }
        e += 1;
    }
    e
}

/// The end of the maximal run of format-spec characters from `start`.
fn scan_spec_run(v: &Vec<char>, start: usize) -> (e: usize)
    requires
        start <= v@.len(),
    ensures
        start <= e <= v@.len(),
        forall|k: int| start <= k < e ==> v@[k] != '}',
        e == v@.len() || v@[e as int] == '}',
{
    let mut e = start;
    while e < v.len()
        invariant
            start <= e <= v@.len(),
            forall|k: int| start <= k < e ==> v@[k] != '}',
        decreases v@.len() - e,
    {
        let c = v[e];
        if c == '}' {
            return e;
        }
        e += 1;
    }
    e
}

} // verus!
