//! Match programs: what a compiled pattern parses with. A pattern whose
//! parse-direction form is pure literal text compiles to a string-equality
//! check; anything else compiles to an anchored regex assembled from an
//! explicit fragment list — escaped literal runs, synthesized named capture
//! groups, and validated raw user fragments spliced in verbatim.

use vstd::prelude::*;

verus! {

/// One node of the regex under assembly.
#[derive(Debug)]
pub enum RegexFragment {
    /// Literal text; its characters are escaped when the regex is rendered.
    Lit(String),
    /// A synthesized named capture group `(?P<name>.*?)`.
    Cap(String),
    /// A raw user regex fragment, spliced verbatim.
    Raw(String),
}

/// The mathematical value of a fragment.
pub enum FragV {
    Lit(Seq<char>),
    Cap(Seq<char>),
    Raw(Seq<char>),
}

impl View for RegexFragment {
    type V = FragV;

    open spec fn view(&self) -> FragV {
        match self {
            RegexFragment::Lit(s) => FragV::Lit(s@),
            RegexFragment::Cap(s) => FragV::Cap(s@),
            RegexFragment::Raw(s) => FragV::Raw(s@),
        }
    }
}

impl DeepView for RegexFragment {
    type V = FragV;

    open spec fn deep_view(&self) -> FragV {
        self.view()
    }
}

/// The parse-direction form of a pattern while it is being built: still pure
/// literal text, or already a fragment list.
#[derive(Debug)]
pub enum ParseFormat {
    Literal(String),
    Fragments(Vec<RegexFragment>),
}

/// The mathematical value of a parse form.
pub enum ParseFormatV {
    Literal(Seq<char>),
    Fragments(Seq<FragV>),
}

impl View for ParseFormat {
    type V = ParseFormatV;

    open spec fn view(&self) -> ParseFormatV {
        match self {
            ParseFormat::Literal(s) => ParseFormatV::Literal(s@),
            ParseFormat::Fragments(fs) => ParseFormatV::Fragments(fs.deep_view()),
        }
    }
}

/// Whether a character is one the regex grammar gives meaning to, and so
/// needs escaping inside literal text.
pub open spec fn spec_is_meta(c: char) -> bool {
    c == '\\' || c == '.' || c == '+' || c == '*' || c == '?' || c == '(' || c == ')' || c == '|'
        || c == '[' || c == ']' || c == '{' || c == '}' || c == '^' || c == '$' || c == '#'
        || c == '&' || c == '-' || c == '~'
}

/// One character as regex literal text: meta characters get a backslash.
pub open spec fn spec_escape_char(c: char) -> Seq<char> {
    if spec_is_meta(c) {
        seq!['\\', c]
    } else {
        seq![c]
    }
}

/// Literal text as regex text, character by character.
pub open spec fn spec_escape(s: Seq<char>) -> Seq<char>
    decreases s.len(),
{
    if s.len() == 0 {
        Seq::empty()
    } else {
        spec_escape_char(s[0]) + spec_escape(s.skip(1))
    }
}

/// The regex text one fragment renders to.
pub open spec fn spec_frag_text(f: FragV) -> Seq<char> {
    match f {
        FragV::Lit(t) => spec_escape(t),
        FragV::Cap(name) => "(?P<"@ + name + ">.*?)"@,
        FragV::Raw(t) => t,
    }
}

/// The regex text of a fragment list.
pub open spec fn spec_frags_text(fs: Seq<FragV>) -> Seq<char>
    decreases fs.len(),
{
    if fs.len() == 0 {
        Seq::empty()
    } else {
        spec_frag_text(fs[0]) + spec_frags_text(fs.skip(1))
    }
}

/// The full regex of a fragment list: anchored at both ends, so a parse
/// consumes the whole input — the explicit full-match choice this compiler
/// makes rather than admitting trailing text.
pub open spec fn spec_program_regex(fs: Seq<FragV>) -> Seq<char> {
    "^"@ + spec_frags_text(fs) + "$"@
}

/// Renders literal text as regex text.
pub fn escape_literal(s: &str) -> (r: String)
    ensures
        r@ == spec_escape(s@),
{
    let v = crate::text::chars_of(s);
    let mut out = String::new();
    let mut i: usize = 0;
    proof {
        assert(v@.skip(0) =~= v@);
    }
    while i < v.len()
        invariant
            i <= v@.len(),
            v@ == s@,
            out@ + spec_escape(v@.skip(i as int)) == spec_escape(v@),
        decreases v@.len() - i,
    {
        let c = v[i];
        let ghost out0 = out@;
        if c == '\\' || c == '.' || c == '+' || c == '*' || c == '?' || c == '(' || c == ')'
            || c == '|' || c == '[' || c == ']' || c == '{' || c == '}' || c == '^' || c == '$'
            || c == '#' || c == '&' || c == '-' || c == '~' {
            crate::text::push_char(&mut out, '\\');
            crate::text::push_char(&mut out, c);
            proof {
                assert(out@ =~= out0 + spec_escape_char(c));
            }
        } else {
            crate::text::push_char(&mut out, c);
            proof {
                assert(out@ =~= out0 + spec_escape_char(c));
            }
        }
        proof {
            assert(v@.skip(i as int).skip(1) =~= v@.skip(i + 1 as int));
            assert(v@.skip(i as int)[0] == c);
            assert(out@ + spec_escape(v@.skip(i + 1 as int)) =~= out0 + spec_escape(
                v@.skip(i as int),
            ));
        }
        i += 1;
    }
    proof {
        assert(v@.skip(v@.len() as int) =~= Seq::<char>::empty());
        assert(out@ + spec_escape(Seq::<char>::empty()) =~= out@);
    }
    out
}

impl ParseFormat {
    /// A new, still purely literal parse form.
    pub fn new() -> (r: ParseFormat)
        ensures
            r@ == ParseFormatV::Literal(Seq::<char>::empty()),
    {
        ParseFormat::Literal(String::new())
    }

    /// Appends literal text: onto the literal form directly, or onto the
    /// fragment list's trailing literal node, opening one if needed.
    pub fn push_str(&mut self, s: &str)
        ensures
            final(self)@ == spec_pf_push_str(old(self)@, s@),
    {
        match self {
            ParseFormat::Literal(l) => {
                l.append(s);
            },
            ParseFormat::Fragments(fs) => {
                let ghost prev = *fs;
                let last = fs.pop();
                match last {
                    Some(RegexFragment::Lit(t)) => {
                        let mut t = t;
                        t.append(s);
                        let item = RegexFragment::Lit(t);
                        let ghost itemg = item;
                        fs.push(item);
                        proof {
                            crate::lemma_vec_deep_view_is(prev);
                            crate::lemma_vec_deep_view_is(*fs);
                            let target = prev.deep_view().update(
                                prev.deep_view().len() - 1,
                                FragV::Lit(prev.deep_view().last()->Lit_0 + s@),
                            );
                            assert forall|k: int| 0 <= k < fs@.len() implies #[trigger] fs
                                .deep_view()[k] == target[k] by {
                                if k < fs@.len() - 1 {
                                    assert(fs@[k] == prev@[k]);
                                } else {
                                    assert(fs@[k] == itemg);
                                    assert(prev.deep_view().last() == prev@[k].deep_view());
                                }
                            }
                            assert(fs.deep_view() =~= target);
                        }
                    },
                    Some(other) => {
                        let ghost otherg = other;
                        fs.push(other);
                        let item = RegexFragment::Lit(s.to_owned());
                        let ghost itemg = item;
                        fs.push(item);
                        proof {
                            crate::lemma_vec_deep_view_is(prev);
                            crate::lemma_vec_deep_view_is(*fs);
                            let target = prev.deep_view().push(FragV::Lit(s@));
                            assert forall|k: int| 0 <= k < fs@.len() implies #[trigger] fs
                                .deep_view()[k] == target[k] by {
                                if k < fs@.len() - 2 {
                                    assert(fs@[k] == prev@.drop_last()[k]);
                                    assert(prev@.drop_last()[k] == prev@[k]);
                                } else if k == fs@.len() - 2 {
                                    assert(fs@[k] == otherg);
                                    assert(prev@[k] == otherg);
                                } else {
                                    assert(fs@[k] == itemg);
                                }
                            }
                            assert(fs.deep_view() =~= target);
                        }
                    },
                    None => {
                        let item = RegexFragment::Lit(s.to_owned());
                        let ghost itemg = item;
                        fs.push(item);
                        proof {
                            crate::lemma_vec_deep_view_is(prev);
                            crate::lemma_vec_deep_view_is(*fs);
                            assert(fs.deep_view() =~= prev.deep_view().push(FragV::Lit(s@)));
                        }
                    },
                }
            },
        }
    }

    /// Turns the form into a fragment list, the pure literal becoming one
    /// literal node, then appends the given fragment.
    pub fn push_fragment(&mut self, frag: RegexFragment)
        ensures
            final(self)@ == ParseFormatV::Fragments(
                spec_pf_fragments(old(self)@).push(frag@),
            ),
    {
        let ghost fragg = frag;
        match self {
            ParseFormat::Literal(l) => {
                let mut fs: Vec<RegexFragment> = Vec::new();
                let lit = RegexFragment::Lit(l.clone());
                let ghost litg = lit;
                fs.push(lit);
                fs.push(frag);
                proof {
                    crate::lemma_vec_deep_view_is(fs);
                    assert(fs.deep_view() =~= seq![litg@, fragg@]);
                    assert(spec_pf_fragments(old(self)@).push(fragg@) =~= seq![litg@, fragg@]);
                }
                *self = ParseFormat::Fragments(fs);
            },
            ParseFormat::Fragments(fs) => {
                let ghost prev = *fs;
                fs.push(frag);
                proof {
                    crate::lemma_vec_push_deep_view(*fs, prev, fragg);
                }
            },
        }
    }

}

/// The effect of appending literal text to a parse form.
pub open spec fn spec_pf_push_str(pf: ParseFormatV, s: Seq<char>) -> ParseFormatV {
    match pf {
        ParseFormatV::Literal(l) => ParseFormatV::Literal(l + s),
        ParseFormatV::Fragments(fs) => {
            if fs.len() > 0 && fs.last() is Lit {
                ParseFormatV::Fragments(fs.update(fs.len() - 1, FragV::Lit(fs.last()->Lit_0 + s)))
            } else {
                ParseFormatV::Fragments(fs.push(FragV::Lit(s)))
            }
        },
    }
}

/// The fragment list a parse form stands for: a pure literal becomes a single
/// literal node.
pub open spec fn spec_pf_fragments(pf: ParseFormatV) -> Seq<FragV> {
    match pf {
        ParseFormatV::Literal(l) => seq![FragV::Lit(l)],
        ParseFormatV::Fragments(fs) => fs,
    }
}

/// A compiled parse strategy: plain string equality for a pattern with no
/// captures and no raw fragments, else an anchored regex.
#[derive(Debug)]
pub enum MatchProgram {
    Equality(String),
    Regex(RegexProgram),
}

/// The regex form of a match program: the fragment list it was assembled
/// from, and the rendered pattern text.
#[derive(Debug)]
pub struct RegexProgram {
    pub fragments: Vec<RegexFragment>,
    pub pattern: String,
}

/// The mathematical value of a match program.
pub enum MatchProgramV {
    Equality(Seq<char>),
    Regex(Seq<FragV>),
}

impl View for MatchProgram {
    type V = MatchProgramV;

    open spec fn view(&self) -> MatchProgramV {
        match self {
            MatchProgram::Equality(s) => MatchProgramV::Equality(s@),
            MatchProgram::Regex(p) => MatchProgramV::Regex(p.fragments.deep_view()),
        }
    }
}

impl MatchProgram {
    /// A regex program's rendered pattern is determined by its fragments.
    pub open spec fn wf(&self) -> bool {
        match self {
            MatchProgram::Equality(_) => true,
            MatchProgram::Regex(p) => p.pattern@ == spec_program_regex(p.fragments.deep_view()),
        }
    }

    /// Finishes a parse form into a match program: a still-literal form is an
    /// equality check; a fragment list is rendered into an anchored regex.
    pub fn from_parse_format(pf: ParseFormat) -> (r: MatchProgram)
        ensures
            r@ == spec_match_program(pf@),
            r.wf(),
    {
        match pf {
            ParseFormat::Literal(l) => MatchProgram::Equality(l),
            ParseFormat::Fragments(fs) => {
                let pattern = render_regex(&fs);
                MatchProgram::Regex(RegexProgram { fragments: fs, pattern })
            },
        }
    }
}

/// The match program a parse form finishes into.
pub open spec fn spec_match_program(pf: ParseFormatV) -> MatchProgramV {
    match pf {
        ParseFormatV::Literal(l) => MatchProgramV::Equality(l),
        ParseFormatV::Fragments(fs) => MatchProgramV::Regex(fs),
    }
}

/// Renders the anchored regex text of a fragment list.
pub fn render_regex(fs: &Vec<RegexFragment>) -> (r: String)
    ensures
        r@ == spec_program_regex(fs.deep_view()),
{
    let ghost m = fs.deep_view();
    let mut out = String::new();
    out.append("^");
    let mut i: usize = 0;
    proof {
        assert(m.skip(0) =~= m);
    }
    while i < fs.len()
        invariant
            i <= fs@.len(),
            m == fs.deep_view(),
            m.len() == fs@.len(),
            out@ + spec_frags_text(m.skip(i as int)) == "^"@ + spec_frags_text(m),
        decreases fs@.len() - i,
    {
        let ghost out0 = out@;
        proof {
            assert(m[i as int] == fs@[i as int].deep_view());
            assert(m.skip(i as int)[0] == m[i as int]);
            assert(m.skip(i as int).skip(1) =~= m.skip(i + 1 as int));
        }
        match &fs[i] {
            RegexFragment::Lit(t) => {
                let e = escape_literal(t.as_str());
                out.append(e.as_str());
            },
            RegexFragment::Cap(name) => {
                out.append("(?P<");
                out.append(name.as_str());
                out.append(">.*?)");
            },
            RegexFragment::Raw(t) => {
                out.append(t.as_str());
            },
        }
        proof {
            assert(out@ =~= out0 + spec_frag_text(m[i as int]));
            assert(out@ + spec_frags_text(m.skip(i + 1 as int)) =~= out0 + spec_frags_text(
                m.skip(i as int),
            ));
        }
        i += 1;
    }
    proof {
        assert(m.skip(m.len() as int) =~= Seq::<FragV>::empty());
        assert(out@ + spec_frags_text(Seq::<FragV>::empty()) =~= out@);
    }
    out.append("$");
    out
}

} // verus!
