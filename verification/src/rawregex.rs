//! Textual analysis of raw user regex fragments. The planner rewrites each
//! named group `(?P<name>` it finds — the name is a dotted field path, an
//! index, or empty — into a synthesized slot name; for validation the names
//! are first rewritten into plain identifiers; and a group bound to the
//! variant tag is later expanded into literal text, which needs the matching
//! closing parenthesis.

use vstd::prelude::*;
use crate::text::{chars_of, push_char, spec_all_digits, string_of};

verus! {

/// Whether a character may stand in a capture-group name: word characters
/// and the dot that separates path segments.
pub open spec fn spec_is_name_char(c: char) -> bool {
    c == '_' || c == '.' || ('0' <= c && c <= '9') || ('a' <= c && c <= 'z') || ('A' <= c && c
        <= 'Z')
}

fn is_name_char(c: char) -> (r: bool)
    ensures
        r == spec_is_name_char(c),
{
    c == '_' || c == '.' || ('0' <= c && c <= '9') || ('a' <= c && c <= 'z') || ('A' <= c && c
        <= 'Z')
}

/// The length of the maximal prefix of name characters.
pub open spec fn spec_run_name(s: Seq<char>) -> int
    decreases s.len(),
{
    if s.len() == 0 || !spec_is_name_char(s[0]) {
        0
    } else {
        1 + spec_run_name(s.skip(1))
    }
}

pub proof fn lemma_run_name_bounds(s: Seq<char>)
    ensures
        0 <= spec_run_name(s) <= s.len(),
    decreases s.len(),
{
    if s.len() != 0 && spec_is_name_char(s[0]) {
        lemma_run_name_bounds(s.skip(1));
    }
}

proof fn lemma_run_name_is(s: Seq<char>, n: int)
    requires
        0 <= n <= s.len(),
        forall|k: int| 0 <= k < n ==> spec_is_name_char(s[k]),
        n == s.len() || !spec_is_name_char(s[n]),
    ensures
        spec_run_name(s) == n,
    decreases n,
{
    if n != 0 {
        lemma_run_name_is(s.skip(1), n - 1);
    }
}

/// Whether a capture-group open `(?P<name>` stands at position `i`, and if
/// so, where its name ends: the index of the closing `>`.
pub open spec fn spec_group_open_at(s: Seq<char>, i: int) -> Option<int> {
    if i + 4 <= s.len() && s[i] == '(' && s[i + 1] == '?' && s[i + 2] == 'P' && s[i + 3] == '<' {
        let m = spec_run_name(s.skip(i + 4));
        if i + 4 + m < s.len() && s[i + 4 + m] == '>' {
            Some(i + 4 + m)
        } else {
            None
        }
    } else {
        None
    }
}

/// The end of the maximal run of name characters from `start`.
fn scan_name_run(v: &Vec<char>, start: usize) -> (e: usize)
    requires
        start <= v@.len(),
    ensures
        start <= e <= v@.len(),
        forall|k: int| start <= k < e ==> spec_is_name_char(v@[k]),
        e == v@.len() || !spec_is_name_char(v@[e as int]),
{
    let mut e = start;
    while e < v.len()
        invariant
            start <= e <= v@.len(),
            forall|k: int| start <= k < e ==> spec_is_name_char(v@[k]),
        decreases v@.len() - e,
    {
        if !is_name_char(v[e]) {
            return e;
        }
        e += 1;
    }
    e
}

/// Decides whether a group open stands at `i`, returning the index of the
/// name's closing `>`.
pub fn group_open_at(v: &Vec<char>, i: usize) -> (r: Option<usize>)
    requires
        i <= v@.len(),
    ensures
        r matches Some(g) ==> spec_group_open_at(v@, i as int) == Some(g as int) && i + 4 <= g
            < v@.len(),
        r is None ==> spec_group_open_at(v@, i as int) is None,
{
    if v.len() - i < 4 {
        return None;
    }
    if !(v[i] == '(' && v[i + 1] == '?' && v[i + 2] == 'P' && v[i + 3] == '<') {
        return None;
    }
    let e = scan_name_run(v, i + 4);
    proof {
        let suf = v@.skip(i + 4 as int);
        assert(forall|k: int| 0 <= k < suf.len() ==> suf[k] == v@[i + 4 + k]);
        lemma_run_name_is(suf, e - (i + 4));
    }
    if e < v.len() && v[e] == '>' {
        Some(e)
    } else {
        None
    }
}

/// A group open found in a suffix stands shifted in the whole string.
proof fn lemma_group_open_shift(s: Seq<char>, i: int)
    requires
        0 <= i <= s.len(),
    ensures
        spec_group_open_at(s, i) == (match spec_group_open_at(s.skip(i), 0) {
            Some(g) => Some(g + i),
            None => None,
        }),
{
    let suf = s.skip(i);
    assert(forall|k: int| 0 <= k < suf.len() ==> suf[k] == s[i + k]);
    if i + 4 <= s.len() && s[i] == '(' && s[i + 1] == '?' && s[i + 2] == 'P' && s[i + 3] == '<' {
        assert(suf.skip(4) =~= s.skip(i + 4));
        lemma_run_name_bounds(s.skip(i + 4));
        let m = spec_run_name(s.skip(i + 4));
        assert(spec_run_name(suf.skip(4)) == m);
        if 4 + m < suf.len() {
            assert(suf[4 + m] == s[i + 4 + m]);
        }
    }
}

/// A capture-group name as it must read for validation: an empty name stands
/// for the whole value and becomes `self`; dots become underscores; a purely
/// numeric name is prefixed so it stays an identifier.
pub open spec fn spec_debug_name(name: Seq<char>) -> Seq<char> {
    if name.len() == 0 {
        "self"@
    } else {
        let u = name.map_values(|c: char| if c == '.' { '_' } else { c });
        if spec_all_digits(u) {
            "_"@ + u
        } else {
            u
        }
    }
}

/// The fragment with every capture-group name rewritten for validation.
pub open spec fn spec_debug_names(s: Seq<char>) -> Seq<char>
    decreases s.len(),
    via spec_debug_names_dec
{
    if s.len() == 0 {
        Seq::empty()
    } else {
        match spec_group_open_at(s, 0) {
            Some(g) => "(?P<"@ + spec_debug_name(s.subrange(4, g)) + ">"@ + spec_debug_names(
                s.skip(g + 1),
            ),
            None => seq![s[0]] + spec_debug_names(s.skip(1)),
        }
    }
}

#[via_fn]
proof fn spec_debug_names_dec(s: Seq<char>) {
    if s.len() != 0 {
        if spec_group_open_at(s, 0) is Some {
            lemma_run_name_bounds(s.skip(4));
        }
    }
}

/// Rewrites every capture-group name for validation.
pub fn debug_names(s: &str) -> (r: String)
    ensures
        r@ == spec_debug_names(s@),
{
    let v = chars_of(s);
    let mut out = String::new();
    let mut i: usize = 0;
    proof {
        assert(v@.skip(0) =~= v@);
    }
    while i < v.len()
        invariant
            i <= v@.len(),
            v@ == s@,
            out@ + spec_debug_names(v@.skip(i as int)) == spec_debug_names(v@),
        decreases v@.len() - i,
    {
        let ghost suf = v@.skip(i as int);
        let ghost out0 = out@;
        proof {
            assert(forall|k: int| 0 <= k < suf.len() ==> suf[k] == v@[i + k]);
            assert(suf.skip(1) =~= v@.skip(i + 1 as int));
            lemma_group_open_shift(v@, i as int);
        }
        match group_open_at(&v, i) {
            Some(g) => {
                proof {
                    assert(spec_group_open_at(suf, 0) == Some(g - i as int));
                    assert(suf.subrange(4, g - i as int) =~= v@.subrange(i + 4 as int, g as int));
                    assert(suf.skip(g - i + 1) =~= v@.skip(g + 1 as int));
                }
                let name = subvec(&v, i + 4, g);
                let dbg = debug_name(&name);
                out.append("(?P<");
                out.append(dbg.as_str());
                out.append(">");
                proof {
                    assert(out@ =~= out0 + ("(?P<"@ + spec_debug_name(v@.subrange(
                        i + 4 as int,
                        g as int,
                    )) + ">"@));
                    assert(suf.skip((g - i) + 1) =~= v@.skip(g + 1 as int));
                    assert(out@ + spec_debug_names(v@.skip(g + 1 as int)) =~= out0
                        + spec_debug_names(suf));
                }
                i = g + 1;
            },
            None => {
                push_char(&mut out, v[i]);
                proof {
                    assert(out@ =~= out0 + seq![suf[0]]);
                    assert(out@ + spec_debug_names(v@.skip(i + 1 as int)) =~= out0
                        + spec_debug_names(suf));
                }
                i += 1;
            },
        }
    }
    proof {
        assert(v@.skip(v@.len() as int) =~= Seq::<char>::empty());
        assert(out@ + spec_debug_names(Seq::<char>::empty()) =~= out@);
    }
    out
}

/// Copies a character range out of a vector.
pub fn subvec(v: &Vec<char>, a: usize, b: usize) -> (r: Vec<char>)
    requires
        a <= b <= v@.len(),
    ensures
        r@ == v@.subrange(a as int, b as int),
{
    let mut r: Vec<char> = Vec::new();
    let mut i = a;
    while i < b
        invariant
            a <= i <= b <= v@.len(),
            r@ == v@.subrange(a as int, i as int),
        decreases b - i,
    {
        r.push(v[i]);
        proof {
            assert(r@ =~= v@.subrange(a as int, i + 1 as int));
        }
        i += 1;
    }
    r
}

/// Renders one name for validation.
fn debug_name(name: &Vec<char>) -> (r: String)
    ensures
        r@ == spec_debug_name(name@),
{
    if name.len() == 0 {
        let mut r = String::new();
        r.append("self");
        return r;
    }
    let mut u: Vec<char> = Vec::new();
    let mut i: usize = 0;
    let ghost target = name@.map_values(|c: char| if c == '.' { '_' } else { c });
    while i < name.len()
        invariant
            i <= name@.len(),
            target == name@.map_values(|c: char| if c == '.' { '_' } else { c }),
            u@ =~= target.subrange(0, i as int),
        decreases name@.len() - i,
    {
        let c = name[i];
        if c == '.' {
            u.push('_');
        } else {
            u.push(c);
        }
        proof {
            assert(u@ =~= target.subrange(0, i + 1 as int));
        }
        i += 1;
    }
    proof {
        assert(target.subrange(0, target.len() as int) =~= target);
        assert(u@ =~= target);
    }
    let mut all_digits = true;
    let mut j: usize = 0;
    while j < u.len()
        invariant
            j <= u@.len(),
            all_digits == spec_all_digits(u@.subrange(0, j as int)),
        decreases u@.len() - j,
    {
        let c = u[j];
        proof {
            assert(u@.subrange(0, j + 1 as int).drop_last() =~= u@.subrange(0, j as int));
        }
        if !('0' <= c && c <= '9') {
            all_digits = false;
            proof {
                assert(!crate::text::spec_is_digit(u@.subrange(0, j + 1 as int)[j as int]));
            }
        }
        j += 1;
    }
    proof {
        assert(u@.subrange(0, u@.len() as int) =~= u@);
    }
    let body = string_of(&u);
    if all_digits {
        let mut r = String::new();
        r.append("_");
        r.append(body.as_str());
        r
    } else {
        body
    }
}

/// The index of the parenthesis that closes the group body starting at `i`,
/// walking over escapes and character classes: a backslash escapes the next
/// character, and parentheses inside a class are plain text.
pub open spec fn spec_group_end(s: Seq<char>, i: int, depth: int, in_class: bool) -> Option<int>
    decreases s.len() - i,
{
    if i < 0 || i >= s.len() {
        None
    } else if s[i] == '\\' {
        if i + 2 <= s.len() {
            spec_group_end(s, i + 2, depth, in_class)
        } else {
            None
        }
    } else if in_class {
        if s[i] == ']' {
            spec_group_end(s, i + 1, depth, false)
        } else {
            spec_group_end(s, i + 1, depth, true)
        }
    } else if s[i] == '[' {
        spec_group_end(s, i + 1, depth, true)
    } else if s[i] == '(' {
        spec_group_end(s, i + 1, depth + 1, false)
    } else if s[i] == ')' {
        if depth == 0 {
            Some(i)
        } else {
            spec_group_end(s, i + 1, depth - 1, false)
        }
    } else {
        spec_group_end(s, i + 1, depth, false)
    }
}

/// A found closing parenthesis lies at or after the start of the search.
pub proof fn lemma_group_end_bounds(s: Seq<char>, i: int, depth: int, in_class: bool)
    ensures
        spec_group_end(s, i, depth, in_class) matches Some(e) ==> i <= e < s.len(),
    decreases s.len() - i,
{
    if 0 <= i < s.len() {
        if s[i] == '\\' {
            if i + 2 <= s.len() {
                lemma_group_end_bounds(s, i + 2, depth, in_class);
            }
        } else if in_class {
            lemma_group_end_bounds(s, i + 1, depth, s[i] != ']' && in_class);
        } else if s[i] == '[' {
            lemma_group_end_bounds(s, i + 1, depth, true);
        } else if s[i] == '(' {
            lemma_group_end_bounds(s, i + 1, depth + 1, false);
        } else if s[i] == ')' {
            if depth != 0 {
                lemma_group_end_bounds(s, i + 1, depth - 1, false);
            }
        } else {
            lemma_group_end_bounds(s, i + 1, depth, false);
        }
    }
}

/// Whether the group open at `i` names the whole-value group.
pub open spec fn spec_empty_group_at(s: Seq<char>, i: int) -> bool {
    match spec_group_open_at(s, i) {
        Some(g) => s.subrange(i + 4, g) == Seq::<char>::empty(),
        None => false,
    }
}

/// The text with every group named for the whole value replaced by the given
/// literal regex text; the group's own body is dropped — the tag must match
/// exactly, and contributes no capture group. A group whose body never
/// closes leaves the rest of the text unchanged.
pub open spec fn spec_expand_empty(s: Seq<char>, i: int, lit: Seq<char>) -> Seq<char>
    decreases s.len() - i,
    via spec_expand_empty_dec
{
    if i < 0 || i >= s.len() {
        Seq::empty()
    } else if spec_empty_group_at(s, i) {
        let g = spec_group_open_at(s, i)->0;
        match spec_group_end(s, g + 1, 0, false) {
            Some(e) => lit + spec_expand_empty(s, e + 1, lit),
            None => s.skip(i),
        }
    } else {
        seq![s[i]] + spec_expand_empty(s, i + 1, lit)
    }
}

#[via_fn]
proof fn spec_expand_empty_dec(s: Seq<char>, i: int, lit: Seq<char>) {
    if 0 <= i < s.len() && spec_empty_group_at(s, i) {
        lemma_run_name_bounds(s.skip(i + 4));
        let g = spec_group_open_at(s, i)->0;
        lemma_group_end_bounds(s, g + 1, 0, false);
    }
}

/// Replaces each whole-value group with the given literal regex text.
pub fn expand_empty(v: &Vec<char>, lit: &str) -> (r: String)
    ensures
        r@ == spec_expand_empty(v@, 0, lit@),
{
    let mut out = String::new();
    let mut i: usize = 0;
    while i < v.len()
        invariant
            i <= v@.len(),
            out@ + spec_expand_empty(v@, i as int, lit@) == spec_expand_empty(v@, 0, lit@),
        decreases v@.len() - i,
    {
        let ghost out0 = out@;
        let mut plain = true;
        match group_open_at(v, i) {
            Some(g) => {
                if g == i + 4 {
                    proof {
                        assert(v@.subrange(i + 4 as int, g as int) =~= Seq::<char>::empty());
                        assert(spec_empty_group_at(v@, i as int));
                    }
                    plain = false;
                    match group_end(v, g + 1) {
                        Some(e) => {
                            out.append(lit);
                            proof {
                                assert(out@ + spec_expand_empty(v@, e + 1 as int, lit@) =~= out0
                                    + spec_expand_empty(v@, i as int, lit@));
                            }
                            i = e + 1;
                        },
                        None => {
                            let rest = string_of(&subvec(v, i, v.len()));
                            out.append(rest.as_str());
                            proof {
                                assert(v@.subrange(i as int, v@.len() as int) =~= v@.skip(
                                    i as int,
                                ));
                                assert(out@ =~= out0 + spec_expand_empty(v@, i as int, lit@));
                                assert(spec_expand_empty(v@, v@.len() as int, lit@) =~= Seq::<
                                    char,
                                >::empty());
                                assert(out@ + spec_expand_empty(v@, v@.len() as int, lit@)
                                    =~= out@);
                            }
                            i = v.len();
                        },
                    }
                } else {
                    proof {
                        assert(v@.subrange(i + 4 as int, g as int).len() > 0);
                        assert(!spec_empty_group_at(v@, i as int));
                    }
                }
            },
            None => {
                proof {
                    assert(!spec_empty_group_at(v@, i as int));
                }
            },
        }
        if plain {
            push_char(&mut out, v[i]);
            proof {
                assert(out@ =~= out0 + seq![v@[i as int]]);
                assert(out@ + spec_expand_empty(v@, i + 1 as int, lit@) =~= out0
                    + spec_expand_empty(v@, i as int, lit@));
            }
            i += 1;
        }
    }
    proof {
        assert(spec_expand_empty(v@, v@.len() as int, lit@) =~= Seq::<char>::empty());
        assert(out@ + spec_expand_empty(v@, v@.len() as int, lit@) =~= out@);
    }
    out
}

/// Finds the parenthesis closing the group body that starts at `from`.
pub fn group_end(v: &Vec<char>, from: usize) -> (r: Option<usize>)
    requires
        from <= v@.len(),
    ensures
        r matches Some(e) ==> spec_group_end(v@, from as int, 0, false) == Some(e as int) && from
            <= e < v@.len(),
        r is None ==> spec_group_end(v@, from as int, 0, false) is None,
{
    let mut i = from;
    let mut depth: usize = 0;
    let mut in_class = false;
    while i < v.len()
        invariant
            from <= i,
            i <= v@.len() + 1,
            depth <= i,
            spec_group_end(v@, from as int, 0, false) == spec_group_end(
                v@,
                i as int,
                depth as int,
                in_class,
            ),
        decreases v@.len() - i,
    {
        let c = v[i];
        if c == '\\' {
            if i + 1 >= v.len() {
                return None;
            }
            i = i + 2;
        } else if in_class {
            if c == ']' {
                in_class = false;
            }
            i = i + 1;
        } else if c == '[' {
            in_class = true;
            i = i + 1;
        } else if c == '(' {
            depth = depth + 1;
            i = i + 1;
        } else if c == ')' {
            if depth == 0 {
                return Some(i);
            }
            depth = depth - 1;
            i = i + 1;
        } else {
            i = i + 1;
        }
    }
    None
}

} // verus!
