//! Field keys and dotted field paths. A key addresses one field of a record,
//! by name or by position; a path is a non-empty sequence of keys that walks
//! into nested structure.

use vstd::prelude::*;
use crate::text::{
    chars_of, decimal_string, parse_usize, spec_all_digits, spec_dec_val, spec_decimal,
    spec_trim_raw, string_of, trim_raw,
};

verus! {

/// One segment of a field path: a named field or a positional index.
#[derive(Debug)]
pub enum FieldKey {
    Named(String),
    Unnamed(usize),
}

impl Clone for FieldKey {
    fn clone(&self) -> (r: Self)
        ensures
            r@ == self@,
    {
        match self {
            FieldKey::Named(s) => FieldKey::Named(s.clone()),
            FieldKey::Unnamed(i) => FieldKey::Unnamed(*i),
        }
    }
}

/// The mathematical value of a `FieldKey`.
pub enum KeyV {
    Named(Seq<char>),
    Unnamed(int),
}

impl View for FieldKey {
    type V = KeyV;

    open spec fn view(&self) -> KeyV {
        match self {
            FieldKey::Named(s) => KeyV::Named(s@),
            FieldKey::Unnamed(i) => KeyV::Unnamed(*i as int),
        }
    }
}

impl DeepView for FieldKey {
    type V = KeyV;

    open spec fn deep_view(&self) -> KeyV {
        self.view()
    }
}

impl PartialEq for FieldKey {
    fn eq(&self, other: &FieldKey) -> (r: bool) {
        match (self, other) {
            (FieldKey::Named(a), FieldKey::Named(b)) => crate::text::str_eq(
                a.as_str(),
                b.as_str(),
            ),
            (FieldKey::Unnamed(a), FieldKey::Unnamed(b)) => *a == *b,
            _ => false,
        }
    }
}

impl Eq for FieldKey {}

impl vstd::std_specs::cmp::PartialEqSpecImpl for FieldKey {
    open spec fn obeys_eq_spec() -> bool {
        true
    }

    open spec fn eq_spec(&self, other: &FieldKey) -> bool {
        self@ == other@
    }
}

/// The key a path segment denotes: a parseable non-negative number is a
/// positional index; anything else is a name, with the raw-identifier escape
/// stripped.
pub open spec fn spec_key_of(s: Seq<char>) -> KeyV {
    if s.len() > 0 && spec_all_digits(s) && spec_dec_val(s) <= usize::MAX {
        KeyV::Unnamed(spec_dec_val(s) as int)
    } else {
        KeyV::Named(spec_trim_raw(s))
    }
}

/// The rendering of a key as text.
pub open spec fn spec_key_text(k: KeyV) -> Seq<char> {
    match k {
        KeyV::Named(s) => s,
        KeyV::Unnamed(i) => spec_decimal(i as nat),
    }
}

impl FieldKey {
    /// Reads one path segment.
    pub fn from_str(s: &str) -> (r: FieldKey)
        ensures
            r@ == spec_key_of(s@),
    {
        let v = chars_of(s);
        match parse_usize(&v) {
            Some(idx) => FieldKey::Unnamed(idx),
            None => FieldKey::Named(trim_raw(s).to_owned()),
        }
    }

    /// Reads one path segment from an owned string.
    pub fn from_string(s: String) -> (r: FieldKey)
        ensures
            r@ == spec_key_of(s@),
    {
        FieldKey::from_str(s.as_str())
    }

    /// Reads a dotted path. The empty string is the empty path, which stands
    /// for the value itself in the current context.
    pub fn from_str_deep(s: &str) -> (r: Vec<FieldKey>)
        ensures
            r@.map_values(|k: FieldKey| k@) == spec_path_of(s@),
    {
        let mut r: Vec<FieldKey> = Vec::new();
        let v = chars_of(s);
        if v.len() == 0 {
            proof {
                assert(r@.map_values(|k: FieldKey| k@) =~= spec_path_of(s@));
            }
            return r;
        }
        let segs = split_dots(&v);
        let mut i: usize = 0;
        let ghost segsm = segs@.map_values(|t: Vec<char>| t@);
        while i < segs.len()
            invariant
                i <= segs@.len(),
                segsm == segs@.map_values(|t: Vec<char>| t@),
                r@.map_values(|k: FieldKey| k@) =~= segsm.subrange(0, i as int).map_values(
                    |t: Seq<char>| spec_key_of(t),
                ),
            decreases segs@.len() - i,
        {
            let seg = string_of(&segs[i]);
            let ghost r_old = r@;
            let k = FieldKey::from_string(seg);
            proof {
                assert(k@ == spec_key_of(segsm[i as int]));
            }
            r.push(k);
            proof {
                assert(r@ =~= r_old.push(k));
                assert(r@.map_values(|k: FieldKey| k@) =~= r_old.map_values(
                    |k: FieldKey| k@,
                ).push(k@));
                assert(segsm.subrange(0, i + 1 as int).map_values(|t: Seq<char>| spec_key_of(t))
                    =~= segsm.subrange(0, i as int).map_values(|t: Seq<char>| spec_key_of(t)).push(
                    spec_key_of(segsm[i as int]),
                ));
            }
            i += 1;
        }
        proof {
            assert(segsm.subrange(0, segsm.len() as int) =~= segsm);
            assert(r@.map_values(|k: FieldKey| k@) =~= spec_path_of(s@));
        }
        r
    }

    /// Renders the key as text: the name, or the decimal index.
    pub fn to_text(&self) -> (r: String)
        ensures
            r@ == spec_key_text(self@),
    {
        match self {
            FieldKey::Named(s) => s.clone(),
            FieldKey::Unnamed(i) => decimal_string(*i),
        }
    }
}

/// The keys of a dotted path: empty for the empty string, otherwise one key
/// per dot-separated segment.
pub open spec fn spec_path_of(s: Seq<char>) -> Seq<KeyV> {
    if s.len() == 0 {
        Seq::empty()
    } else {
        spec_split_dots(s).map_values(|t: Seq<char>| spec_key_of(t))
    }
}

/// The dot-separated segments of a string; splitting keeps empty segments.
pub open spec fn spec_split_dots(s: Seq<char>) -> Seq<Seq<char>>
    decreases s.len(),
{
    if s.len() == 0 {
        seq![Seq::<char>::empty()]
    } else if s[0] == '.' {
        seq![Seq::<char>::empty()] + spec_split_dots(s.skip(1))
    } else {
        let rest = spec_split_dots(s.skip(1));
        seq![seq![s[0]] + rest[0]] + rest.skip(1)
    }
}

/// Splitting always yields at least one segment.
pub proof fn lemma_split_dots_nonempty(s: Seq<char>)
    ensures
        spec_split_dots(s).len() >= 1,
    decreases s.len(),
{
    if s.len() != 0 && s[0] != '.' {
        lemma_split_dots_nonempty(s.skip(1));
    }
}

/// Splits a character sequence at dots, keeping empty segments.
fn split_dots(v: &Vec<char>) -> (r: Vec<Vec<char>>)
    ensures
        r@.map_values(|t: Vec<char>| t@) =~= spec_split_dots(v@),
{
    let mut done: Vec<Vec<char>> = Vec::new();
    let mut cur: Vec<char> = Vec::new();
    let mut i: usize = 0;
    proof {
        assert(v@.skip(0) =~= v@);
        lemma_split_dots_nonempty(v@);
        let tail = spec_split_dots(v@);
        assert(tail =~= seq![tail[0]] + tail.skip(1));
        assert(cur@ + tail[0] =~= tail[0]);
    }
    while i < v.len()
        invariant
            i <= v@.len(),
            spec_split_dots(v@) =~= done@.map_values(|t: Vec<char>| t@) + ({
                let tail = spec_split_dots(v@.skip(i as int));
                seq![cur@ + tail[0]] + tail.skip(1)
            }),
        decreases v@.len() - i,
    {
        proof {
            lemma_split_dots_nonempty(v@.skip(i as int));
            lemma_split_dots_nonempty(v@.skip(i + 1 as int));
            assert(v@.skip(i as int)[0] == v@[i as int]);
            assert(v@.skip(i as int).skip(1) =~= v@.skip(i + 1 as int));
        }
        let ghost tail_new = spec_split_dots(v@.skip(i + 1 as int));
        let c = v[i];
        if c == '.' {
            // The dot closes the current segment; the next one starts empty.
            done.push(cur);
            cur = Vec::new();
            proof {
                assert(spec_split_dots(v@.skip(i as int)) == seq![Seq::<char>::empty()]
                    + tail_new);
                assert(cur@ + tail_new[0] =~= tail_new[0]);
                assert((seq![Seq::<char>::empty()] + tail_new).skip(1) =~= tail_new);
                assert(tail_new =~= seq![tail_new[0]] + tail_new.skip(1));
            }
        } else {
            proof {
                assert(spec_split_dots(v@.skip(i as int)) == seq![seq![v@[i as int]]
                    + tail_new[0]] + tail_new.skip(1));
                assert(cur@.push(c) + tail_new[0] =~= cur@ + (seq![c] + tail_new[0]));
                assert((seq![seq![c] + tail_new[0]] + tail_new.skip(1)).skip(1) =~= tail_new.skip(
                    1,
                ));
            }
            cur.push(c);
        }
        i += 1;
    }
    proof {
        assert(v@.skip(v@.len() as int) =~= Seq::<char>::empty());
        let tail = spec_split_dots(Seq::<char>::empty());
        assert(cur@ + tail[0] =~= cur@);
    }
    done.push(cur);
    done
}

} // verus!
