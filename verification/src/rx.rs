//! The two places this crate leans on the regex engine: validating a raw
//! user fragment at compile time, and running a finished program's pattern
//! against an input at parse time. Both calls are deterministic functions of
//! their textual arguments, so their results carry names that contracts can
//! speak of.

use vstd::prelude::*;

verus! {

/// What `regex_syntax::ast::parse::Parser::parse` accepts: whether the text
/// is a syntactically well-formed regular expression. The answer depends on
/// the text alone.
pub uninterp spec fn spec_is_valid_regex(s: Seq<char>) -> bool;

/// Relies on `regex_syntax::ast::parse::Parser::parse`: returns whether the
/// fragment parses as a regular expression.
#[verifier::external_body]
pub(crate) fn regex_fragment_ok(s: &str) -> (r: bool)
    ensures
        r == spec_is_valid_regex(s@),
{
    regex_syntax::ast::parse::Parser::new().parse(s).is_ok()
}

/// What compiling `pattern` with `regex::Regex::new`, running it once
/// against `input` with `Regex::captures`, and reading each group in `names`
/// with `Captures::name` yields: `None` when the pattern does not build or
/// does not match; else, per name, the text of the group when it took part
/// in the match. The engine is deterministic, so the answer depends on the
/// three arguments alone.
pub uninterp spec fn spec_regex_captures(
    pattern: Seq<char>,
    input: Seq<char>,
    names: Seq<Seq<char>>,
) -> Option<Seq<Option<Seq<char>>>>;

/// Relies on `regex::Regex::new`, `regex::Regex::captures` and
/// `regex::Captures::name`, as described at `spec_regex_captures`; the
/// result holds one entry per requested name.
#[verifier::external_body]
pub(crate) fn regex_captures(pattern: &str, input: &str, names: &Vec<String>) -> (r: Option<
    Vec<Option<String>>,
>)
    ensures
        r.deep_view() == spec_regex_captures(pattern@, input@, names.deep_view()),
        r matches Some(v) ==> v@.len() == names@.len(),
{
    let re = match regex::Regex::new(pattern) {
        Ok(re) => re,
        Err(_) => return None,
    };
    let caps = re.captures(input)?;
    Some(names.iter().map(|n| caps.name(n).map(|m| m.as_str().to_owned())).collect())
}

} // verus!
