//! Casing styles for variant tags. A style renders an identifier-like word
//! sequence in one of several textual conventions; word boundaries fall at
//! dropped non-alphanumeric characters and at case transitions.

use vstd::prelude::*;
use crate::text::{
    char_is_alphanumeric, chars_of, push_char, spec_is_alphanumeric, spec_is_ascii_lower,
    spec_is_ascii_upper, spec_to_ascii_lower, spec_to_ascii_upper, str_eq, to_ascii_lower,
    to_ascii_upper,
};

verus! {

/// A named casing convention.
#[derive(Clone, Copy, Debug, PartialEq, Eq, Structural)]
pub enum DisplayStyle {
    NoStyle,
    LowerCase,
    UpperCase,
    LowerSnakeCase,
    UpperSnakeCase,
    LowerCamelCase,
    UpperCamelCase,
    LowerKebabCase,
    UpperKebabCase,
    TitleCase,
    TitleCaseUpper,
    TitleCaseLower,
    TitleCaseHead,
}

/// The error returned when a style name is not recognized.
#[derive(Clone, Copy, Debug, PartialEq, Eq, Structural)]
pub struct ParseDisplayStyleError;

impl ParseDisplayStyleError {
    /// The diagnostic text for an unrecognized style name.
    pub fn message(&self) -> (r: String)
        ensures
            r@ == "invalid display style"@,
    {
        let mut r = String::new();
        r.append("invalid display style");
        r
    }
}

/// The style a name denotes, if any.
pub open spec fn spec_parse_style(s: Seq<char>) -> Option<DisplayStyle> {
    if s == "none"@ {
        Some(DisplayStyle::NoStyle)
    } else if s == "lowercase"@ {
        Some(DisplayStyle::LowerCase)
    } else if s == "UPPERCASE"@ {
        Some(DisplayStyle::UpperCase)
    } else if s == "snake_case"@ {
        Some(DisplayStyle::LowerSnakeCase)
    } else if s == "SNAKE_CASE"@ {
        Some(DisplayStyle::UpperSnakeCase)
    } else if s == "camelCase"@ {
        Some(DisplayStyle::LowerCamelCase)
    } else if s == "CamelCase"@ {
        Some(DisplayStyle::UpperCamelCase)
    } else if s == "kebab-case"@ {
        Some(DisplayStyle::LowerKebabCase)
    } else if s == "KEBAB-CASE"@ {
        Some(DisplayStyle::UpperKebabCase)
    } else if s == "Title Case"@ {
        Some(DisplayStyle::TitleCase)
    } else if s == "TITLE CASE"@ {
        Some(DisplayStyle::TitleCaseUpper)
    } else if s == "title case"@ {
        Some(DisplayStyle::TitleCaseLower)
    } else if s == "Title case"@ {
        Some(DisplayStyle::TitleCaseHead)
    } else {
        None
    }
}

/// Whether a kept character starts a new word. A word starts at the head of
/// the string, after a dropped character, on a transition from non-uppercase
/// to uppercase, and at the last uppercase letter of an uppercase run that is
/// followed by a lowercase letter (so an acronym stays one word).
pub open spec fn spec_word_start(s: Seq<char>, i: int) -> bool {
    i == 0 || !spec_is_alphanumeric(s[i - 1]) || (!spec_is_ascii_upper(s[i - 1])
        && spec_is_ascii_upper(s[i])) || (spec_is_ascii_upper(s[i - 1]) && spec_is_ascii_upper(
        s[i],
    ) && i + 1 < s.len() && spec_is_ascii_lower(s[i + 1]))
}

/// Whether the style uppercases the first character of the whole rendering.
pub open spec fn spec_line_head_upper(style: DisplayStyle) -> bool {
    match style {
        DisplayStyle::NoStyle => false,
        DisplayStyle::LowerCase => false,
        DisplayStyle::UpperCase => true,
        DisplayStyle::LowerSnakeCase => false,
        DisplayStyle::UpperSnakeCase => true,
        DisplayStyle::LowerCamelCase => false,
        DisplayStyle::UpperCamelCase => true,
        DisplayStyle::LowerKebabCase => false,
        DisplayStyle::UpperKebabCase => true,
        DisplayStyle::TitleCase => true,
        DisplayStyle::TitleCaseUpper => true,
        DisplayStyle::TitleCaseLower => false,
        DisplayStyle::TitleCaseHead => true,
    }
}

/// Whether the style uppercases the first character of each later word.
pub open spec fn spec_word_head_upper(style: DisplayStyle) -> bool {
    match style {
        DisplayStyle::NoStyle => false,
        DisplayStyle::LowerCase => false,
        DisplayStyle::UpperCase => true,
        DisplayStyle::LowerSnakeCase => false,
        DisplayStyle::UpperSnakeCase => true,
        DisplayStyle::LowerCamelCase => true,
        DisplayStyle::UpperCamelCase => true,
        DisplayStyle::LowerKebabCase => false,
        DisplayStyle::UpperKebabCase => true,
        DisplayStyle::TitleCase => true,
        DisplayStyle::TitleCaseUpper => true,
        DisplayStyle::TitleCaseLower => false,
        DisplayStyle::TitleCaseHead => false,
    }
}

/// Whether the style uppercases characters in the middle of a word.
pub open spec fn spec_normal_upper(style: DisplayStyle) -> bool {
    match style {
        DisplayStyle::NoStyle => false,
        DisplayStyle::LowerCase => false,
        DisplayStyle::UpperCase => true,
        DisplayStyle::LowerSnakeCase => false,
        DisplayStyle::UpperSnakeCase => true,
        DisplayStyle::LowerCamelCase => false,
        DisplayStyle::UpperCamelCase => false,
        DisplayStyle::LowerKebabCase => false,
        DisplayStyle::UpperKebabCase => true,
        DisplayStyle::TitleCase => false,
        DisplayStyle::TitleCaseUpper => true,
        DisplayStyle::TitleCaseLower => false,
        DisplayStyle::TitleCaseHead => false,
    }
}

/// The separator the style inserts between words.
pub open spec fn spec_style_sep(style: DisplayStyle) -> Seq<char> {
    match style {
        DisplayStyle::LowerSnakeCase => "_"@,
        DisplayStyle::UpperSnakeCase => "_"@,
        DisplayStyle::LowerKebabCase => "-"@,
        DisplayStyle::UpperKebabCase => "-"@,
        DisplayStyle::TitleCase => " "@,
        DisplayStyle::TitleCaseUpper => " "@,
        DisplayStyle::TitleCaseLower => " "@,
        DisplayStyle::TitleCaseHead => " "@,
        _ => Seq::empty(),
    }
}

/// One character cased up or down.
pub open spec fn spec_case_char(c: char, upper: bool) -> char {
    if upper {
        spec_to_ascii_upper(c)
    } else {
        spec_to_ascii_lower(c)
    }
}

/// The rendering of the suffix of `s` from position `i` on; `started` records
/// whether a kept character was already rendered. Non-alphanumeric characters
/// are dropped; the separator stands before each word head after the first.
pub open spec fn spec_apply_from(style: DisplayStyle, s: Seq<char>, i: int, started: bool)
    -> Seq<char>
    decreases s.len() - i,
{
    if i < 0 || i >= s.len() {
        Seq::empty()
    } else if !spec_is_alphanumeric(s[i]) {
        spec_apply_from(style, s, i + 1, started)
    } else {
        let piece = if !started {
            seq![spec_case_char(s[i], spec_line_head_upper(style))]
        } else if spec_word_start(s, i) {
            spec_style_sep(style) + seq![spec_case_char(s[i], spec_word_head_upper(style))]
        } else {
            seq![spec_case_char(s[i], spec_normal_upper(style))]
        };
        piece + spec_apply_from(style, s, i + 1, true)
    }
}

/// The rendering of a word sequence in a style; the identity style keeps the
/// string unchanged, separators and all.
pub open spec fn spec_style_apply(style: DisplayStyle, s: Seq<char>) -> Seq<char> {
    if style == DisplayStyle::NoStyle {
        s
    } else {
        spec_apply_from(style, s, 0, false)
    }
}

impl DisplayStyle {
    /// Reads a style name; exactly the thirteen documented names are accepted.
    pub fn parse(s: &str) -> (r: Result<DisplayStyle, ParseDisplayStyleError>)
        ensures
            r matches Ok(style) ==> spec_parse_style(s@) == Some(style),
            r is Err <==> spec_parse_style(s@) is None,
    {
        if str_eq(s, "none") {
            Ok(DisplayStyle::NoStyle)
        } else if str_eq(s, "lowercase") {
            Ok(DisplayStyle::LowerCase)
        } else if str_eq(s, "UPPERCASE") {
            Ok(DisplayStyle::UpperCase)
        } else if str_eq(s, "snake_case") {
            Ok(DisplayStyle::LowerSnakeCase)
        } else if str_eq(s, "SNAKE_CASE") {
            Ok(DisplayStyle::UpperSnakeCase)
        } else if str_eq(s, "camelCase") {
            Ok(DisplayStyle::LowerCamelCase)
        } else if str_eq(s, "CamelCase") {
            Ok(DisplayStyle::UpperCamelCase)
        } else if str_eq(s, "kebab-case") {
            Ok(DisplayStyle::LowerKebabCase)
        } else if str_eq(s, "KEBAB-CASE") {
            Ok(DisplayStyle::UpperKebabCase)
        } else if str_eq(s, "Title Case") {
            Ok(DisplayStyle::TitleCase)
        } else if str_eq(s, "TITLE CASE") {
            Ok(DisplayStyle::TitleCaseUpper)
        } else if str_eq(s, "title case") {
            Ok(DisplayStyle::TitleCaseLower)
        } else if str_eq(s, "Title case") {
            Ok(DisplayStyle::TitleCaseHead)
        } else {
            Err(ParseDisplayStyleError)
        }
    }

    /// The style named by the variant's own directive, else the type-level
    /// one, else the identity.
    pub fn resolve(variant_style: Option<DisplayStyle>, type_style: Option<DisplayStyle>) -> (r:
        DisplayStyle)
        ensures
            r == spec_resolve_style(variant_style, type_style),
    {
        match variant_style {
            Some(s) => s,
            None => match type_style {
                Some(s) => s,
                None => DisplayStyle::NoStyle,
            },
        }
    }

    /// Renders a word in this style.
    pub fn apply(self, s: &str) -> (r: String)
        ensures
            r@ == spec_style_apply(self, s@),
    {
        if self == DisplayStyle::NoStyle {
            return s.to_owned();
        }
        let v = chars_of(s);
        let mut out = String::new();
        let mut started: bool = false;
        let mut i: usize = 0;
        while i < v.len()
            invariant
                i <= v@.len(),
                v@ == s@,
                self != DisplayStyle::NoStyle,
                out@ + spec_apply_from(self, v@, i as int, started) == spec_apply_from(
                    self,
                    v@,
                    0,
                    false,
                ),
                started <==> out@.len() > 0,
            decreases v@.len() - i,
        {
            let c = v[i];
            if char_is_alphanumeric(c) {
                if !started {
                    push_char(&mut out, to_ascii_upper_or_lower(c, line_head_upper(self)));
                    proof {
                        assert(out@ + spec_apply_from(self, v@, i + 1 as int, true)
                            =~= (out@.drop_last() + spec_apply_from(self, v@, i as int, false)));
                    }
                    started = true;
                } else {
                    let ws = i == 0 || !char_is_alphanumeric(v[i - 1]) || (!is_ascii_upper(
                        v[i - 1],
                    ) && is_ascii_upper(c)) || (is_ascii_upper(v[i - 1]) && is_ascii_upper(c) && i
                        + 1 < v.len() && is_ascii_lower(v[i + 1]));
                    proof {
                        assert(ws == spec_word_start(v@, i as int));
                    }
                    let ghost out_before = out@;
                    if ws {
                        out.append(style_sep(self));
                        push_char(&mut out, to_ascii_upper_or_lower(c, word_head_upper(self)));
                        proof {
                            assert(out@ =~= out_before + (spec_style_sep(self) + seq![
                                spec_case_char(c, spec_word_head_upper(self)),
                            ]));
                        }
                    } else {
                        push_char(&mut out, to_ascii_upper_or_lower(c, normal_upper(self)));
                        proof {
                            assert(out@ =~= out_before + seq![
                                spec_case_char(c, spec_normal_upper(self)),
                            ]);
                        }
                    }
                    proof {
                        assert(out@ + spec_apply_from(self, v@, i + 1 as int, true)
                            =~= out_before + spec_apply_from(self, v@, i as int, true));
                    }
                }
            }
            i += 1;
        }
        proof {
            assert(spec_apply_from(self, v@, v@.len() as int, started) =~= Seq::<char>::empty());
            assert(out@ =~= out@ + spec_apply_from(self, v@, v@.len() as int, started));
        }
        out
    }
}

/// The style in force for a variant: its own, else the type's, else identity.
pub open spec fn spec_resolve_style(
    variant_style: Option<DisplayStyle>,
    type_style: Option<DisplayStyle>,
) -> DisplayStyle {
    match variant_style {
        Some(s) => s,
        None => match type_style {
            Some(s) => s,
            None => DisplayStyle::NoStyle,
        },
    }
}

fn is_ascii_upper(c: char) -> (r: bool)
    ensures
        r == spec_is_ascii_upper(c),
{
    'A' <= c && c <= 'Z'
}

fn is_ascii_lower(c: char) -> (r: bool)
    ensures
        r == spec_is_ascii_lower(c),
{
    'a' <= c && c <= 'z'
}

fn to_ascii_upper_or_lower(c: char, upper: bool) -> (r: char)
    ensures
        r == spec_case_char(c, upper),
{
    if upper {
        to_ascii_upper(c)
    } else {
        to_ascii_lower(c)
    }
}

/// The separator text the style inserts between words.
fn style_sep(style: DisplayStyle) -> (r: &'static str)
    ensures
        r@ == spec_style_sep(style),
{
    match style {
        DisplayStyle::LowerSnakeCase => "_",
        DisplayStyle::UpperSnakeCase => "_",
        DisplayStyle::LowerKebabCase => "-",
        DisplayStyle::UpperKebabCase => "-",
        DisplayStyle::TitleCase => " ",
        DisplayStyle::TitleCaseUpper => " ",
        DisplayStyle::TitleCaseLower => " ",
        DisplayStyle::TitleCaseHead => " ",
        _ => {
            let r = "";
            proof {
                reveal_strlit("");
            }
            r
        },
    }
}

fn line_head_upper(style: DisplayStyle) -> (r: bool)
    ensures
        r == spec_line_head_upper(style),
{
    match style {
        DisplayStyle::UpperCase | DisplayStyle::UpperSnakeCase | DisplayStyle::UpperCamelCase
            | DisplayStyle::UpperKebabCase | DisplayStyle::TitleCase
            | DisplayStyle::TitleCaseUpper | DisplayStyle::TitleCaseHead => true,
        _ => false,
    }
}

fn word_head_upper(style: DisplayStyle) -> (r: bool)
    ensures
        r == spec_word_head_upper(style),
{
    match style {
        DisplayStyle::UpperCase | DisplayStyle::UpperSnakeCase | DisplayStyle::LowerCamelCase
            | DisplayStyle::UpperCamelCase | DisplayStyle::UpperKebabCase | DisplayStyle::TitleCase
            | DisplayStyle::TitleCaseUpper => true,
        _ => false,
    }
}

fn normal_upper(style: DisplayStyle) -> (r: bool)
    ensures
        r == spec_normal_upper(style),
{
    match style {
        DisplayStyle::UpperCase | DisplayStyle::UpperSnakeCase | DisplayStyle::UpperKebabCase
            | DisplayStyle::TitleCaseUpper => true,
        _ => false,
    }
}

} // verus!
