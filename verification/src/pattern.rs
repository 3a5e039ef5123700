//! The boundary to the regex engine: compiling an operator-supplied pattern
//! and testing a haystack against it.

use vstd::prelude::*;

verus! {

#[verifier::external_type_specification]
#[verifier::external_body]
pub struct ExRegex(regex::Regex);

/// Whether the regex engine accepts a pattern: a function of the pattern
/// alone, under the engine's default configuration.
pub uninterp spec fn regex_accepts(pattern: Seq<char>) -> bool;

/// Whether a pattern matches anywhere in a haystack: a function of the
/// pattern and the haystack alone.
pub uninterp spec fn regex_matches(pattern: Seq<char>, hay: Seq<char>) -> bool;

/// The source pattern a compiled regex was built from.
pub uninterp spec fn regex_source(re: regex::Regex) -> Seq<char>;

/// A character the regex engine treats as significant; its escaping places
/// a backslash before each of these, a set the engine documents as fixed.
pub open spec fn is_regex_meta(c: char) -> bool {
    ||| c == '\\'
    ||| c == '.'
    ||| c == '+'
    ||| c == '*'
    ||| c == '?'
    ||| c == '('
    ||| c == ')'
    ||| c == '|'
    ||| c == '['
    ||| c == ']'
    ||| c == '{'
    ||| c == '}'
    ||| c == '^'
    ||| c == '$'
    ||| c == '#'
    ||| c == '&'
    ||| c == '-'
    ||| c == '~'
}

/// The regex-escaped form of a text: a backslash before every meta
/// character, everything else verbatim.
pub open spec fn regex_escaped(text: Seq<char>) -> Seq<char>
    decreases text.len(),
{
    if text.len() == 0 {
        Seq::empty()
    } else {
        regex_escaped(text.drop_last()) + (if is_regex_meta(text.last()) {
            seq!['\\', text.last()]
        } else {
            seq![text.last()]
        })
    }
}

/// Relies on `regex::Regex::new`: it returns `Ok` exactly when the pattern is
/// a valid regex within the default size limit, both functions of the pattern
/// alone, and the compiled value keeps its source pattern (`Regex::as_str`
/// returns it). The error case carries the error's display text.
#[verifier::external_body]
pub(crate) fn regex_new(pattern: &str) -> (r: Result<regex::Regex, String>)
    ensures
        r is Ok <==> regex_accepts(pattern@),
        r matches Ok(re) ==> regex_source(re) == pattern@,
{
    match regex::Regex::new(pattern) {
        Ok(re) => Ok(re),
        Err(e) => Err(e.to_string()),
    }
}

/// Relies on `regex::Regex::is_match`: true if and only if the regex matches
/// anywhere in the haystack, a function of the source pattern and the
/// haystack alone.
#[verifier::external_body]
pub(crate) fn regex_is_match(re: &regex::Regex, hay: &str) -> (r: bool)
    ensures
        r == regex_matches(regex_source(*re), hay@),
{
    re.is_match(hay)
}

/// Relies on `regex::escape`: it writes a backslash before every meta
/// character and each character after it, exactly as `regex_escaped` says.
#[verifier::external_body]
pub(crate) fn regex_escape(text: &str) -> (r: String)
    ensures
        r@ == regex_escaped(text@),
{
    regex::escape(text)
}

} // verus!
