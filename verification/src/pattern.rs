//! Regular expressions, as far as the reply parsers need them.

use vstd::prelude::*;

verus! {

/// A compiled regular expression of the `regex` crate. Nothing of its inside
/// is looked at here.
#[verifier::external_type_specification]
#[verifier::external_body]
pub struct ExRegex(regex::Regex);

/// The text that the first capture group of the regular expression `pattern`
/// takes in the leftmost match within `haystack`. `None` where `pattern` is
/// no valid expression, where nothing in `haystack` matches, and where the
/// match leaves the group out.
pub uninterp spec fn first_group(pattern: Seq<char>, haystack: Seq<char>) -> Option<Seq<char>>;

/// The pattern that a compiled expression was made from, which is what
/// `Regex::as_str` gives back.
pub uninterp spec fn source_of(expression: regex::Regex) -> Seq<char>;

/// Compiles `pattern` with `regex::Regex::new`.
///
/// Nothing is proved of this function. It is taken to return an expression
/// made from `pattern`, or `None` where the `regex` crate refuses the
/// pattern; such a pattern captures nothing anywhere.
#[verifier::external_body]
pub(crate) fn compile(pattern: &str) -> (r: Option<regex::Regex>)
    ensures
        match r {
            Some(expression) => source_of(expression) == pattern@,
            None => forall|haystack: Seq<char>| (#[trigger] first_group(pattern@, haystack)) is None,
        },
{
    regex::Regex::new(pattern).ok()
}

/// Searches `haystack` with `Regex::captures` and takes group 1 of the
/// result by `Captures::get`.
///
/// Nothing is proved of this function. It is taken to return what the
/// `regex` crate computes for the expression's pattern and the text, which
/// this crate calls `first_group`.
#[verifier::external_body]
pub(crate) fn capture_first_group(expression: &regex::Regex, haystack: &str) -> (r: Option<String>)
    ensures
        match r {
            Some(text) => first_group(source_of(*expression), haystack@) == Some(text@),
            None => first_group(source_of(*expression), haystack@) is None,
        },
{
    expression.captures(haystack).and_then(|found| found.get(1)).map(
        |group| group.as_str().to_string(),
    )
}

} // verus!
