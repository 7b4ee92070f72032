//! Regular expressions.

use vstd::prelude::*;

verus! {

/// What the `regex` crate finds wrong with a pattern, in words; `None` where the pattern is in
/// order. The crate also refuses patterns that take too much memory once compiled, which depends
/// on the width of a pointer: of a pattern that large, the name speaks for the platform at hand.
pub uninterp spec fn regex_error(pattern: Seq<char>) -> Option<Seq<char>>;

/// Whether the `regex` crate accepts `pattern` and finds a match for it anywhere in `text`.
pub uninterp spec fn regex_matches(pattern: Seq<char>, text: Seq<char>) -> bool;

/// An optional text by its characters.
pub open spec fn optional_text(text: Option<String>) -> Option<Seq<char>> {
    match text {
        Some(text) => Some(text@),
        None => None,
    }
}

/// An optional text keeps its characters, and none stays none.
pub proof fn law_optional_text_keeps_its_characters(text: String)
    ensures
        optional_text(Some(text)) == Some(text@),
        optional_text(None) is None,
{
}

/// Compiles `pattern` and returns the message of the error, if there is one.
///
/// Calls `regex::Regex::new`; the contract says that whether it fails, and with which message, is
/// decided by the pattern alone.
#[verifier::external_body]
pub(crate) fn pattern_error(pattern: &str) -> (error: Option<String>)
    ensures
        optional_text(error) == regex_error(pattern@),
{
    match regex::Regex::new(pattern) {
        Ok(_) => None,
        Err(error) => Some(error.to_string()),
    }
}

/// Whether `pattern` matches somewhere in `text`.
///
/// Calls `regex::Regex::is_match` on the compiled pattern; the contract says that the answer is
/// decided by the pattern and the text alone. A pattern that does not compile matches nothing.
#[verifier::external_body]
pub(crate) fn pattern_matches(pattern: &str, text: &str) -> (matched: bool)
    ensures
        matched == regex_matches(pattern@, text@),
{
    match regex::Regex::new(pattern) {
        Ok(regex) => regex.is_match(text),
        Err(_) => false,
    }
}

} // verus!
