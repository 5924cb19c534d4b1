//! Regular expressions: the compiled form of a step's pattern and the search
//! that finds its capture groups in a step name.
//!
//! The expressions are compiled and run by the `regex` crate. What this module
//! states of it is taken on trust.

use regex::Regex;
use vstd::prelude::*;

verus! {

#[verifier::external_type_specification]
#[verifier::external_body]
pub struct ExRegex(Regex);

#[verifier::external_type_specification]
#[verifier::external_body]
pub struct ExRegexError(regex::Error);

/// Whether `Regex::new` takes a pattern: the pattern is a regular expression
/// in the syntax of the `regex` crate, and its compiled form is within the
/// size that the crate allows by default.
pub uninterp spec fn regex_compiles(pattern: Seq<char>) -> bool;

/// The pattern text that a compiled expression was made from: what
/// `Regex::as_str` returns.
pub uninterp spec fn regex_source(re: Regex) -> Seq<char>;

/// What `Regex::captures` finds for an expression in a text: `None` where the
/// expression matches nowhere; else, for the leftmost match, one entry per
/// capture group in the order of their opening parentheses, the whole match
/// first. An entry is `None` for a group that took no part in the match, and
/// else holds the text that the group matched and the byte offset in the
/// searched text at which it starts.
pub uninterp spec fn regex_captures(re: Regex, text: Seq<char>) -> Option<
    Seq<Option<(Seq<char>, usize)>>,
>;

/// The capture groups of one search, as plain values.
pub type Groups = Vec<Option<(String, usize)>>;

/// The mathematical value of a search result.
pub open spec fn groups_view(found: Option<Groups>) -> Option<Seq<Option<(Seq<char>, usize)>>> {
    match found {
        None => None,
        Some(groups) => Some(
            Seq::new(
                groups@.len(),
                |i: int|
                    match groups@[i] {
                        Some((text, start)) => Some((text@, start)),
                        None => None,
                    },
            ),
        ),
    }
}

/// `Regex::new`: compiles a pattern. Whether it does depends on the pattern
/// alone, and a compiled expression remembers the pattern it was made from.
#[verifier::external_body]
pub(crate) fn compile(pattern: &str) -> (r: Result<Regex, regex::Error>)
    ensures
        r is Ok <==> regex_compiles(pattern@),
        r matches Ok(re) ==> regex_source(re) == pattern@,
{
    Regex::new(pattern)
}

/// `Regex::as_str`: the pattern text of a compiled expression.
#[verifier::external_body]
pub(crate) fn source_of(re: &Regex) -> (s: &str)
    ensures
        s@ == regex_source(*re),
{
    re.as_str()
}

/// The `Display` text of `regex::Error`: why a pattern did not compile.
/// Nothing is claimed of the text.
#[verifier::external_body]
pub(crate) fn error_text(error: &regex::Error) -> String {
    error.to_string()
}

/// `Regex::captures`: searches `text` and hands out each capture group of the
/// leftmost match as the text it matched (`Match::as_str`) and the byte offset
/// of its start (`Match::start`).
#[verifier::external_body]
pub(crate) fn search(re: &Regex, text: &str) -> (found: Option<Groups>)
    ensures
        groups_view(found) == regex_captures(*re, text@),
{
    match re.captures(text) {
        None => None,
        Some(captures) => {
            let mut groups = Vec::new();
            for group in captures.iter() {
                groups.push(group.map(|m| (m.as_str().to_owned(), m.start())));
            }
            Some(groups)
        },
    }
}

} // verus!
