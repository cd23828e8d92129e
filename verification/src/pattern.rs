//! Pattern predicates backed by the regex crate.
//!
//! A pattern's validity and its match results are functions of the pattern
//! and haystack texts alone, so both get a name that the contracts of the
//! rule engine speak of. An invalid pattern never aborts evaluation: it
//! simply fails to match.
use vstd::prelude::*;

verus! {

/// Whether the regex crate accepts `pattern` as a pattern.
pub uninterp spec fn pattern_valid(pattern: Seq<char>) -> bool;

/// Whether the pattern finds a match anywhere in `text`.
pub uninterp spec fn pattern_matches(pattern: Seq<char>, text: Seq<char>) -> bool;

/// Relies on regex::Regex::new, whose success depends on the pattern text
/// alone, and on regex::Regex::is_match, whose result depends on the
/// pattern and haystack texts alone.
#[verifier::external_body]
fn regex_try_match(pattern: &str, text: &str) -> (r: Option<bool>)
    ensures
        r is Some <==> pattern_valid(pattern@),
        r matches Some(b) ==> b == pattern_matches(pattern@, text@),
{
    match regex::Regex::new(pattern) {
        Ok(re) => Some(re.is_match(text)),
        Err(_) => None,
    }
}

/// What a pattern filter means: an invalid pattern never matches.
pub open spec fn spec_pattern_filter(pattern: Seq<char>, text: Seq<char>) -> bool {
    pattern_valid(pattern) && pattern_matches(pattern, text)
}

/// Pattern-matches `text`, treating an invalid pattern as "no match".
pub fn pattern_filter_match(pattern: &str, text: &str) -> (r: bool)
    ensures
        r == spec_pattern_filter(pattern@, text@),
{
    match regex_try_match(pattern, text) {
        Some(b) => b,
        None => false,
    }
}

} // verus!
