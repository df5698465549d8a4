//! Name-pattern matching for the status and stop selections.
//!
//! Patterns are regular expressions; compiling and matching them is the
//! regex crate's work, named here by two uninterpreted functions so that the
//! selection logic can be exact about which names it keeps.

use vstd::prelude::*;

verus! {

/// Whether `pattern` is a valid regular expression (within the regex crate's
/// default size limit) — the condition under which compilation succeeds.
pub uninterp spec fn regex_accepts(pattern: Seq<char>) -> bool;

/// Whether the regular expression `pattern` matches anywhere in `text`.
pub uninterp spec fn regex_matches(pattern: Seq<char>, text: Seq<char>) -> bool;

/// Tests `text` against the regular expression `pattern`.
///
/// Relies on regex::Regex::new, whose result is Ok exactly when the pattern
/// is a valid regular expression (a property of the pattern text alone), and
/// on regex::Regex::is_match, which reports whether the compiled pattern
/// matches anywhere in the haystack (a function of pattern and haystack
/// alone). The error value carries the regex crate's own message.
#[verifier::external_body]
pub fn regex_match(pattern: &str, text: &str) -> (r: Result<bool, String>)
    ensures
        r is Ok <==> regex_accepts(pattern@),
        r matches Ok(b) ==> b == regex_matches(pattern@, text@),
{
    match regex::Regex::new(pattern) {
        Ok(re) => Ok(re.is_match(text)),
        Err(e) => Err(e.to_string()),
    }
}

} // verus!
