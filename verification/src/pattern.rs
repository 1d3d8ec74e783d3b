//! Regular-expression search, done by the `regex` crate.

use vstd::prelude::*;

verus! {

/// What searching `haystack` with the regular expression written as
/// `pattern` gives: `None` where `regex::Regex::new` turns the pattern down,
/// else whether `regex::Regex::is_match` finds a match anywhere in the
/// haystack. The syntax and the matching rules are those of the `regex`
/// crate and are not unfolded here.
pub uninterp spec fn regex_is_match(pattern: Seq<char>, haystack: Seq<char>) -> Option<bool>;

/// Compiles `pattern` with `regex::Regex::new` and searches `haystack` with
/// `regex::Regex::is_match`. The contract claims only that the outcome is
/// determined by the two texts; neither call panics.
#[verifier::external_body]
pub(crate) fn is_match(pattern: &str, haystack: &str) -> (verdict: Option<bool>)
    ensures
        verdict == regex_is_match(pattern@, haystack@),
{
    match regex::Regex::new(pattern) {
        Ok(compiled) => Some(compiled.is_match(haystack)),
        Err(_) => None,
    }
}

} // verus!
