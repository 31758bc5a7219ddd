//! Fuzzy scoring of a query against a display name.

use vstd::prelude::*;

verus! {

/// The score of the best fuzzy match of `query` in `name`, or `None` where
/// the whole query cannot be matched. It depends on the two texts alone.
pub uninterp spec fn fuzzy_score(query: Seq<char>, name: Seq<char>) -> Option<isize>;

/// Trusted: `sublime_fuzzy::best_match`, followed by `Match::score` on what
/// it found. The search matches letters whatever their case, skips
/// whitespace in the query and uses the crate's default scoring. The claim
/// made here is only that the score is a function of the two texts.
#[verifier::external_body]
pub(crate) fn best_match_score(query: &str, name: &str) -> (r: Option<isize>)
    ensures
        r == fuzzy_score(query@, name@),
{
    match sublime_fuzzy::best_match(query, name) {
        Some(found) => Some(found.score()),
        None => None,
    }
}

/// Whether a score keeps its object among the matches: there is a match and
/// its score is not negative.
pub open spec fn is_real_match(score: Option<isize>) -> bool {
    match score {
        Some(s) => s >= 0,
        None => false,
    }
}

} // verus!
