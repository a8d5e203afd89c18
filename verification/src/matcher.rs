//! Fuzzy subsequence matching of a candidate text against a filter.

use fuzzy_matcher::skim::SkimMatcherV2;
use vstd::prelude::*;

verus! {

/// What the skim matcher, in its default configuration, finds for a candidate
/// and a non-empty pattern: the score and the matched character positions, or
/// `None` where it finds no match.
pub uninterp spec fn skim_fuzzy(choice: Seq<char>, pattern: Seq<char>, with_pos: bool) -> Option<
    (i64, Seq<usize>),
>;

/// The outcome of matching `choice` against `pattern`. The empty pattern
/// matches every candidate, with score 0 and no positions.
pub open spec fn fuzzy_spec(choice: Seq<char>, pattern: Seq<char>, with_pos: bool) -> Option<
    (i64, Seq<usize>),
> {
    if pattern.len() == 0 {
        Some((0i64, Seq::empty()))
    } else {
        skim_fuzzy(choice, pattern, with_pos)
    }
}

/// A match outcome with its positions as a sequence.
pub open spec fn found_view(found: Option<(i64, Vec<usize>)>) -> Option<(i64, Seq<usize>)> {
    match found {
        Some((score, positions)) => Some((score, positions@)),
        None => None,
    }
}

/// Calls `SkimMatcherV2::fuzzy` on a matcher made by `SkimMatcherV2::default`.
/// Trusted: for the empty pattern the call returns score 0 and no positions
/// before it looks at the candidate; for any other pattern the outcome depends
/// on the two texts and the flag alone, and is named `skim_fuzzy`.
#[verifier::external_body]
fn skim_match(choice: &str, pattern: &str, with_pos: bool) -> (found: Option<(i64, Vec<usize>)>)
    ensures
        found_view(found) == if pattern@.len() == 0 {
            Some((0i64, Seq::<usize>::empty()))
        } else {
            skim_fuzzy(choice@, pattern@, with_pos)
        },
{
    SkimMatcherV2::default().fuzzy(choice, pattern, with_pos)
}

/// Matches `candidate` against `filter` and reports the score and the matched
/// character positions.
pub fn fuzzy_indices(candidate: &str, filter: &str) -> (found: Option<(i64, Vec<usize>)>)
    ensures
        found_view(found) == fuzzy_spec(candidate@, filter@, true),
{
    skim_match(candidate, filter, true)
}

/// Matches `candidate` against `filter` and reports the score alone.
pub fn fuzzy_score(candidate: &str, filter: &str) -> (score: Option<i64>)
    ensures
        score == match fuzzy_spec(candidate@, filter@, false) {
            Some((s, _)) => Some(s),
            None => None,
        },
{
    match skim_match(candidate, filter, false) {
        Some((s, _)) => Some(s),
        None => None,
    }
}

} // verus!
