//! Approximate string matching, built on `sublime_fuzzy`.
//!
//! A query matches a candidate when all of its characters can be aligned as a
//! (possibly non-contiguous) subsequence of the candidate; tighter alignments
//! score higher. An exact match is scored with a large fixed bonus so that it
//! ranks above any approximate alignment.

use vstd::prelude::*;

verus! {

/// The fixed score of an exact match, chosen to exceed the score of any
/// realistic approximate alignment.
pub const EXACT_MATCH_SCORE: isize = 10000;

/// Score that `sublime_fuzzy::best_match` assigns to `query` against
/// `target`: `Some` with the alignment's score when the whole query aligns as
/// a subsequence, `None` otherwise. The result depends on the two character
/// sequences alone.
pub uninterp spec fn sublime_score(query: Seq<char>, target: Seq<char>) -> Option<isize>;

/// Relies on `sublime_fuzzy::best_match`: a deterministic, case-insensitive
/// subsequence matcher. It returns `None` whenever the query or the target is
/// empty, and otherwise `Some` exactly when the full query aligns.
#[verifier::external_body]
fn best_match_score(query: &str, target: &str) -> (r: Option<isize>)
    ensures
        r == sublime_score(query@, target@),
        query@.len() == 0 ==> r is None,
        target@.len() == 0 ==> r is None,
{
    sublime_fuzzy::best_match(query, target).map(|m| m.score())
}

/// Relies on `str`'s `PartialEq`: two string slices are equal exactly when
/// their character sequences are.
#[verifier::external_body]
pub(crate) fn str_eq(a: &str, b: &str) -> (r: bool)
    ensures
        r <==> a@ == b@,
{
    a == b
}

/// What `fuzzy_match` returns: the exact-match score for equal strings, the
/// approximate score otherwise.
pub open spec fn fuzzy_match_spec(left: Seq<char>, right: Seq<char>) -> Option<isize> {
    if left == right {
        Some(EXACT_MATCH_SCORE)
    } else {
        sublime_score(left, right)
    }
}

/// Tests for equality and returns a score; equal strings are preferred over
/// any approximate alignment by a large fixed bonus.
pub fn fuzzy_match(left: &str, right: &str) -> (r: Option<isize>)
    ensures
        r == fuzzy_match_spec(left@, right@),
{
    if str_eq(left, right) {
        Some(EXACT_MATCH_SCORE)
    } else {
        best_match_score(left, right)
    }
}

/// What `sat_add` returns: the sum of the two scores, clamped to the `isize`
/// range instead of wrapping.
pub open spec fn sat_add_spec(a: isize, b: isize) -> isize {
    if a + b > isize::MAX {
        isize::MAX
    } else if a + b < isize::MIN {
        isize::MIN
    } else {
        (a + b) as isize
    }
}

/// Saturating addition of two scores.
pub fn sat_add(a: isize, b: isize) -> (r: isize)
    ensures
        r == sat_add_spec(a, b),
{
    if b >= 0 {
        if a > isize::MAX - b {
            isize::MAX
        } else {
            a + b
        }
    } else {
        if a < isize::MIN - b {
            isize::MIN
        } else {
            a + b
        }
    }
}

} // verus!
