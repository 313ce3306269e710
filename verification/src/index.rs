//! The loaded-index query layer: answers fuzzy queries over the persisted
//! parallel sequences by scoring every matching entry and ranking
//! descending; an entry the query does not align with is no match and is
//! absent from the results entirely.
//!
//! Scoring is a pure scan over an immutable snapshot: an exact path match
//! gets the large fixed bonus through `fuzzy_match`, and a second,
//! deterministic bonus applies when the entry's last path segment equals the
//! query's last segment verbatim. Ties keep scan order, so results are
//! reproducible.

use vstd::prelude::*;

use crate::codec::deserialize;
use crate::codec::deserialize_spec;
use crate::error::DocError;
use crate::fuzzy::fuzzy_match;
use crate::fuzzy::fuzzy_match_spec;
use crate::fuzzy::sat_add;
use crate::fuzzy::sat_add_spec;
use crate::fuzzy::sublime_score;
use crate::render::views_of_strs;
use crate::strutil::last_segment;
use crate::strutil::last_segment_of;

verus! {

use vstd::std_specs::vec::vec_index;

/// The bonus granted when the entry's last path segment equals the query's
/// last segment verbatim.
pub const LAST_SEGMENT_BONUS: isize = 1000;

/// One ranked result: score, matched path, rendered text.
pub type Hit = (isize, String, String);

/// The mathematical shadow of a ranked result.
pub type HitView = (isize, Seq<char>, Seq<char>);

/// The shadows of a result list.
pub open spec fn hit_views(v: Seq<Hit>) -> Seq<HitView> {
    v.map_values(|h: Hit| (h.0, h.1@, h.2@))
}

/// The score of one matching entry against a query: the fuzzy score of
/// the whole path, plus the last-segment bonus when it applies, added
/// saturating. Entries the query does not align with never reach this
/// score: they are no matches and stay out of the results.
pub open spec fn entry_score(q: Seq<char>, path: Seq<char>) -> isize {
    let base = match fuzzy_match_spec(q, path) {
        Some(s) => s,
        None => 0isize,
    };
    if last_segment(q) == last_segment(path) {
        sat_add_spec(base, LAST_SEGMENT_BONUS)
    } else {
        base
    }
}

/// Exact-match dominance: an entry whose path equals the query outranks any
/// entry with a different path, as long as the approximate aligner scores
/// the other below the exact-match bonus.
pub proof fn lemma_exact_match_dominance(q: Seq<char>, exact: Seq<char>, other: Seq<char>)
    requires
        exact == q,
        other != q,
        match sublime_score(q, other) {
            Some(s) => s < crate::fuzzy::EXACT_MATCH_SCORE,
            None => true,
        },
    ensures
        entry_score(q, exact) > entry_score(q, other),
{
}

/// Where a new hit goes in a descending-sorted run: before the first entry
/// that scores strictly less, after everything scoring at least as much.
pub open spec fn insert_pos(s: Seq<HitView>, x: HitView) -> int
    decreases s.len(),
{
    if s.len() == 0 {
        0
    } else if s[0].0 < x.0 {
        0
    } else {
        1 + insert_pos(s.drop_first(), x)
    }
}

/// Insertion into a descending-sorted run, keeping earlier equals first.
pub open spec fn insert_desc(s: Seq<HitView>, x: HitView) -> Seq<HitView> {
    s.insert(insert_pos(s, x), x)
}

/// The stable descending sort of the hits: insert each in turn.
pub open spec fn sort_desc(s: Seq<HitView>) -> Seq<HitView>
    decreases s.len(),
{
    if s.len() == 0 {
        Seq::empty()
    } else {
        insert_desc(sort_desc(s.drop_last()), s.last())
    }
}

proof fn lemma_insert_pos_bounds(s: Seq<HitView>, x: HitView)
    ensures
        0 <= insert_pos(s, x) <= s.len(),
        forall|j: int| 0 <= j < insert_pos(s, x) ==> !((#[trigger] s[j]).0 < x.0),
        insert_pos(s, x) < s.len() ==> s[insert_pos(s, x)].0 < x.0,
    decreases s.len(),
{
    if s.len() > 0 && !(s[0].0 < x.0) {
        lemma_insert_pos_bounds(s.drop_first(), x);
        assert forall|j: int| 0 <= j < insert_pos(s, x) implies !((#[trigger] s[j]).0 < x.0) by {
            if j > 0 {
                assert(s.drop_first()[j - 1] == s[j]);
            }
        }
        if insert_pos(s, x) < s.len() {
            assert(s.drop_first()[insert_pos(s.drop_first(), x)] == s[insert_pos(s, x)]);
        }
    }
}

/// The persisted documentation index, loaded read-only: parallel paths and
/// rendered texts.
#[derive(Debug)]
pub struct Docs {
    index: Vec<String>,
    docs: Vec<String>,
}

/// The paths held by a loaded index.
pub closed spec fn index_paths(d: Docs) -> Seq<String> {
    d.index@
}

/// The rendered texts held by a loaded index.
pub closed spec fn index_docs(d: Docs) -> Seq<String> {
    d.docs@
}

/// The scored entries among the first `i` of a loaded index, in storage
/// order. An entry whose path admits no alignment of the query at all is
/// treated as no match and is absent entirely, never scored zero.
pub open spec fn matched_prefix(d: Docs, q: Seq<char>, i: int) -> Seq<HitView>
    decreases i,
{
    if i <= 0 {
        Seq::empty()
    } else {
        matched_prefix(d, q, i - 1) + (if fuzzy_match_spec(q, index_paths(d)[i - 1]@) is Some {
            seq![
                (
                    entry_score(q, index_paths(d)[i - 1]@),
                    index_paths(d)[i - 1]@,
                    index_docs(d)[i - 1]@,
                ),
            ]
        } else {
            Seq::<HitView>::empty()
        })
    }
}

/// The scored entries of a loaded index: every entry the query aligns
/// with, in storage order.
pub open spec fn scored_entries(d: Docs, q: Seq<char>) -> Seq<HitView> {
    matched_prefix(d, q, index_paths(d).len() as int)
}

impl Docs {
    /// Builds an index from already-aligned parallel sequences.
    pub fn from_parts(index: Vec<String>, docs: Vec<String>) -> (r: Self)
        requires
            index@.len() == docs@.len(),
        ensures
            index_paths(r) == index@,
            index_docs(r) == docs@,
    {
        Docs { index, docs }
    }

    /// Loads an index from its persisted bytes; `MalformedIndex` when the
    /// bytes are not a complete, valid encoding, or when the two decoded
    /// sequences are not aligned.
    pub fn from_bytes(bytes: &Vec<u8>) -> (r: Result<Self, DocError>)
        ensures
            r matches Ok(d) ==> deserialize_spec(bytes@) == Some(
                (views_of_strs(index_paths(d)), views_of_strs(index_docs(d))),
            ) && index_paths(d).len() == index_docs(d).len(),
            r is Err <==> match deserialize_spec(bytes@) {
                None => true,
                Some((ps, ts)) => ps.len() != ts.len(),
            },
    {
        let (index, docs) = match deserialize(bytes) {
            Ok(t) => t,
            Err(e) => {
                return Err(e);
            },
        };
        if index.len() != docs.len() {
            return Err(DocError::MalformedIndex);
        }
        Ok(Docs { index, docs })
    }

    /// The number of entries held.
    pub fn len(&self) -> (r: usize)
        ensures
            r == index_paths(*self).len(),
    {
        self.index.len()
    }

    /// One entry's path and rendered text.
    pub fn entry(&self, i: usize) -> (r: (&String, &String))
        requires
            i < index_paths(*self).len(),
            index_paths(*self).len() == index_docs(*self).len(),
        ensures
            *r.0 == index_paths(*self)[i as int],
            *r.1 == index_docs(*self)[i as int],
    {
        (vec_index(&self.index, i), vec_index(&self.docs, i))
    }

    /// Scores every entry the query aligns with and returns them ranked by
    /// descending score; ties keep storage order. An entry with no
    /// alignment at all is absent, never listed with a zero score; an
    /// empty result means nothing matched, never an error.
    pub fn find(&self, query: &str) -> (r: Vec<Hit>)
        requires
            index_paths(*self).len() == index_docs(*self).len(),
        ensures
            hit_views(r@) == sort_desc(scored_entries(*self, query@)),
    {
        let q_last = last_segment_of(query);
        let n = self.index.len();
        let mut r: Vec<Hit> = Vec::new();
        proof {
            assert(matched_prefix(*self, query@, 0) =~= Seq::<HitView>::empty());
            assert(hit_views(r@) =~= sort_desc(matched_prefix(*self, query@, 0)));
        }
        let mut i: usize = 0;
        while i < n
            invariant
                i <= n,
                n == index_paths(*self).len(),
                index_paths(*self).len() == index_docs(*self).len(),
                q_last@ == last_segment(query@),
                hit_views(r@) == sort_desc(matched_prefix(*self, query@, i as int)),
            decreases n - i,
        {
            let path = vec_index(&self.index, i);
            let text = vec_index(&self.docs, i);
            match fuzzy_match(query, path.as_str()) {
                Some(base) => {
                    let p_last = last_segment_of(path.as_str());
                    let score = if crate::fuzzy::str_eq(q_last.as_str(), p_last.as_str()) {
                        sat_add(base, LAST_SEGMENT_BONUS)
                    } else {
                        base
                    };
                    let hit = (score, path.clone(), text.clone());
                    proof {
                        let prev = matched_prefix(*self, query@, i as int);
                        let cur = matched_prefix(*self, query@, i + 1);
                        assert(cur =~= prev.push((hit.0, hit.1@, hit.2@)));
                        assert(cur.drop_last() =~= prev);
                        assert(cur.last() == (hit.0, hit.1@, hit.2@));
                    }
                    insert_hit(&mut r, hit);
                },
                None => {
                    proof {
                        assert(matched_prefix(*self, query@, i + 1) =~= matched_prefix(
                            *self,
                            query@,
                            i as int,
                        ));
                    }
                },
            }
            i += 1;
        }
        r
    }
}

/// Inserts a hit into a descending-sorted vector, after existing entries
/// with at least its score.
fn insert_hit(r: &mut Vec<Hit>, x: Hit)
    ensures
        hit_views(final(r)@) == insert_desc(hit_views(old(r)@), (x.0, x.1@, x.2@)),
{
    let ghost xv: HitView = (x.0, x.1@, x.2@);
    let n = r.len();
    let mut j: usize = 0;
    loop
        invariant
            j <= n,
            n == r@.len(),
            r@ == old(r)@,
            forall|k: int| 0 <= k < j ==> !((#[trigger] r@[k]).0 < x.0),
        ensures
            j <= n,
            n == r@.len(),
            r@ == old(r)@,
            forall|k: int| 0 <= k < j ==> !((#[trigger] r@[k]).0 < x.0),
            j < n ==> r@[j as int].0 < x.0,
        decreases n - j,
    {
        if j >= n {
            break ;
        }
        if vec_index(r, j).0 < x.0 {
            break ;
        }
        j += 1;
    }
    proof {
        lemma_insert_pos_bounds(hit_views(r@), xv);
        let p = insert_pos(hit_views(r@), xv);
        assert forall|k: int| 0 <= k < r@.len() implies (#[trigger] hit_views(r@)[k]).0
            == r@[k].0 by {}
        if (j as int) < p {
            assert(!(hit_views(r@)[j as int].0 < xv.0));
        }
        if p < j {
            assert(hit_views(r@)[p].0 < xv.0);
        }
        assert(j == p);
    }
    r.insert(j, x);
    proof {
        assert(hit_views(final(r)@) =~= insert_desc(hit_views(old(r)@), xv));
    }
}

} // verus!
