//! The documentation graph query layer: holds parsed documents and resolves
//! fuzzy, possibly-qualified queries against their item graphs.
//!
//! A query is split on `::`. A single segment is matched against every
//! item's name. With more segments, the last is the leaf query and the
//! second-to-last a parent qualifier: the leaf score must clear a fixed
//! threshold before the candidate's enclosing context (the implemented
//! type's name for an impl member, the declaring module's name otherwise)
//! is resolved and scored; the two scores are summed saturating.

use vstd::prelude::*;

use crate::fuzzy::fuzzy_match;
use crate::fuzzy::fuzzy_match_spec;
use crate::fuzzy::sat_add;
use crate::fuzzy::sat_add_spec;
use crate::model::has_item;
use crate::model::item_of;
use crate::model::Document;
use crate::model::ImplData;
use crate::model::Item;
use crate::model::ItemData;
use crate::model::TypeExpr;
use crate::strutil::split_qualifier;
use crate::strutil::split_sep;

verus! {

use vstd::std_specs::vec::vec_index;

/// The leaf score a qualified query must reach before its parent qualifier
/// is considered.
pub const QUALIFIER_THRESHOLD: isize = 100;

/// `x` occurs among the identifiers.
pub open spec fn contains_id(s: Seq<usize>, x: usize) -> bool {
    exists|k: int| 0 <= k < s.len() && s[k] == x
}

/// The item at `i` is a container (impl block or module) listing `child`.
pub open spec fn is_parent(doc: Document, i: int, child: usize) -> bool {
    &&& has_item(doc, i)
    &&& match item_of(doc, i).inner {
        ItemData::Impl(d) => contains_id(d.items@, child),
        ItemData::Module(m) => contains_id(m.items@, child),
        _ => false,
    }
}

/// The first container listing `child`, scanning identifiers from `i` up.
pub open spec fn parent_of_from(doc: Document, child: usize, i: int) -> Option<int>
    decreases doc.items@.len() - i,
{
    if 0 <= i < doc.items@.len() {
        if is_parent(doc, i, child) {
            Some(i)
        } else {
            parent_of_from(doc, child, i + 1)
        }
    } else {
        None
    }
}

/// The effective parent name of the container at `p`: the implemented
/// type's plain name for an impl block, the module's own name for a module;
/// other containers resolve to nothing.
pub open spec fn parent_name(doc: Document, p: int) -> Option<Seq<char>> {
    match item_of(doc, p).inner {
        ItemData::Impl(d) => match d.for_name {
            Some(n) => Some(n@),
            None => None,
        },
        ItemData::Module(_) => match item_of(doc, p).name {
            Some(n) => Some(n@),
            None => None,
        },
        _ => None,
    }
}

/// The score of item `id` against the query segments, when it matches at
/// all: a single-segment query scores the leaf name; a qualified query
/// first requires the leaf score to clear the threshold, then adds the
/// parent qualifier's score with saturating addition.
pub open spec fn candidate_score(doc: Document, segs: Seq<Seq<char>>, id: int) -> Option<isize> {
    if !has_item(doc, id) {
        None
    } else {
        match item_of(doc, id).name {
            None => None,
            Some(nm) => if segs.len() == 1 {
                fuzzy_match_spec(segs[0], nm@)
            } else if segs.len() >= 2 {
                match fuzzy_match_spec(segs[segs.len() - 1], nm@) {
                    None => None,
                    Some(leaf) => if leaf < QUALIFIER_THRESHOLD {
                        None
                    } else {
                        match parent_of_from(doc, id as usize, 0) {
                            None => None,
                            Some(p) => match parent_name(doc, p) {
                                None => None,
                                Some(pn) => match fuzzy_match_spec(segs[segs.len() - 2], pn) {
                                    None => None,
                                    Some(ps) => Some(sat_add_spec(ps, leaf)),
                                },
                            },
                        }
                    },
                }
            } else {
                None
            },
        }
    }
}

/// Qualifier gating: a qualified query whose leaf score misses the fixed
/// threshold never matches the candidate, however well some parent
/// elsewhere would score.
pub proof fn lemma_qualifier_gating(doc: Document, segs: Seq<Seq<char>>, id: int)
    requires
        segs.len() >= 2,
        has_item(doc, id) ==> match item_of(doc, id).name {
            Some(nm) => match fuzzy_match_spec(segs[segs.len() - 1], nm@) {
                Some(leaf) => leaf < QUALIFIER_THRESHOLD,
                None => true,
            },
            None => true,
        },
    ensures
        candidate_score(doc, segs, id) is None,
{
}

/// The documentation store: one parsed document per indexed library.
#[derive(Debug)]
pub struct Docs {
    crates: Vec<Document>,
}

/// The documents held by a store.
pub closed spec fn docs_view(d: Docs) -> Seq<Document> {
    d.crates@
}

impl Docs {
    /// An empty store.
    pub fn new() -> (r: Self)
        ensures
            docs_view(r).len() == 0,
    {
        Docs { crates: Vec::new() }
    }

    /// Adds one parsed document.
    pub fn add_crate(&mut self, krate: Document)
        ensures
            docs_view(*final(self)) == docs_view(*old(self)).push(krate),
    {
        self.crates.push(krate);
    }

    /// The number of documents held.
    pub fn crate_count(&self) -> (r: usize)
        ensures
            r == docs_view(*self).len(),
    {
        self.crates.len()
    }

    /// Looks an item up in one document; `None` when the identifier is
    /// absent.
    pub fn crate_item(&self, crate_id: usize, item_id: usize) -> (r: Option<&Item>)
        requires
            crate_id < docs_view(*self).len(),
        ensures
            r matches Some(it) ==> has_item(docs_view(*self)[crate_id as int], item_id as int)
                && *it == item_of(docs_view(*self)[crate_id as int], item_id as int),
            r is None <==> !has_item(docs_view(*self)[crate_id as int], item_id as int),
    {
        let doc = vec_index(&self.crates, crate_id);
        if item_id < doc.items.len() {
            Some(vec_index(&doc.items, item_id))
        } else {
            None
        }
    }

    /// Looks up a struct field; `None` when the identifier is absent or the
    /// item is of another kind.
    pub fn crate_struct_field(&self, crate_id: usize, ty_id: usize) -> (r: Option<
        (&Item, &TypeExpr),
    >)
        requires
            crate_id < docs_view(*self).len(),
        ensures
            r matches Some((it, ty)) ==> {
                &&& has_item(docs_view(*self)[crate_id as int], ty_id as int)
                &&& *it == item_of(docs_view(*self)[crate_id as int], ty_id as int)
                &&& it.inner == ItemData::StructField(*ty)
            },
            r is None <==> !(has_item(docs_view(*self)[crate_id as int], ty_id as int) && item_of(
                docs_view(*self)[crate_id as int],
                ty_id as int,
            ).inner is StructField),
    {
        match self.crate_item(crate_id, ty_id) {
            Some(it) => match &it.inner {
                ItemData::StructField(ty) => Some((it, ty)),
                _ => None,
            },
            None => None,
        }
    }

    /// Looks up an impl block; `None` when the identifier is absent or the
    /// item is of another kind.
    pub fn crate_struct_impl(&self, crate_id: usize, impl_id: usize) -> (r: Option<
        (&Item, &ImplData),
    >)
        requires
            crate_id < docs_view(*self).len(),
        ensures
            r matches Some((it, im)) ==> {
                &&& has_item(docs_view(*self)[crate_id as int], impl_id as int)
                &&& *it == item_of(docs_view(*self)[crate_id as int], impl_id as int)
                &&& it.inner == ItemData::Impl(*im)
            },
            r is None <==> !(has_item(docs_view(*self)[crate_id as int], impl_id as int)
                && item_of(docs_view(*self)[crate_id as int], impl_id as int).inner is Impl),
    {
        match self.crate_item(crate_id, impl_id) {
            Some(it) => match &it.inner {
                ItemData::Impl(im) => Some((it, im)),
                _ => None,
            },
            None => None,
        }
    }

    /// Finds the first container (impl block or module) listing `child_id`.
    fn find_parent_item_in_crate(&self, id: usize, child_id: usize) -> (r: Option<usize>)
        requires
            id < docs_view(*self).len(),
        ensures
            match r {
                Some(p) => parent_of_from(docs_view(*self)[id as int], child_id, 0) == Some(
                    p as int,
                ),
                None => parent_of_from(docs_view(*self)[id as int], child_id, 0) is None,
            },
    {
        let doc = vec_index(&self.crates, id);
        let n = doc.items.len();
        let mut i: usize = 0;
        while i < n
            invariant
                i <= n,
                id < docs_view(*self).len(),
                n == doc.items@.len(),
                doc == docs_view(*self)[id as int],
                forall|k: int| 0 <= k < i ==> !is_parent(*doc, k, child_id),
            decreases n - i,
        {
            let item = vec_index(&doc.items, i);
            let hit = match &item.inner {
                ItemData::Impl(d) => contains_usize(&d.items, child_id),
                ItemData::Module(m) => contains_usize(&m.items, child_id),
                _ => false,
            };
            if hit {
                proof {
                    assert(is_parent(*doc, i as int, child_id));
                    lemma_parent_of_from(*doc, child_id, 0);
                }
                return Some(i);
            }
            i += 1;
        }
        proof {
            lemma_parent_of_from(*doc, child_id, 0);
        }
        None
    }

    /// Scores every item of one document against the query segments,
    /// keeping the matching ones in identifier order.
    fn find_in_crate(&self, id: usize, segs: &Vec<String>) -> (r: Vec<(isize, usize)>)
        requires
            id < docs_view(*self).len(),
        ensures
            r@ == scored_from(
                docs_view(*self)[id as int],
                crate::render::views_of_strs(segs@),
                0,
            ),
            docs_view(*self)[id as int].items@.len() <= usize::MAX,
    {
        let ghost doc = docs_view(*self)[id as int];
        let ghost sv = crate::render::views_of_strs(segs@);
        let n = vec_index(&self.crates, id).items.len();
        let mut r: Vec<(isize, usize)> = Vec::new();
        let mut i: usize = 0;
        while i < n
            invariant
                id < docs_view(*self).len(),
                doc == docs_view(*self)[id as int],
                sv == crate::render::views_of_strs(segs@),
                i <= n,
                n == doc.items@.len(),
                r@ + scored_from(doc, sv, i as int) == scored_from(doc, sv, 0),
            decreases n - i,
        {
            match self.score_item(id, segs, i) {
                Some(score) => {
                    r.push((score, i));
                },
                None => {},
            }
            proof {
                assert(r@ + scored_from(doc, sv, i + 1) =~= scored_from(doc, sv, 0));
            }
            i += 1;
        }
        r
    }

    /// Scores one item against the query segments.
    fn score_item(&self, id: usize, segs: &Vec<String>, item_id: usize) -> (r: Option<isize>)
        requires
            id < docs_view(*self).len(),
        ensures
            r == candidate_score(
                docs_view(*self)[id as int],
                crate::render::views_of_strs(segs@),
                item_id as int,
            ),
    {
        let ghost doc = docs_view(*self)[id as int];
        let ghost sv = crate::render::views_of_strs(segs@);
        let doc_ref = vec_index(&self.crates, id);
        if item_id >= doc_ref.items.len() {
            return None;
        }
        let item = vec_index(&doc_ref.items, item_id);
        let nm = match &item.name {
            Some(nm) => nm,
            None => {
                return None;
            },
        };
        let k = segs.len();
        if k == 1 {
            proof {
                assert(sv[0] == segs@[0]@);
            }
            fuzzy_match(vec_index(segs, 0).as_str(), nm.as_str())
        } else if k >= 2 {
            proof {
                assert(sv[k - 1] == segs@[k - 1]@);
                assert(sv[k - 2] == segs@[k - 2]@);
            }
            let leaf = match fuzzy_match(vec_index(segs, k - 1).as_str(), nm.as_str()) {
                Some(leaf) => leaf,
                None => {
                    return None;
                },
            };
            if leaf < QUALIFIER_THRESHOLD {
                return None;
            }
            let p = match self.find_parent_item_in_crate(id, item_id) {
                Some(p) => p,
                None => {
                    return None;
                },
            };
            proof {
                lemma_parent_of_from(doc, item_id, 0);
            }
            let parent = vec_index(&doc_ref.items, p);
            let pn = match &parent.inner {
                ItemData::Impl(d) => match &d.for_name {
                    Some(n) => n,
                    None => {
                        return None;
                    },
                },
                ItemData::Module(_) => match &parent.name {
                    Some(n) => n,
                    None => {
                        return None;
                    },
                },
                _ => {
                    return None;
                },
            };
            let ps = match fuzzy_match(vec_index(segs, k - 2).as_str(), pn.as_str()) {
                Some(ps) => ps,
                None => {
                    return None;
                },
            };
            Some(sat_add(ps, leaf))
        } else {
            None
        }
    }

    /// Resolves a query to the best-scoring item over all documents,
    /// returning its document index and item identifier; the earliest
    /// candidate (in document order, then identifier order) wins ties.
    /// `None` exactly when nothing matches at all.
    pub fn find(&self, query: &str) -> (r: Option<(usize, usize)>)
        ensures
            r matches Some((c, id)) ==> {
                &&& c < docs_view(*self).len()
                &&& candidate_score(
                    docs_view(*self)[c as int],
                    split_sep(query@),
                    id as int,
                ) is Some
                &&& best_candidate(
                    docs_view(*self),
                    split_sep(query@),
                    c as int,
                    id as int,
                    docs_view(*self).len() as int,
                )
            },
            r is None ==> no_candidate(docs_view(*self), split_sep(query@), docs_view(
                *self,
            ).len() as int),
    {
        let segs = split_qualifier(query);
        proof {
            assert(crate::render::views_of_strs(segs@) == split_sep(query@));
        }
        let ghost sv = split_sep(query@);
        let nc = self.crates.len();
        let mut best: Option<(usize, usize, isize)> = None;
        let mut c: usize = 0;
        while c < nc
            invariant
                c <= nc,
                nc == docs_view(*self).len(),
                sv == split_sep(query@),
                crate::render::views_of_strs(segs@) == sv,
                match best {
                    Some((bc, bid, bs)) => {
                        &&& bc < c
                        &&& candidate_score(docs_view(*self)[bc as int], sv, bid as int) == Some(
                            bs,
                        )
                        &&& best_candidate(docs_view(*self), sv, bc as int, bid as int, c as int)
                    },
                    None => no_candidate(docs_view(*self), sv, c as int),
                },
            decreases nc - c,
        {
            let scored = self.find_in_crate(c, &segs);
            let ghost doc = docs_view(*self)[c as int];
            proof {
                lemma_scored_from_complete(doc, sv, 0);
            }
            let m = scored.len();
            let mut j: usize = 0;
            while j < m
                invariant
                    c < nc,
                    nc == docs_view(*self).len(),
                    doc == docs_view(*self)[c as int],
                    j <= m,
                    m == scored@.len(),
                    scored@ == scored_from(doc, sv, 0),
                    forall|i2: int|
                        (#[trigger] candidate_score(doc, sv, i2)) is Some <==> exists|k: int|
                            0 <= k < scored@.len() && (#[trigger] scored@[k]).1 == i2
                            && candidate_score(doc, sv, i2) == Some(scored@[k].0),
                    forall|k: int| 0 <= k < scored@.len() ==> candidate_score(
                        doc,
                        sv,
                        (#[trigger] scored@[k]).1 as int,
                    ) == Some(scored@[k].0),
                    forall|k1: int, k2: int| 0 <= k1 < k2 < scored@.len() ==> (
                    #[trigger] scored@[k1]).1 < (#[trigger] scored@[k2]).1,
                    match best {
                        Some((bc, bid, bs)) => {
                            &&& (bc < c || (bc == c && j > 0))
                            &&& bc < nc
                            &&& candidate_score(docs_view(*self)[bc as int], sv, bid as int)
                                == Some(bs)
                            &&& best_candidate(docs_view(*self), sv, bc as int, bid as int, c as int)
                            &&& forall|k: int|
                                0 <= k < j ==> (#[trigger] scored@[k]).0 <= bs
                            &&& forall|k: int|
                                0 <= k < j && bc == c && (#[trigger] scored@[k]).1 < bid
                                    ==> scored@[k].0 < bs
                            &&& (bc == c ==> exists|k: int|
                                0 <= k < j && (#[trigger] scored@[k]).1 == bid)
                        },
                        None => {
                            &&& j == 0
                            &&& no_candidate(docs_view(*self), sv, c as int)
                        },
                    },
                decreases m - j,
            {
                let (s, iid) = *vec_index(&scored, j);
                let take = match best {
                    Some((_, _, bs)) => s > bs,
                    None => true,
                };
                if take {
                    best = Some((c, iid, s));
                }
                j += 1;
            }
            proof {
                match best {
                    Some((bc, bid, bs)) => {
                        assert forall|c2: int, i2: int|
                            0 <= c2 < c + 1 && (#[trigger] candidate_score(
                                docs_view(*self)[c2],
                                sv,
                                i2,
                            )) is Some implies {
                            &&& candidate_score(docs_view(*self)[c2], sv, i2)->0 <= bs
                            &&& ((c2 < bc || (c2 == bc && i2 < bid)) ==> candidate_score(
                                docs_view(*self)[c2],
                                sv,
                                i2,
                            )->0 < bs)
                        } by {
                            if c2 == c {
                                let k = choose|k: int|
                                    0 <= k < scored@.len() && (#[trigger] scored@[k]).1 == i2
                                        && candidate_score(doc, sv, i2) == Some(scored@[k].0);
                            }
                        }
                        assert(best_candidate(docs_view(*self), sv, bc as int, bid as int, c + 1));
                    },
                    None => {
                        assert forall|c2: int, i2: int| 0 <= c2 < c + 1 implies !((
                        #[trigger] candidate_score(docs_view(*self)[c2], sv, i2)) is Some) by {}
                        assert(no_candidate(docs_view(*self), sv, c + 1));
                    },
                }
            }
            c += 1;
        }
        match best {
            Some((bc, bid, _)) => Some((bc, bid)),
            None => None,
        }
    }
}

/// `(c, id)` is a best-scoring candidate among all items of the first
/// `upto` documents, and the first with its score in scan order.
pub open spec fn best_candidate(
    docs: Seq<Document>,
    segs: Seq<Seq<char>>,
    c: int,
    id: int,
    upto: int,
) -> bool {
    forall|c2: int, i2: int|
        0 <= c2 < upto && (#[trigger] candidate_score(docs[c2], segs, i2)) is Some ==> {
            &&& candidate_score(docs[c2], segs, i2)->0 <= candidate_score(docs[c], segs, id)->0
            &&& ((c2 < c || (c2 == c && i2 < id)) ==> candidate_score(docs[c2], segs, i2)->0
                < candidate_score(docs[c], segs, id)->0)
        }
}

/// No item of the first `upto` documents matches the query at all.
pub open spec fn no_candidate(docs: Seq<Document>, segs: Seq<Seq<char>>, upto: int) -> bool {
    forall|c2: int, i2: int|
        0 <= c2 < upto ==> !((#[trigger] candidate_score(docs[c2], segs, i2)) is Some)
}

/// The (score, identifier) pairs of the matching items among `[i..)`, in
/// identifier order.
pub open spec fn scored_from(doc: Document, segs: Seq<Seq<char>>, i: int) -> Seq<(isize, usize)>
    decreases doc.items@.len() - i,
{
    if 0 <= i < doc.items@.len() {
        (match candidate_score(doc, segs, i) {
            Some(s) => seq![(s, i as usize)],
            None => Seq::<(isize, usize)>::empty(),
        }) + scored_from(doc, segs, i + 1)
    } else {
        Seq::empty()
    }
}

proof fn lemma_parent_of_from(doc: Document, child: usize, from: int)
    requires
        0 <= from,
    ensures
        parent_of_from(doc, child, from) matches Some(p) ==> {
            &&& from <= p < doc.items@.len()
            &&& is_parent(doc, p, child)
            &&& forall|k: int| from <= k < p ==> !is_parent(doc, k, child)
        },
        parent_of_from(doc, child, from) is None ==> forall|k: int|
            from <= k < doc.items@.len() ==> !is_parent(doc, k, child),
    decreases doc.items@.len() - from,
{
    if from < doc.items@.len() && !is_parent(doc, from, child) {
        lemma_parent_of_from(doc, child, from + 1);
    }
}

/// Tests membership of an identifier in a list.
fn contains_usize(v: &Vec<usize>, x: usize) -> (r: bool)
    ensures
        r <==> contains_id(v@, x),
{
    let n = v.len();
    let mut i: usize = 0;
    while i < n
        invariant
            i <= n,
            n == v@.len(),
            forall|k: int| 0 <= k < i ==> v@[k] != x,
        decreases n - i,
    {
        if v[i] == x {
            return true;
        }
        i += 1;
    }
    false
}

proof fn lemma_scored_from_complete(doc: Document, segs: Seq<Seq<char>>, i: int)
    requires
        0 <= i,
        doc.items@.len() <= usize::MAX,
    ensures
        forall|i2: int|
            i <= i2 < doc.items@.len() ==> ((#[trigger] candidate_score(doc, segs, i2)) is Some
                <==> exists|k: int|
                0 <= k < scored_from(doc, segs, i).len() && (#[trigger] scored_from(
                    doc,
                    segs,
                    i,
                )[k]).1 == i2 && candidate_score(doc, segs, i2) == Some(
                    scored_from(doc, segs, i)[k].0,
                )),
        forall|k: int| 0 <= k < scored_from(doc, segs, i).len() ==> candidate_score(
            doc,
            segs,
            (#[trigger] scored_from(doc, segs, i)[k]).1 as int,
        ) == Some(scored_from(doc, segs, i)[k].0),
        forall|k1: int, k2: int| 0 <= k1 < k2 < scored_from(doc, segs, i).len() ==> (
        #[trigger] scored_from(doc, segs, i)[k1]).1 < (#[trigger] scored_from(doc, segs, i)[k2]).1,
        forall|k: int| 0 <= k < scored_from(doc, segs, i).len() ==> i <= (#[trigger] scored_from(
            doc,
            segs,
            i,
        )[k]).1 < doc.items@.len(),
    decreases doc.items@.len() - i,
{
    if 0 <= i < doc.items@.len() {
        lemma_scored_from_complete(doc, segs, i + 1);
        let s0 = scored_from(doc, segs, i);
        let s1 = scored_from(doc, segs, i + 1);
        let hl: int = if candidate_score(doc, segs, i) is Some {
            1int
        } else {
            0int
        };
        assert(s0.len() == hl + s1.len());
        if candidate_score(doc, segs, i) is Some {
            assert(s0 =~= seq![(candidate_score(doc, segs, i)->0, i as usize)] + s1);
            assert(s0[0] == (candidate_score(doc, segs, i)->0, i as usize));
        } else {
            assert(s0 =~= s1);
        }
        assert forall|k: int| 0 <= k < s1.len() implies s0[hl + k] == s1[k] by {}
        assert forall|k: int|
            0 <= k < s0.len() implies candidate_score(doc, segs, (#[trigger] s0[k]).1 as int)
            == Some(s0[k].0) && i <= (s0[k]).1 < doc.items@.len() by {
            if k >= hl {
                assert(s0[k] == s1[k - hl]);
                assert(candidate_score(doc, segs, (#[trigger] scored_from(doc, segs, i + 1)[k
                    - hl]).1 as int) == Some(scored_from(doc, segs, i + 1)[k - hl].0));
                assert(i + 1 <= (scored_from(doc, segs, i + 1)[k - hl]).1 < doc.items@.len());
            } else {
                assert(s0[k] == (candidate_score(doc, segs, i)->0, i as usize));
                assert((s0[k]).1 as int == i);
                assert(candidate_score(doc, segs, i) == Some(s0[k].0));
            }
        }
        assert forall|k1: int, k2: int| 0 <= k1 < k2 < s0.len() implies (#[trigger] s0[k1]).1 < (
        #[trigger] s0[k2]).1 by {
            if k1 >= hl {
                assert(s0[k1] == s1[k1 - hl]);
            }
            if k2 >= hl {
                assert(s0[k2] == s1[k2 - hl]);
            }
        }
        assert forall|i2: int| i <= i2 < doc.items@.len() implies ((#[trigger] candidate_score(
            doc,
            segs,
            i2,
        )) is Some <==> exists|k: int|
            0 <= k < s0.len() && (#[trigger] s0[k]).1 == i2 && candidate_score(doc, segs, i2)
                == Some(s0[k].0)) by {
            if i2 == i {
                if candidate_score(doc, segs, i) is Some {
                    assert((s0[0]).1 == i2 && candidate_score(doc, segs, i2) == Some(s0[0].0));
                } else {
                    assert forall|k: int| 0 <= k < s0.len() implies (#[trigger] s0[k]).1 != i2 by {
                        assert(s0[k] == s1[k - hl]);
                        assert(i + 1 <= (s1[k - hl]).1);
                    }
                }
            } else {
                if candidate_score(doc, segs, i2) is Some {
                    let k1 = choose|k: int|
                        0 <= k < s1.len() && (#[trigger] s1[k]).1 == i2 && candidate_score(
                            doc,
                            segs,
                            i2,
                        ) == Some(s1[k].0);
                    assert(s0[hl + k1] == s1[k1]);
                    assert((s0[hl + k1]).1 == i2 && candidate_score(doc, segs, i2) == Some(
                        s0[hl + k1].0,
                    ));
                } else {
                    assert forall|k: int| 0 <= k < s0.len() implies (#[trigger] s0[k]).1 != i2 by {
                        if k >= hl {
                            assert(s0[k] == s1[k - hl]);
                            if (s1[k - hl]).1 == i2 {
                                assert(candidate_score(doc, segs, i2) == Some(s1[k - hl].0));
                            }
                        }
                    }
                }
            }
        }
    }
}

} // verus!
