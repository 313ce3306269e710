//! Scoring behavior: the exact-match bonus, ranking over a loaded index,
//! and qualifier gating over the item graph.

use docdex::docs;
use docdex::fuzzy::fuzzy_match;
use docdex::fuzzy::sat_add;
use docdex::index;
use docdex::model::Document;
use docdex::model::FnDecl;
use docdex::model::FnHeader;
use docdex::model::FunctionData;
use docdex::model::ImplData;
use docdex::model::Item;
use docdex::model::ItemData;
use docdex::model::ModuleData;
use docdex::model::StructBody;
use docdex::model::StructData;

fn strings(items: &[&str]) -> Vec<String> {
    items.iter().map(|s| s.to_string()).collect()
}

#[test]
fn exact_match_scores_the_fixed_bonus() {
    assert_eq!(fuzzy_match("foo", "foo"), Some(10000));
}

#[test]
fn approximate_match_scores_documented_value() {
    // The value documented by the matcher for this pair.
    assert_eq!(fuzzy_match("scc", "SoccerCartoonController"), Some(172));
}

#[test]
fn no_alignment_scores_nothing() {
    assert_eq!(fuzzy_match("xyz", "abc"), None);
    assert_eq!(fuzzy_match("", "abc"), None);
    assert_eq!(fuzzy_match("abc", ""), None);
}

#[test]
fn saturating_addition_clamps() {
    assert_eq!(sat_add(1, 2), 3);
    assert_eq!(sat_add(isize::MAX, 1), isize::MAX);
    assert_eq!(sat_add(isize::MIN, -1), isize::MIN);
}

#[test]
fn exact_match_dominates_prefix_candidate() {
    let paths = strings(&["foobar", "foo"]);
    let texts = strings(&["text for foobar", "text for foo"]);
    let idx = index::Docs::from_parts(paths, texts);
    let hits = idx.find("foo");
    assert_eq!(hits.len(), 2);
    assert_eq!(hits[0].1, "foo");
    assert!(hits[0].0 > hits[1].0);
}

#[test]
fn typo_still_matches_with_score_below_exact_bonus() {
    let paths = strings(&["Config"]);
    let texts = strings(&["struct Config"]);
    let idx = index::Docs::from_parts(paths, texts);
    // A dropped letter keeps the query an in-order subsequence and scores
    // positively, below the exact-match bonus.
    let hits = idx.find("Cnfig");
    assert_eq!(hits.len(), 1);
    assert!(hits[0].0 > 0);
    assert!(hits[0].0 < 10000);
    assert_eq!(hits[0].1, "Config");
}

#[test]
fn transposition_typo_gets_no_alignment() {
    // The matcher aligns the whole query as an in-order subsequence;
    // swapped letters break that, so the entry is no match and is absent
    // from the results entirely.
    assert_eq!(fuzzy_match("Cofnig", "Config"), None);
    let idx = index::Docs::from_parts(strings(&["Config"]), strings(&["struct Config"]));
    assert!(idx.find("Cofnig").is_empty());
}

#[test]
fn last_segment_bonus_rewards_equal_leaf_names() {
    let paths = strings(&["b::aitem", "b::other"]);
    let texts = strings(&["first", "second"]);
    let idx = index::Docs::from_parts(paths, texts);
    // The query aligns with the first path only; its last segment equals
    // the query's, so the fixed bonus is added on top of the fuzzy score.
    let hits = idx.find("aitem");
    assert_eq!(hits.len(), 1);
    assert_eq!(hits[0].1, "b::aitem");
    let base = fuzzy_match("aitem", "b::aitem").unwrap();
    assert_eq!(hits[0].0, base + 1000);
}

#[test]
fn empty_index_yields_empty_ranking() {
    let idx = index::Docs::from_parts(Vec::new(), Vec::new());
    assert!(idx.find("anything").is_empty());
}

/// A document with a module `root`, a struct `Widget`, an impl block for
/// `Widget` holding a function `new`.
fn widget_document() -> Document {
    let module = Item {
        name: Some("root".to_string()),
        docs: None,
        inner: ItemData::Module(ModuleData { items: vec![1] }),
    };
    let strukt = Item {
        name: Some("Widget".to_string()),
        docs: None,
        inner: ItemData::Struct(StructData {
            kind: StructBody::Unit,
            generics: Vec::new(),
            impls: vec![2],
        }),
    };
    let imp = Item {
        name: None,
        docs: None,
        inner: ItemData::Impl(ImplData {
            trait_name: None,
            for_name: Some("Widget".to_string()),
            items: vec![3],
        }),
    };
    let func = Item {
        name: Some("new".to_string()),
        docs: None,
        inner: ItemData::Function(FunctionData {
            decl: FnDecl { inputs: Vec::new(), output: None },
            generics: Vec::new(),
            header: FnHeader { is_async: false, is_const: false, is_unsafe: false },
        }),
    };
    Document { root: 0, items: vec![module, strukt, imp, func] }
}

#[test]
fn qualified_query_resolves_impl_member() {
    let mut store = docs::Docs::new();
    store.add_crate(widget_document());
    // Leaf "new" matches exactly (clearing the threshold), parent resolves
    // to the implemented type's name.
    let hit = store.find("Widget::new");
    assert_eq!(hit, Some((0, 3)));
}

#[test]
fn qualifier_gating_rejects_weak_leaf() {
    // The premise of the gating rule: a one-letter leaf query scores the
    // candidate below the fixed threshold.
    let leaf = fuzzy_match("n", "new").unwrap();
    assert!(leaf < 100);
    let mut store = docs::Docs::new();
    store.add_crate(widget_document());
    assert_eq!(store.find("Widget::n"), None);
}

#[test]
fn single_segment_query_matches_by_name() {
    let mut store = docs::Docs::new();
    store.add_crate(widget_document());
    assert_eq!(store.find("Widget"), Some((0, 1)));
}

#[test]
fn unrelated_query_finds_nothing() {
    let mut store = docs::Docs::new();
    store.add_crate(widget_document());
    assert_eq!(store.find("zzz::qqq"), None);
}

#[test]
fn graph_accessors_check_kind_and_presence() {
    let mut store = docs::Docs::new();
    store.add_crate(widget_document());
    assert!(store.crate_item(0, 3).is_some());
    assert!(store.crate_item(0, 99).is_none());
    assert!(store.crate_struct_impl(0, 2).is_some());
    assert!(store.crate_struct_impl(0, 1).is_none());
    assert!(store.crate_struct_field(0, 1).is_none());
}
