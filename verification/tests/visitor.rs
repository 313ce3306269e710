//! End-to-end visitor behavior: path qualification, import aliasing,
//! documentation trimming, alignment, and the build/persist/query pipeline.

use docdex::codec::serialize;
use docdex::error::DocError;
use docdex::index;
use docdex::model::CrateCtxt;
use docdex::model::Document;
use docdex::model::FnDecl;
use docdex::model::FnHeader;
use docdex::model::FunctionData;
use docdex::model::ImplData;
use docdex::model::ImportData;
use docdex::model::Item;
use docdex::model::ItemData;
use docdex::model::ModuleData;
use docdex::model::StructBody;
use docdex::model::StructData;
use docdex::model::TypeExpr;
use docdex::visit::merge;
use docdex::visit::process_crate;
use docdex::visit::DocCtxt;
use docdex::visit::Output;

fn module(name: &str, items: Vec<usize>) -> Item {
    Item {
        name: Some(name.to_string()),
        docs: None,
        inner: ItemData::Module(ModuleData { items }),
    }
}

fn function(name: &str, docs: Option<&str>) -> Item {
    Item {
        name: Some(name.to_string()),
        docs: docs.map(|d| d.to_string()),
        inner: ItemData::Function(FunctionData {
            decl: FnDecl { inputs: Vec::new(), output: None },
            generics: Vec::new(),
            header: FnHeader { is_async: false, is_const: false, is_unsafe: false },
        }),
    }
}

fn run_doc(doc: Document) -> Output {
    let cx = CrateCtxt { krate: doc };
    let mut out = Output::default();
    cx.run_visitor(&mut out).unwrap();
    out
}

/// Document A of the end-to-end scenario: function `run` at the root.
fn document_a() -> Document {
    Document {
        root: 0,
        items: vec![
            module("", vec![1]),
            function("run", Some("Runs the thing. # Details and more details")),
        ],
    }
}

/// Document B of the end-to-end scenario: struct `Config` with one field.
fn document_b() -> Document {
    Document {
        root: 0,
        items: vec![
            module("", vec![1]),
            Item {
                name: Some("Config".to_string()),
                docs: None,
                inner: ItemData::Struct(StructData {
                    kind: StructBody::Plain { fields: vec![2], fields_stripped: false },
                    generics: Vec::new(),
                    impls: Vec::new(),
                }),
            },
            Item {
                name: Some("name".to_string()),
                docs: None,
                inner: ItemData::StructField(TypeExpr::ResolvedPath {
                    name: "String".to_string(),
                    args: None,
                }),
            },
        ],
    }
}

#[test]
fn end_to_end_two_documents() {
    let out_a = run_doc(document_a());
    let out_b = run_doc(document_b());
    let merged = merge(vec![out_a, out_b]);
    assert_eq!(merged.index, vec!["run".to_string(), "Config".to_string()]);
    assert!(merged.docs[0].starts_with("```rs\nfn run()\n```\n"));
    // Docs are trimmed at the first heading marker.
    assert_eq!(merged.docs[0], "```rs\nfn run()\n```\nRuns the thing. ");
    assert_eq!(
        merged.docs[1],
        "```rs\nstruct Config {\n  name: String,\n}\nimpl Config {\n}\n```\n"
    );

    let bytes = serialize(&merged.index, &merged.docs);
    let idx = index::Docs::from_bytes(&bytes).unwrap();
    assert_eq!(idx.len(), 2);

    let run_hits = idx.find("run");
    assert_eq!(run_hits.len(), 1);
    assert_eq!(run_hits[0].1, "run");
    assert!(run_hits[0].0 >= 10000);

    let typo_hits = idx.find("Cnfig");
    assert_eq!(typo_hits[0].1, "Config");
    assert!(typo_hits[0].0 > 0 && typo_hits[0].0 < 10000);
}

#[test]
fn alignment_holds_after_every_build() {
    let out = run_doc(document_b());
    assert_eq!(out.index.len(), out.docs.len());
    let merged = merge(vec![run_doc(document_a()), run_doc(document_b())]);
    assert_eq!(merged.index.len(), merged.docs.len());
}

#[test]
fn process_crate_runs_the_visitor() {
    let mut dc = DocCtxt { ctxt: CrateCtxt { krate: document_a() }, out: Output::default() };
    process_crate(&mut dc).unwrap();
    assert_eq!(dc.out.index, vec!["run".to_string()]);
}

#[test]
fn struct_members_get_paths_qualified_by_the_struct() {
    let doc = Document {
        root: 0,
        items: vec![
            module("", vec![1]),
            Item {
                name: Some("Config".to_string()),
                docs: None,
                inner: ItemData::Struct(StructData {
                    kind: StructBody::Unit,
                    generics: Vec::new(),
                    impls: vec![2],
                }),
            },
            Item {
                name: None,
                docs: None,
                inner: ItemData::Impl(ImplData {
                    trait_name: None,
                    for_name: Some("Config".to_string()),
                    items: vec![3],
                }),
            },
            function("get", None),
        ],
    };
    let out = run_doc(doc);
    assert_eq!(out.index, vec!["Config".to_string(), "Config::get".to_string()]);
}

#[test]
fn nested_modules_qualify_paths() {
    let doc = Document {
        root: 0,
        items: vec![module("top", vec![1]), module("inner", vec![2]), function("f", None)],
    };
    let out = run_doc(doc);
    assert_eq!(out.index, vec!["top::inner::f".to_string()]);
}

#[test]
fn import_indexes_the_referenced_item_under_the_importing_path() {
    // Module `a` re-exports `b::thing` via an import; the import
    // contributes the referenced item's own indexing, no fabricated or
    // duplicate entry.
    let doc = Document {
        root: 0,
        items: vec![
            module("", vec![1, 2]),
            module("a", vec![3]),
            module("b", vec![4]),
            Item {
                name: None,
                docs: None,
                inner: ItemData::Import(ImportData { target: Some(4) }),
            },
            function("thing", None),
        ],
    };
    let out = run_doc(doc);
    assert_eq!(out.index, vec!["a::thing".to_string(), "b::thing".to_string()]);
    assert_eq!(out.docs[0], out.docs[1]);

    let idx = index::Docs::from_parts(out.index, out.docs);
    let hits = idx.find("thing");
    assert_eq!(hits.len(), 2);
    assert!(hits[0].0 > 0);
}

#[test]
fn unresolved_imports_are_skipped_silently() {
    let doc = Document {
        root: 0,
        items: vec![
            module("", vec![1, 2]),
            Item {
                name: None,
                docs: None,
                inner: ItemData::Import(ImportData { target: None }),
            },
            Item {
                name: None,
                docs: None,
                inner: ItemData::Import(ImportData { target: Some(99) }),
            },
        ],
    };
    let out = run_doc(doc);
    assert!(out.index.is_empty());
    assert!(out.docs.is_empty());
}

#[test]
fn cyclic_imports_are_rejected() {
    let doc = Document {
        root: 0,
        items: vec![
            module("", vec![1]),
            Item {
                name: None,
                docs: None,
                inner: ItemData::Import(ImportData { target: Some(0) }),
            },
        ],
    };
    let cx = CrateCtxt { krate: doc };
    let mut out = Output::default();
    assert_eq!(cx.run_visitor(&mut out), Err(DocError::RecursionLimit));
}

#[test]
fn missing_root_module_aborts_the_build() {
    let doc = Document { root: 5, items: Vec::new() };
    let cx = CrateCtxt { krate: doc };
    let mut out = Output::default();
    assert_eq!(cx.run_visitor(&mut out), Err(DocError::MissingItem { id: 5 }));
}

#[test]
fn truncation_of_long_docs() {
    let cx = CrateCtxt { krate: Document { root: 0, items: Vec::new() } };
    let long = "x".repeat(301);
    let item = Item { name: None, docs: Some(long.clone()), inner: ItemData::Trait };
    let text = cx.document_item(&item, "fn f()");
    let expected_excerpt: String = long.chars().take(300).collect();
    assert_eq!(
        text,
        format!("```rs\nfn f()\n```\n{expected_excerpt}\u{2026}\n")
    );
}

#[test]
fn short_docs_render_in_full_without_marker() {
    let cx = CrateCtxt { krate: Document { root: 0, items: Vec::new() } };
    let docs = "y".repeat(300);
    let item = Item { name: None, docs: Some(docs.clone()), inner: ItemData::Trait };
    let text = cx.document_item(&item, "fn f()");
    assert_eq!(text, format!("```rs\nfn f()\n```\n{docs}"));
}

#[test]
fn early_heading_cuts_the_excerpt() {
    let cx = CrateCtxt { krate: Document { root: 0, items: Vec::new() } };
    let item = Item {
        name: None,
        docs: Some("Short intro. # Heading".to_string()),
        inner: ItemData::Trait,
    };
    let text = cx.document_item(&item, "fn f()");
    assert_eq!(text, "```rs\nfn f()\n```\nShort intro. ");
    // A heading at the very start does not cut.
    let item2 = Item {
        name: None,
        docs: Some("# Lead heading".to_string()),
        inner: ItemData::Trait,
    };
    let text2 = cx.document_item(&item2, "fn f()");
    assert_eq!(text2, "```rs\nfn f()\n```\n# Lead heading");
}

#[test]
fn non_indexed_kinds_contribute_no_entries() {
    let doc = Document {
        root: 0,
        items: vec![
            module("", vec![1, 2, 3]),
            Item { name: Some("T".to_string()), docs: None, inner: ItemData::Trait },
            Item { name: Some("C".to_string()), docs: None, inner: ItemData::Constant },
            Item { name: Some("M".to_string()), docs: None, inner: ItemData::Macro },
        ],
    };
    let out = run_doc(doc);
    assert!(out.index.is_empty());
}

#[test]
fn to_path_string_with_skips_empty_segments() {
    let mut out = Output::default();
    assert_eq!(out.to_path_string_with("run"), "run");
    out.segment_stack.push("".to_string());
    out.segment_stack.push("a".to_string());
    assert_eq!(out.to_path_string_with("thing"), "a::thing");
}

#[test]
fn unions_index_their_own_declaration() {
    let doc = Document {
        root: 0,
        items: vec![
            module("", vec![1]),
            Item {
                name: Some("Raw".to_string()),
                docs: None,
                inner: ItemData::Union(docdex::model::UnionData {
                    generics: Vec::new(),
                    fields: vec![2],
                    fields_stripped: false,
                    impls: vec![3],
                }),
            },
            Item {
                name: Some("bits".to_string()),
                docs: None,
                inner: ItemData::StructField(TypeExpr::Primitive { name: "u32".to_string() }),
            },
            Item {
                name: None,
                docs: None,
                inner: ItemData::Impl(ImplData {
                    trait_name: None,
                    for_name: Some("Raw".to_string()),
                    items: vec![4],
                }),
            },
            function("as_bits", None),
        ],
    };
    let out = run_doc(doc);
    // The union gets its own entry; its impl members are walked at the
    // current stack, as for any impl list reached without a push.
    assert_eq!(out.index, vec!["Raw".to_string(), "as_bits".to_string()]);
    assert!(out.docs[0].starts_with("```rs\nunion Raw {\n  bits: u32,\n}\n"));
}
