//! Exact rendering of type expressions, declarations, bodies and impl
//! blocks, and the failure behavior of unmodeled constructs.

use docdex::error::DocError;
use docdex::model::CrateCtxt;
use docdex::model::Document;
use docdex::model::FnDecl;
use docdex::model::FnHeader;
use docdex::model::FunctionData;
use docdex::model::GenericArgExpr;
use docdex::model::GenericArgsExpr;
use docdex::model::GenericBoundExpr;
use docdex::model::ImplData;
use docdex::model::Item;
use docdex::model::ItemData;
use docdex::model::StructBody;
use docdex::model::StructData;
use docdex::model::TypeExpr;
use docdex::model::VariantBody;
use docdex::model::VariantData;

fn empty_ctxt() -> CrateCtxt {
    CrateCtxt { krate: Document { root: 0, items: Vec::new() } }
}

fn prim(name: &str) -> TypeExpr {
    TypeExpr::Primitive { name: name.to_string() }
}

fn plain_header() -> FnHeader {
    FnHeader { is_async: false, is_const: false, is_unsafe: false }
}

#[test]
fn renders_primitives_and_generics() {
    let cx = empty_ctxt();
    assert_eq!(cx.write_type(&prim("u32")).unwrap(), "u32");
    assert_eq!(cx.write_type(&TypeExpr::Generic { name: "T".to_string() }).unwrap(), "T");
    assert_eq!(cx.write_type(&TypeExpr::QualifiedPath { name: "Item".to_string() }).unwrap(), "Item");
    assert_eq!(cx.write_type(&TypeExpr::FunctionPointer).unwrap(), "fn()");
}

#[test]
fn renders_references_and_pointers() {
    let cx = empty_ctxt();
    let r = TypeExpr::BorrowedRef {
        lifetime: None,
        mutable: true,
        inner: Box::new(prim("u8")),
    };
    assert_eq!(cx.write_type(&r).unwrap(), "&mut u8");
    let r2 = TypeExpr::BorrowedRef {
        lifetime: Some("'a".to_string()),
        mutable: false,
        inner: Box::new(prim("str")),
    };
    // The lifetime label is inserted verbatim, with no following space.
    assert_eq!(cx.write_type(&r2).unwrap(), "&'astr");
    let p = TypeExpr::RawPointer { mutable: false, inner: Box::new(prim("u8")) };
    assert_eq!(cx.write_type(&p).unwrap(), "*const u8");
    let p2 = TypeExpr::RawPointer { mutable: true, inner: Box::new(prim("u8")) };
    assert_eq!(cx.write_type(&p2).unwrap(), "*mut u8");
}

#[test]
fn renders_slices_arrays_tuples() {
    let cx = empty_ctxt();
    let s = TypeExpr::Slice { inner: Box::new(prim("u8")) };
    assert_eq!(cx.write_type(&s).unwrap(), "[u8]");
    let a = TypeExpr::Array { inner: Box::new(prim("u8")), len: "4".to_string() };
    assert_eq!(cx.write_type(&a).unwrap(), "[u8; 4]");
    let t = TypeExpr::Tuple { items: vec![prim("u8"), prim("bool")] };
    assert_eq!(cx.write_type(&t).unwrap(), "(u8, bool)");
    let unit = TypeExpr::Tuple { items: Vec::new() };
    assert_eq!(cx.write_type(&unit).unwrap(), "()");
}

#[test]
fn renders_trait_object_and_impl_trait() {
    let cx = empty_ctxt();
    let d = TypeExpr::DynTrait { traits: vec!["Read".to_string(), "Send".to_string()] };
    assert_eq!(cx.write_type(&d).unwrap(), "dyn Read + Send");
    let i = TypeExpr::ImplTrait {
        bounds: vec![
            GenericBoundExpr::TraitBound { name: "Iterator".to_string() },
            GenericBoundExpr::Outlives { lifetime: "a".to_string() },
        ],
    };
    assert_eq!(cx.write_type(&i).unwrap(), "impl Iterator + 'a");
}

#[test]
fn renders_resolved_path_with_generic_arguments() {
    let cx = empty_ctxt();
    let v = TypeExpr::ResolvedPath {
        name: "Vec".to_string(),
        args: Some(GenericArgsExpr::AngleBracketed {
            args: vec![GenericArgExpr::TypeArg { ty: prim("u8") }],
        }),
    };
    assert_eq!(cx.write_type(&v).unwrap(), "Vec<u8>");
    let all = TypeExpr::ResolvedPath {
        name: "M".to_string(),
        args: Some(GenericArgsExpr::AngleBracketed {
            args: vec![
                GenericArgExpr::Lifetime { name: "a".to_string() },
                GenericArgExpr::Infer,
                GenericArgExpr::ConstArg { expr: "3".to_string(), ty: prim("usize") },
            ],
        }),
    };
    assert_eq!(cx.write_type(&all).unwrap(), "M<'a, _, const 3: usize>");
    let empty = TypeExpr::ResolvedPath {
        name: "X".to_string(),
        args: Some(GenericArgsExpr::AngleBracketed { args: Vec::new() }),
    };
    assert_eq!(cx.write_type(&empty).unwrap(), "X");
    let f = TypeExpr::ResolvedPath {
        name: "Fn".to_string(),
        args: Some(GenericArgsExpr::Parenthesized {
            inputs: vec![prim("u8")],
            output: Some(Box::new(prim("bool"))),
        }),
    };
    assert_eq!(cx.write_type(&f).unwrap(), "Fn(u8) -> bool");
}

#[test]
fn unsupported_variant_fails_loudly_with_its_tag() {
    let cx = empty_ctxt();
    let bad = TypeExpr::Unsupported { tag: "Pat".to_string() };
    assert_eq!(
        cx.write_type(&bad),
        Err(DocError::UnsupportedConstruct { tag: "Pat".to_string() })
    );
    // Nested occurrences fail too; nothing degrades to empty text.
    let nested = TypeExpr::Slice { inner: Box::new(bad) };
    assert!(matches!(
        cx.write_type(&nested),
        Err(DocError::UnsupportedConstruct { .. })
    ));
}

#[test]
fn renders_function_signatures() {
    let cx = empty_ctxt();
    let f = FunctionData {
        decl: FnDecl {
            inputs: vec![
                ("self".to_string(), TypeExpr::BorrowedRef {
                    lifetime: None,
                    mutable: false,
                    inner: Box::new(prim("Self")),
                }),
                ("x".to_string(), prim("u8")),
            ],
            output: Some(prim("bool")),
        },
        generics: vec!["T".to_string()],
        header: FnHeader { is_async: true, is_const: false, is_unsafe: true },
    };
    assert_eq!(
        cx.write_function(&f, "check").unwrap(),
        "async unsafe fn check<T>(&self, x: u8) -> bool"
    );
    let owned_self = FunctionData {
        decl: FnDecl {
            inputs: vec![("self".to_string(), prim("Self"))],
            output: None,
        },
        generics: Vec::new(),
        header: plain_header(),
    };
    assert_eq!(cx.write_function(&owned_self, "consume").unwrap(), "fn consume(self)");
}

#[test]
fn renders_struct_bodies() {
    let field = Item {
        name: Some("name".to_string()),
        docs: None,
        inner: ItemData::StructField(TypeExpr::ResolvedPath {
            name: "String".to_string(),
            args: None,
        }),
    };
    let cx = CrateCtxt { krate: Document { root: 0, items: vec![field] } };
    let plain = StructData {
        kind: StructBody::Plain { fields: vec![0], fields_stripped: false },
        generics: Vec::new(),
        impls: Vec::new(),
    };
    assert_eq!(
        cx.write_struct(&plain, "Config").unwrap(),
        "struct Config {\n  name: String,\n}\nimpl Config {\n}"
    );
    let stripped = StructData {
        kind: StructBody::Plain { fields: Vec::new(), fields_stripped: true },
        generics: Vec::new(),
        impls: Vec::new(),
    };
    assert_eq!(
        cx.write_struct(&stripped, "Hidden").unwrap(),
        "struct Hidden {\n  // private fields omitted\n}\nimpl Hidden {\n}"
    );
    let unit = StructData {
        kind: StructBody::Unit,
        generics: Vec::new(),
        impls: Vec::new(),
    };
    assert_eq!(cx.write_struct(&unit, "Marker").unwrap(), "struct Marker;");
    let tuple = StructData {
        kind: StructBody::Tuple { fields: vec![Some(0), None] },
        generics: vec!["T".to_string()],
        impls: Vec::new(),
    };
    assert_eq!(cx.write_struct(&tuple, "Pair").unwrap(), "struct Pair<T>(String, _)");
}

#[test]
fn renders_enum_with_variants() {
    let unit_variant = Item {
        name: Some("Off".to_string()),
        docs: None,
        inner: ItemData::Variant(VariantData { kind: VariantBody::Plain }),
    };
    let field = Item {
        name: Some("level".to_string()),
        docs: None,
        inner: ItemData::StructField(TypeExpr::Primitive { name: "u8".to_string() }),
    };
    let tuple_variant = Item {
        name: Some("At".to_string()),
        docs: None,
        inner: ItemData::Variant(VariantData { kind: VariantBody::Tuple { fields: vec![Some(1)] } }),
    };
    let struct_variant = Item {
        name: Some("Exact".to_string()),
        docs: None,
        inner: ItemData::Variant(VariantData {
            kind: VariantBody::Struct { fields: vec![1], fields_stripped: false },
        }),
    };
    let cx = CrateCtxt {
        krate: Document { root: 0, items: vec![unit_variant, field, tuple_variant, struct_variant] },
    };
    let enu = docdex::model::EnumData {
        generics: Vec::new(),
        variants: vec![0, 2, 3],
        impls: Vec::new(),
    };
    assert_eq!(
        cx.write_enum(&enu, "Level").unwrap(),
        "enum Level {\n  Off,\n  At(u8),\n  Exact {\n    level: u8,\n  },\n}\nimpl Level {\n}"
    );
}

fn method_item(name: &str) -> Item {
    Item {
        name: Some(name.to_string()),
        docs: None,
        inner: ItemData::Function(FunctionData {
            decl: FnDecl { inputs: Vec::new(), output: None },
            generics: Vec::new(),
            header: plain_header(),
        }),
    }
}

#[test]
fn impl_block_caps_members_and_counts_the_rest() {
    // Twelve inherent members: ten render, two are summarized.
    let mut items: Vec<Item> = (0..12).map(|i| method_item(&format!("m{i}"))).collect();
    let member_ids: Vec<usize> = (0..12).collect();
    items.push(Item {
        name: None,
        docs: None,
        inner: ItemData::Impl(ImplData {
            trait_name: None,
            for_name: Some("Big".to_string()),
            items: member_ids,
        }),
    });
    let cx = CrateCtxt { krate: Document { root: 0, items } };
    let out = cx.write_impls(&vec![12], "Big").unwrap();
    assert!(out.starts_with("impl Big {\n  fn m0();\n"));
    assert!(out.contains("  fn m9();\n"));
    assert!(!out.contains("m10"));
    assert!(out.contains("  // 2 more items\n"));
    assert!(out.ends_with("}"));
}

fn trait_impl(name: &str) -> Item {
    Item {
        name: None,
        docs: None,
        inner: ItemData::Impl(ImplData {
            trait_name: Some(name.to_string()),
            for_name: Some("T".to_string()),
            items: Vec::new(),
        }),
    }
}

#[test]
fn impl_block_orders_and_annotates_trait_impls() {
    let items = vec![trait_impl("Send"), trait_impl("PartialEq"), trait_impl("From")];
    let cx = CrateCtxt { krate: Document { root: 0, items } };
    let out = cx.write_impls(&vec![0, 1, 2], "T").unwrap();
    // The blanket conversion trait is excluded; the auto trait sinks below
    // the operator trait, which carries its hint.
    assert!(!out.contains("impl From"));
    let eq_pos = out.find("impl PartialEq for T {} // the `==` operator").unwrap();
    let send_pos = out.find("impl Send for T {} ").unwrap();
    assert!(eq_pos < send_pos);
}

#[test]
fn missing_member_name_is_a_broken_invariant() {
    let mut bad = method_item("x");
    bad.name = None;
    let imp = Item {
        name: None,
        docs: None,
        inner: ItemData::Impl(ImplData {
            trait_name: None,
            for_name: None,
            items: vec![0],
        }),
    };
    let cx = CrateCtxt { krate: Document { root: 0, items: vec![bad, imp] } };
    assert_eq!(cx.write_impls(&vec![1], "T"), Err(DocError::MissingName { id: 0 }));
}

#[test]
fn impl_lookup_of_wrong_kind_is_a_kind_mismatch() {
    let cx = CrateCtxt { krate: Document { root: 0, items: vec![method_item("f")] } };
    assert!(matches!(
        cx.write_impls(&vec![0], "T"),
        Err(DocError::KindMismatch { id: 0, .. })
    ));
    assert!(matches!(
        cx.write_impls(&vec![7], "T"),
        Err(DocError::MissingItem { id: 7 })
    ));
}

#[test]
fn generics_render_angle_bracketed() {
    let cx = empty_ctxt();
    assert_eq!(cx.write_generics(&Vec::new()), "");
    assert_eq!(
        cx.write_generics(&vec!["T".to_string(), "U".to_string()]),
        "<T, U>"
    );
}

#[test]
fn renders_union_like_a_record() {
    let field = Item {
        name: Some("bits".to_string()),
        docs: None,
        inner: ItemData::StructField(TypeExpr::Primitive { name: "u32".to_string() }),
    };
    let cx = CrateCtxt { krate: Document { root: 0, items: vec![field] } };
    let u = docdex::model::UnionData {
        generics: Vec::new(),
        fields: vec![0],
        fields_stripped: false,
        impls: Vec::new(),
    };
    assert_eq!(
        cx.write_union(&u, "Raw").unwrap(),
        "union Raw {\n  bits: u32,\n}\nimpl Raw {\n}"
    );
    let stripped = docdex::model::UnionData {
        generics: vec!["T".to_string()],
        fields: Vec::new(),
        fields_stripped: true,
        impls: Vec::new(),
    };
    assert_eq!(
        cx.write_union(&stripped, "Opaque").unwrap(),
        "union Opaque<T> {\n  // private fields omitted\n}\nimpl Opaque {\n}"
    );
}

#[test]
fn unsupported_error_carries_the_offending_tag() {
    let cx = empty_ctxt();
    let bad = TypeExpr::Tuple {
        items: vec![
            prim("u8"),
            TypeExpr::Slice {
                inner: Box::new(TypeExpr::Unsupported { tag: "Infer".to_string() }),
            },
        ],
    };
    assert_eq!(
        cx.write_type(&bad),
        Err(DocError::UnsupportedConstruct { tag: "Infer".to_string() })
    );
}
