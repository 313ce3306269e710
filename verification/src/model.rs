//! The item-graph data model: one `Document` per parsed API description,
//! holding an arena of `Item`s that reference each other by identifier.
//!
//! Identifiers are indices into the owning document's arena and are not
//! comparable across documents. Items are always reached by identifier
//! lookup, never by embedding owned sub-items, which sidesteps the ownership
//! cycles of the underlying reference graph.

use vstd::prelude::*;

use crate::error::DocError;
use crate::error::ItemKindTag;

verus! {

use vstd::std_specs::vec::vec_index;

/// A recursive type expression, rendered by the signature renderer.
#[derive(Debug, PartialEq, Eq)]
pub enum TypeExpr {
    /// A primitive such as `u32` or `str`.
    Primitive { name: String },
    /// A generic parameter in scope, such as `T`.
    Generic { name: String },
    /// A named path, optionally with generic arguments.
    ResolvedPath { name: String, args: Option<GenericArgsExpr> },
    /// `&'a mut T` and friends.
    BorrowedRef { lifetime: Option<String>, mutable: bool, inner: Box<TypeExpr> },
    /// `*mut T` / `*const T`.
    RawPointer { mutable: bool, inner: Box<TypeExpr> },
    /// `[T]`.
    Slice { inner: Box<TypeExpr> },
    /// `[T; N]`, with the length kept as its source text.
    Array { inner: Box<TypeExpr>, len: String },
    /// `(A, B, C)`.
    Tuple { items: Vec<TypeExpr> },
    /// `dyn A + B`, kept as the bound names.
    DynTrait { traits: Vec<String> },
    /// `impl A + 'a`.
    ImplTrait { bounds: Vec<GenericBoundExpr> },
    /// A function pointer, rendered as a fixed placeholder.
    FunctionPointer,
    /// `<T as Trait>::Name`, rendered as the name only (approximate).
    QualifiedPath { name: String },
    /// A variant the renderer deliberately does not model; rendering it
    /// fails loudly with the carried tag.
    Unsupported { tag: String },
}

/// Generic arguments attached to a resolved path.
#[derive(Debug, PartialEq, Eq)]
pub enum GenericArgsExpr {
    /// `<'a, T, 3>`.
    AngleBracketed { args: Vec<GenericArgExpr> },
    /// `(A, B) -> C`.
    Parenthesized { inputs: Vec<TypeExpr>, output: Option<Box<TypeExpr>> },
}

/// One angle-bracketed generic argument.
#[derive(Debug, PartialEq, Eq)]
pub enum GenericArgExpr {
    Lifetime { name: String },
    Infer,
    TypeArg { ty: TypeExpr },
    ConstArg { expr: String, ty: TypeExpr },
}

/// One bound of an `impl Trait` type.
#[derive(Debug, PartialEq, Eq)]
pub enum GenericBoundExpr {
    Outlives { lifetime: String },
    TraitBound { name: String },
}

/// The body shape of a struct.
#[derive(Debug, PartialEq, Eq)]
pub enum StructBody {
    /// A record-style body; `fields_stripped` marks fields redacted upstream.
    Plain { fields: Vec<usize>, fields_stripped: bool },
    /// A unit struct.
    Unit,
    /// A tuple struct; `None` stands for a field redacted upstream.
    Tuple { fields: Vec<Option<usize>> },
}

/// The body shape of an enum variant.
#[derive(Debug, PartialEq, Eq)]
pub enum VariantBody {
    Plain,
    Tuple { fields: Vec<Option<usize>> },
    Struct { fields: Vec<usize>, fields_stripped: bool },
}

/// A function's parameter list and return type; parameters carry their
/// declared name.
#[derive(Debug, PartialEq, Eq)]
pub struct FnDecl {
    pub inputs: Vec<(String, TypeExpr)>,
    pub output: Option<TypeExpr>,
}

/// A function's modifier flags.
#[derive(Debug, Clone, Copy, PartialEq, Eq, Structural)]
pub struct FnHeader {
    pub is_async: bool,
    pub is_const: bool,
    pub is_unsafe: bool,
}

/// A module's payload.
#[derive(Debug, PartialEq, Eq)]
pub struct ModuleData {
    pub items: Vec<usize>,
}

/// An import's payload: the identifier of the referenced local item, when
/// one resolves. An absent target is an expected, non-error condition.
#[derive(Debug, Clone, Copy, PartialEq, Eq, Structural)]
pub struct ImportData {
    pub target: Option<usize>,
}

/// A union's payload.
#[derive(Debug, PartialEq, Eq)]
pub struct UnionData {
    pub generics: Vec<String>,
    pub fields: Vec<usize>,
    pub fields_stripped: bool,
    pub impls: Vec<usize>,
}

/// A struct's payload.
#[derive(Debug, PartialEq, Eq)]
pub struct StructData {
    pub kind: StructBody,
    pub generics: Vec<String>,
    pub impls: Vec<usize>,
}

/// An enum's payload.
#[derive(Debug, PartialEq, Eq)]
pub struct EnumData {
    pub generics: Vec<String>,
    pub variants: Vec<usize>,
    pub impls: Vec<usize>,
}

/// A function's payload.
#[derive(Debug, PartialEq, Eq)]
pub struct FunctionData {
    pub decl: FnDecl,
    pub generics: Vec<String>,
    pub header: FnHeader,
}

/// An impl block's payload: the implemented trait's name (`None` for an
/// inherent impl), the name of the implemented-for type when it is a plain
/// resolved path, and the member identifiers.
#[derive(Debug, PartialEq, Eq)]
pub struct ImplData {
    pub trait_name: Option<String>,
    pub for_name: Option<String>,
    pub items: Vec<usize>,
}

/// An enum variant's payload.
#[derive(Debug, PartialEq, Eq)]
pub struct VariantData {
    pub kind: VariantBody,
}

/// The kind-specific payload of an item.
#[derive(Debug, PartialEq, Eq)]
pub enum ItemData {
    Module(ModuleData),
    ExternCrate,
    Import(ImportData),
    Union(UnionData),
    Struct(StructData),
    StructField(TypeExpr),
    Enum(EnumData),
    Variant(VariantData),
    Function(FunctionData),
    Trait,
    TraitAlias,
    Impl(ImplData),
    Typedef,
    OpaqueType,
    Constant,
    Static,
    ForeignType,
    Macro,
    ProcMacro,
    Primitive,
    AssocConst { ty: TypeExpr, default: Option<String> },
    AssocType,
}

/// One documented entity.
#[derive(Debug, PartialEq, Eq)]
pub struct Item {
    /// The display name; some kinds (imports, impls) carry none.
    pub name: Option<String>,
    /// The raw documentation string.
    pub docs: Option<String>,
    /// The kind-specific payload.
    pub inner: ItemData,
}

/// One parsed API-description unit: a root module identifier and an arena of
/// items, addressed by index.
#[derive(Debug, PartialEq, Eq)]
pub struct Document {
    pub root: usize,
    pub items: Vec<Item>,
}

/// `id` addresses an item of `doc`.
pub open spec fn has_item(doc: Document, id: int) -> bool {
    0 <= id < doc.items@.len()
}

/// The item of `doc` at `id`.
pub open spec fn item_of(doc: Document, id: int) -> Item {
    doc.items@[id]
}

/// A crate's build-time context: the document being indexed.
#[derive(Debug)]
pub struct CrateCtxt {
    pub krate: Document,
}

impl CrateCtxt {
    /// Looks `id` up, requiring it to exist.
    pub fn item(&self, id: usize) -> (r: Result<&Item, DocError>)
        ensures
            r matches Ok(item) ==> has_item(self.krate, id as int) && *item == item_of(
                self.krate,
                id as int,
            ),
            r is Err <==> !has_item(self.krate, id as int),
            r matches Err(e) ==> e is MissingItem || e is KindMismatch
                || e is MissingName,
    {
        if id < self.krate.items.len() {
            Ok(vec_index(&self.krate.items, id))
        } else {
            Err(DocError::MissingItem { id })
        }
    }

    /// Looks `id` up, requiring a module with a name.
    pub fn expect_module(&self, id: usize) -> (r: Result<(&Item, &ModuleData, &str), DocError>)
        ensures
            r matches Ok((item, m, name)) ==> {
                &&& has_item(self.krate, id as int)
                &&& *item == item_of(self.krate, id as int)
                &&& item.inner == ItemData::Module(*m)
                &&& item.name matches Some(n) && n@ == name@
            },
            r is Ok <==> has_item(self.krate, id as int) && item_of(
                self.krate,
                id as int,
            ).inner is Module && item_of(self.krate, id as int).name is Some,
            r matches Err(e) ==> e is MissingItem || e is KindMismatch
                || e is MissingName,
    {
        let item = self.item(id)?;
        match (&item.inner, &item.name) {
            (ItemData::Module(m), Some(name)) => Ok((item, m, name.as_str())),
            (ItemData::Module(_), None) => Err(DocError::MissingName { id }),
            _ => Err(DocError::KindMismatch { id, expected: ItemKindTag::Module }),
        }
    }

    /// Looks `id` up, requiring a union with a name.
    pub fn expect_union(&self, id: usize) -> (r: Result<(&Item, &UnionData, &str), DocError>)
        ensures
            r matches Ok((item, u, name)) ==> {
                &&& has_item(self.krate, id as int)
                &&& *item == item_of(self.krate, id as int)
                &&& item.inner == ItemData::Union(*u)
                &&& item.name matches Some(n) && n@ == name@
            },
            r is Ok <==> has_item(self.krate, id as int) && item_of(
                self.krate,
                id as int,
            ).inner is Union && item_of(self.krate, id as int).name is Some,
            r matches Err(e) ==> e is MissingItem || e is KindMismatch
                || e is MissingName,
    {
        let item = self.item(id)?;
        match (&item.inner, &item.name) {
            (ItemData::Union(u), Some(name)) => Ok((item, u, name.as_str())),
            (ItemData::Union(_), None) => Err(DocError::MissingName { id }),
            _ => Err(DocError::KindMismatch { id, expected: ItemKindTag::Union }),
        }
    }

    /// Looks `id` up, requiring an import.
    pub fn expect_import(&self, id: usize) -> (r: Result<(&Item, &ImportData), DocError>)
        ensures
            r matches Ok((item, im)) ==> {
                &&& has_item(self.krate, id as int)
                &&& *item == item_of(self.krate, id as int)
                &&& item.inner == ItemData::Import(*im)
            },
            r is Ok <==> has_item(self.krate, id as int) && item_of(
                self.krate,
                id as int,
            ).inner is Import,
            r matches Err(e) ==> e is MissingItem || e is KindMismatch
                || e is MissingName,
    {
        let item = self.item(id)?;
        match &item.inner {
            ItemData::Import(im) => Ok((item, im)),
            _ => Err(DocError::KindMismatch { id, expected: ItemKindTag::Import }),
        }
    }

    /// Looks `id` up, requiring a struct with a name.
    pub fn expect_struct(&self, id: usize) -> (r: Result<(&Item, &StructData, &str), DocError>)
        ensures
            r matches Ok((item, s, name)) ==> {
                &&& has_item(self.krate, id as int)
                &&& *item == item_of(self.krate, id as int)
                &&& item.inner == ItemData::Struct(*s)
                &&& item.name matches Some(n) && n@ == name@
            },
            r is Ok <==> has_item(self.krate, id as int) && item_of(
                self.krate,
                id as int,
            ).inner is Struct && item_of(self.krate, id as int).name is Some,
            r matches Err(e) ==> e is MissingItem || e is KindMismatch
                || e is MissingName,
    {
        let item = self.item(id)?;
        match (&item.inner, &item.name) {
            (ItemData::Struct(s), Some(name)) => Ok((item, s, name.as_str())),
            (ItemData::Struct(_), None) => Err(DocError::MissingName { id }),
            _ => Err(DocError::KindMismatch { id, expected: ItemKindTag::Struct }),
        }
    }

    /// Looks `id` up, requiring an enum with a name.
    pub fn expect_enum(&self, id: usize) -> (r: Result<(&Item, &EnumData, &str), DocError>)
        ensures
            r matches Ok((item, e, name)) ==> {
                &&& has_item(self.krate, id as int)
                &&& *item == item_of(self.krate, id as int)
                &&& item.inner == ItemData::Enum(*e)
                &&& item.name matches Some(n) && n@ == name@
            },
            r is Ok <==> has_item(self.krate, id as int) && item_of(
                self.krate,
                id as int,
            ).inner is Enum && item_of(self.krate, id as int).name is Some,
            r matches Err(e) ==> e is MissingItem || e is KindMismatch
                || e is MissingName,
    {
        let item = self.item(id)?;
        match (&item.inner, &item.name) {
            (ItemData::Enum(e), Some(name)) => Ok((item, e, name.as_str())),
            (ItemData::Enum(_), None) => Err(DocError::MissingName { id }),
            _ => Err(DocError::KindMismatch { id, expected: ItemKindTag::Enum }),
        }
    }

    /// Looks `id` up, requiring a function with a name.
    pub fn expect_function(&self, id: usize) -> (r: Result<(&Item, &FunctionData, &str), DocError>)
        ensures
            r matches Ok((item, f, name)) ==> {
                &&& has_item(self.krate, id as int)
                &&& *item == item_of(self.krate, id as int)
                &&& item.inner == ItemData::Function(*f)
                &&& item.name matches Some(n) && n@ == name@
            },
            r is Ok <==> has_item(self.krate, id as int) && item_of(
                self.krate,
                id as int,
            ).inner is Function && item_of(self.krate, id as int).name is Some,
            r matches Err(e) ==> e is MissingItem || e is KindMismatch
                || e is MissingName,
    {
        let item = self.item(id)?;
        match (&item.inner, &item.name) {
            (ItemData::Function(f), Some(name)) => Ok((item, f, name.as_str())),
            (ItemData::Function(_), None) => Err(DocError::MissingName { id }),
            _ => Err(DocError::KindMismatch { id, expected: ItemKindTag::Function }),
        }
    }

    /// Looks `id` up, requiring a named struct field.
    pub fn expect_struct_field(&self, id: usize) -> (r: Result<(&Item, &TypeExpr, &str), DocError>)
        ensures
            r matches Ok((item, ty, name)) ==> {
                &&& has_item(self.krate, id as int)
                &&& *item == item_of(self.krate, id as int)
                &&& item.inner == ItemData::StructField(*ty)
                &&& item.name matches Some(n) && n@ == name@
            },
            r is Ok <==> has_item(self.krate, id as int) && item_of(
                self.krate,
                id as int,
            ).inner is StructField && item_of(self.krate, id as int).name is Some,
            r matches Err(e) ==> e is MissingItem || e is KindMismatch
                || e is MissingName,
    {
        let item = self.item(id)?;
        match (&item.inner, &item.name) {
            (ItemData::StructField(ty), Some(name)) => Ok((item, ty, name.as_str())),
            (ItemData::StructField(_), None) => Err(DocError::MissingName { id }),
            _ => Err(DocError::KindMismatch { id, expected: ItemKindTag::StructField }),
        }
    }

    /// Looks `id` up, requiring a struct field that need not be named.
    pub fn expect_unnamed_struct_field(&self, id: usize) -> (r: Result<
        (&Item, &TypeExpr),
        DocError,
    >)
        ensures
            r matches Ok((item, ty)) ==> {
                &&& has_item(self.krate, id as int)
                &&& *item == item_of(self.krate, id as int)
                &&& item.inner == ItemData::StructField(*ty)
            },
            r is Ok <==> has_item(self.krate, id as int) && item_of(
                self.krate,
                id as int,
            ).inner is StructField,
            r matches Err(e) ==> e is MissingItem || e is KindMismatch
                || e is MissingName,
    {
        let item = self.item(id)?;
        match &item.inner {
            ItemData::StructField(ty) => Ok((item, ty)),
            _ => Err(DocError::KindMismatch { id, expected: ItemKindTag::StructField }),
        }
    }

    /// Looks `id` up, requiring an impl block.
    pub fn expect_impl(&self, id: usize) -> (r: Result<(&Item, &ImplData), DocError>)
        ensures
            r matches Ok((item, im)) ==> {
                &&& has_item(self.krate, id as int)
                &&& *item == item_of(self.krate, id as int)
                &&& item.inner == ItemData::Impl(*im)
            },
            r is Ok <==> has_item(self.krate, id as int) && item_of(
                self.krate,
                id as int,
            ).inner is Impl,
            r matches Err(e) ==> e is MissingItem || e is KindMismatch
                || e is MissingName,
    {
        let item = self.item(id)?;
        match &item.inner {
            ItemData::Impl(im) => Ok((item, im)),
            _ => Err(DocError::KindMismatch { id, expected: ItemKindTag::Impl }),
        }
    }

    /// Looks `id` up, requiring an enum variant with a name.
    pub fn expect_variant(&self, id: usize) -> (r: Result<(&Item, &VariantData, &str), DocError>)
        ensures
            r matches Ok((item, v, name)) ==> {
                &&& has_item(self.krate, id as int)
                &&& *item == item_of(self.krate, id as int)
                &&& item.inner == ItemData::Variant(*v)
                &&& item.name matches Some(n) && n@ == name@
            },
            r is Ok <==> has_item(self.krate, id as int) && item_of(
                self.krate,
                id as int,
            ).inner is Variant && item_of(self.krate, id as int).name is Some,
            r matches Err(e) ==> e is MissingItem || e is KindMismatch
                || e is MissingName,
    {
        let item = self.item(id)?;
        match (&item.inner, &item.name) {
            (ItemData::Variant(v), Some(name)) => Ok((item, v, name.as_str())),
            (ItemData::Variant(_), None) => Err(DocError::MissingName { id }),
            _ => Err(DocError::KindMismatch { id, expected: ItemKindTag::Variant }),
        }
    }
}

} // verus!
