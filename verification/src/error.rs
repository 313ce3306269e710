//! Errors raised while building or loading the documentation index.
//!
//! Identifiers referenced from a well-formed document are assumed internally
//! consistent, so a lookup that resolves to the wrong kind of item, or a
//! required identifier that is absent, is a defect of the input and aborts the
//! affected document's build. Unresolvable imports are an expected, non-error
//! condition and never surface here.

use vstd::prelude::*;

verus! {

/// The kinds an item lookup can require.
#[derive(Clone, Copy, Debug, PartialEq, Eq, Structural)]
pub enum ItemKindTag {
    Module,
    ExternCrate,
    Import,
    Union,
    Struct,
    StructField,
    Enum,
    Variant,
    Function,
    Trait,
    TraitAlias,
    Impl,
    Typedef,
    OpaqueType,
    Constant,
    Static,
    ForeignType,
    Macro,
    ProcMacro,
    Primitive,
    AssocConst,
    AssocType,
}

/// An error that aborts building one document's index entries, or loading a
/// persisted index.
#[derive(Clone, Debug, PartialEq, Eq)]
pub enum DocError {
    /// An identifier that the document graph must contain is absent.
    MissingItem { id: usize },
    /// An identifier resolved to a different kind of item than its position
    /// in the graph requires.
    KindMismatch { id: usize, expected: ItemKindTag },
    /// An item stands where a named item is required, but carries no name.
    MissingName { id: usize },
    /// A construct the renderer deliberately does not model; carries the
    /// unrecognized variant's tag. Rendering fails for the one item alone,
    /// and the rest of the document may still index.
    UnsupportedConstruct { tag: String },
    /// The containment walk nested deeper than the document has items, which
    /// only a cyclic chain of imports can cause.
    RecursionLimit,
    /// Persisted index bytes do not parse as a serialized index.
    MalformedIndex,
}

} // verus!
