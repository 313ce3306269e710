//! A documentation index and fuzzy-lookup engine.
//!
//! The crate ingests a structured description of a codebase's public API
//! (modules, types, functions, impl blocks), renders every indexable item to a
//! source-like signature with a trimmed documentation excerpt, flattens the
//! result into two parallel sequences (qualified paths and rendered texts),
//! persists them in a length-prefixed binary form, and answers approximate
//! string queries against the loaded index.

pub mod codec;
pub mod commands;
pub mod docs;
pub mod error;
pub mod fuzzy;
pub mod godbolt;
pub mod index;
pub mod model;
pub mod playground;
pub mod render;
pub mod shared;
pub mod strutil;
pub mod util;
pub mod visit;
