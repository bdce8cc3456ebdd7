//! Typed model of OPDS 2.0 catalog feeds.
//!
//! A feed is read from a structured [`value::Value`] into a tree of typed
//! entities ([`v2_0::Feed`] and what it holds) and written back from the
//! tree in one canonical form. The shorthand spellings that the format
//! allows (a bare item for a list of one, a bare name or position for an
//! entity) are taken on reading and never written, except that a list of
//! one is always written bare where the field allows it.
//!
//! Every type has a mathematical model, its view, and every function says
//! over those models what it returns: reading by the `decode_` functions,
//! writing by the `encode_` functions. For every entity it is proved that a
//! well-formed tree is read back unchanged from its written form, and that
//! whatever is read is well formed.
//!
//! - [`value`]: structured values, the lookup of members, the ceiling on
//!   nesting;
//! - [`error`]: what can go wrong on reading;
//! - [`helpers`]: the shorthand reducers and the fields of plain kinds;
//! - [`v2_0`]: the document types;
//! - [`mime`], [`schema`]: names that feeds commonly use.
pub mod error;
pub mod helpers;
pub mod mime;
pub mod schema;
pub mod text;
pub mod v2_0;
pub mod value;
