//! Support for working with the OPDS v2.0 draft specification.
//!
//! An OPDS feed is made of navigation links, publications with their
//! preview images, facets that give a view of a subset of the publications,
//! and groups of related links and publications.
pub mod feed;
pub mod link;
pub mod metadata;
pub mod spelling;

pub use self::feed::{Facet, Feed, FeedGroup, Publication};
pub use self::link::Link;
