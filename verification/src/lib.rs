//! Contract layer for a content-addressed data store.
//!
//! The crate has two halves.  The codec half is a pluggable protocol that
//! turns typed values into byte blocks and back, identified by a numeric
//! code, and that can scrape the content identifiers embedded in an encoded
//! block without decoding it.  The store half persists blocks under their
//! content identifiers, tracks which blocks must survive garbage collection
//! through independent pins, and resolves human-readable names to
//! identifiers.

pub mod cid;
pub mod codec;
pub mod error;
pub mod ipld;
pub mod mem;
pub mod store;
pub mod table;
