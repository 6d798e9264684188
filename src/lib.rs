//! A small blog's content store and markdown conversion, verified.
//!
//! - `markdown`: one pass over the parser's events that numbers headings, builds a table
//!   of contents, checks heading nesting and internal links, and reports the first problem.
//! - `store`: the key layout of posts and images under a root, and the decisions of each
//!   store operation (what to write, what to delete, how to read entities back).
//! - `model`: the store as a map of blobs, and what upserts and image deletion do to it.
//! - `metadata`: the versioned metadata record and its path-safe token.
//! - `images` and `variants`: image identities, their file names, and the derived variants.
//! - `objpath`, `slug`, `text`, `error`: keys, slug rules, string helpers and errors.

use vstd::prelude::*;

pub mod error;
pub mod images;
pub mod markdown;
pub mod metadata;
pub mod model;
pub mod objpath;
pub mod slug;
pub mod store;
pub mod text;
pub mod variants;

verus! {

} // verus!
