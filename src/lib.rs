//! Builds a markdown changelog from a version-control log: each line is
//! parsed for its date, tags and conventional-commit scope, the commits are
//! grouped into one bucket per released version plus one for unreleased
//! work, and the buckets are rendered newest first with comparison links.
use vstd::prelude::*;

pub mod parse;
pub mod tag;
pub mod bucket;
pub mod group;
pub mod text;
pub mod render;
pub mod laws;

verus! {

} // verus!
