//! Scans JSX-flavored source trees for human-readable text that is
//! hard-coded instead of routed through a translation layer.
//!
//! The library owns the logic of a run: a [`collector::Collector`] walks one
//! file's JSX subtrees and gathers text fragments, string literals,
//! identifier and member references and valued attributes in document order;
//! normalization ([`normalize`]) trims the text buckets and drops
//! whitespace-only items; the [`evaluate::Evaluate`] step maps each item
//! through the [`source_index::SourceIndex`] back to a file and 1-based
//! line; and a [`report::Report`] accumulates the findings in two buckets,
//! high-confidence violations and lower-confidence suspicions.
//!
//! Parsing source text into a tree and enumerating directories are outside
//! collaborators: a caller parses with whatever front end it likes, converts
//! the tree into the model of [`ast`], and registers each file's name,
//! global offset range and raw bytes with the index.

use vstd::prelude::*;

pub mod analyzer;
pub mod ast;
pub mod collector;
pub mod evaluate;
pub mod jsx_analyzer;
pub mod normalize;
pub mod report;
pub mod source_index;
pub mod span;
pub mod text;
pub mod walker;

verus! {

} // verus!
