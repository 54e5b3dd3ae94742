//! A cloc-style line classification library.
//!
//! The core is a family of per-language line classifiers that decide, line by
//! line, whether a physical line of source text contains code, comment text,
//! both, or neither, while carrying the state of multi-line constructs (block
//! comments, triple-quoted strings) from one line to the next.

pub mod comment_parser;
pub mod engine;
pub mod laws;
pub mod model;
pub mod scan;
pub mod tally;

use vstd::prelude::*;

verus! {

} // verus!
