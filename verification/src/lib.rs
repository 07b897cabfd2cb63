//! A small expression language built around ownership: boxes, immutable and
//! mutable references into a location-addressed heap, move invalidation of
//! bindings, and a runtime borrow discipline, on top of arithmetic,
//! comparisons, conditionals and single-argument closures.
//!
//! The crate turns a generic S-expression tree into a fixed-shape abstract
//! syntax tree and evaluates that tree against an environment and a heap.
//! The reader that produces the S-expression tree from source text, and the
//! console that output is written to, live outside this crate.

pub mod ast;
pub mod interp;
pub mod laws;
pub mod parse;
pub mod render;
pub mod sexpr;
pub mod value;
