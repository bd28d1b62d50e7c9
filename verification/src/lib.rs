//! Simplified, serializable snapshots of concrete syntax trees.
//!
//! A concrete syntax tree, modelled as a [`tree::SyntaxNode`], is reduced to a
//! [`tree::CodeNode`]: each node keeps its kind label, gains a `name` (the
//! exact source substring it spans) when its kind ends with `"identifier"` or
//! `"type"`, and loses every child whose kind is exactly `"comment"`.
//!
//! [`simplify`] holds the rules and the simplifier itself, [`laws`] the
//! once-and-for-all proofs about it, and [`source`] the built-in sample text
//! that stands in when no input is available.

pub mod laws;
pub mod simplify;
pub mod source;
pub mod text;
pub mod tree;
