//! Core of a tree-walking interpreter for a small dynamically typed
//! scripting language: a recursive-descent parser with panic-mode error
//! recovery, a chained lexical-scope variable store, and an evaluator that
//! walks the syntax tree directly, checking operand kinds at run time and
//! threading a "returning" signal up to the nearest call boundary.
//!
//! The lexical scanner and all input/output live outside this crate; the
//! library works on token sequences and reports what it would print as a
//! sequence of output events.

#![verifier::loop_isolation(false)]

pub mod ast;
pub mod embedded;
pub mod environment;
pub mod eval;
pub mod text;
pub mod token;
