//! A verified tree-walking evaluator for a small expression language with
//! integer and boolean values, arithmetic and equality operators,
//! conditionals, let-bindings, and first-class single-argument-list
//! functions.
//!
//! The language uses dynamic scoping: a function body's free variables
//! resolve against the caller's environment at the moment of the call, not
//! against the environment at the declaration site. This differs from
//! conventional lexical-closure semantics and is a defining property of the
//! language; see `eval::evaluate` and `laws::lemma_call_uses_dynamic_scope`.
#![allow(non_snake_case)]

pub mod ast;
pub mod environment;
pub mod eval;
pub mod laws;
pub mod semantics;
pub mod value;
