//! A tree-walking interpreter for a small dynamically typed, C-like
//! scripting language: a recursive-descent parser with error recovery, a
//! static variable resolver, and an evaluator with lexical scoping,
//! closures, and first-class functions.
//!
//! Syntax-tree nodes and runtime scopes live in arenas and are addressed by
//! stable indices, so node identity and shared, mutable scopes need no
//! reference counting. The evaluator is specified by a functional big-step
//! semantics over ghost views of the arenas; every executable piece of the
//! evaluator is proved equal to that semantics.

pub mod ast;
pub mod callable;
pub mod environment;
pub mod error;
pub mod expr;
pub mod function;
pub mod generate_ast;
pub mod grammar;
pub mod interpreter;
pub mod laws;
pub mod object;
pub mod ops;
pub mod parser;
pub mod resolver;
pub mod semantics;
pub mod stmt;
pub mod token;
