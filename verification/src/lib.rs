//! An interpreter for a small, homoiconic expression language with a
//! parenthesised prefix syntax: a lexer, a parser that attaches prefix
//! annotations and source ranges to every expression, a resolver of types,
//! and an evaluator that takes one step at a time. The arithmetic and the
//! comparison of integers are built in; input and output, floating-point
//! arithmetic and module files are left to the host.

pub mod ann;
pub mod api;
pub mod error;
pub mod eval;
pub mod expr;
pub mod lexer;
pub mod ops;
pub mod parser;
pub mod range;
pub mod text;
pub mod typecheck;
pub mod util;
