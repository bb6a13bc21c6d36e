//! An interpreter for a small, dynamically typed, expression-oriented
//! language: integers, booleans, first-class functions with lexical
//! closures, `let` bindings, `if`/`else` expressions, prefix and infix
//! operators, and function application.
//!
//! The pipeline has three verified layers: a lexer that turns source text
//! into a token sequence, a Pratt-style parser that builds an abstract
//! syntax tree with the documented operator precedences, and a
//! tree-walking evaluator over that tree with a lexically scoped,
//! arena-backed environment.

pub mod token;

pub mod lexer;

pub mod ast;

pub mod object;

pub mod enviroment;

pub mod eval;

pub mod parser;
