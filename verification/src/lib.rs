//! Front end of a compiler for a small expression-oriented language.
//!
//! Source text is tokenized into a position-tracked token stream, parsed by
//! precedence climbing into an abstract syntax tree, and then walked by
//! semantic checkers that build a lexically scoped symbol table and collect
//! diagnostics.

pub mod binding;
pub mod check;
pub mod lex;
pub mod parse;
pub mod verify;
