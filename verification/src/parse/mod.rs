//! Parsing: AST node types, parse errors, and the precedence-climbing
//! parser with its prefix/infix symbol handlers.

pub mod ast;
pub mod errors;
pub mod parser;
pub mod symbol;
pub mod types;

pub use errors::ExpectedNextType;
pub use errors::ParseError;
pub use errors::ParseResult;
pub use parser::Parser;
pub use symbol::InfixParser;
pub use symbol::Precedence;
pub use symbol::PrefixParser;
