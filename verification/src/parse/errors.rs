//! Error handling in parsers.  Parse-time errors are fail-fast: the first
//! one aborts the parse call and is returned to the caller.

use vstd::prelude::*;

use crate::lex::token::Token;
use crate::lex::token::TokenType;
use crate::parse::ast::Expression;
use crate::verify::collector::ErrorCollector;

verus! {

/// Result given from the main and expression parsers.
pub type ParseResult<T> = Result<T, ParseError>;

/// Error given from parsers.
#[derive(Debug, PartialEq)]
pub enum ParseError {
    /// A specific kind of token was required but a different one was found.
    ExpectedToken { expected: TokenType, got: Token },
    /// An expression was required but the token found starts none.
    ExpectedExpression { expected: ExpectedNextType, got: Token },
    /// An expression was used in a position that requires assignability but
    /// does not qualify.
    ExpectedLValue(Expression),
    /// An expression was used in a position that requires a value but does
    /// not produce one.
    ExpectedRValue(Expression),
    /// Verification diagnostics, wrapped when verification is invoked as a
    /// sub-step of a larger parse-and-verify call.
    VerifierError { collection: ErrorCollector },
    /// A symbol matched no registered operator.
    UnknownOperator { text: String, token_type: TokenType },
    /// The input ended in the middle of a construct.
    EOF,
    /// A catch-all descriptive error.
    LazyString(String),
}

/// What the parser was expecting to find next.
#[derive(Debug, PartialEq)]
pub enum ExpectedNextType {
    AnyStatement,
    AnyExpression,
    AnyItem,
    Lvalue,
    Rvalue,
    SpecificToken(String),
}

} // verus!
