//! Tokens and source locations.

use vstd::prelude::*;

verus! {

/// Zero-based position of a token in the source text: character offset,
/// line, and column.  A newline resets the column to 0 and increments the
/// line.
#[derive(Debug, Clone, Copy, PartialEq, Eq, Structural)]
pub struct TextLocation {
    pub start_char: usize,
    pub start_line: usize,
    pub start_column: usize,
}

impl Default for TextLocation {
    /// The location of the very first character of a source text.
    fn default() -> (r: TextLocation)
        ensures
            r.start_char == 0 && r.start_line == 0 && r.start_column == 0,
    {
        TextLocation { start_char: 0, start_line: 0, start_column: 0 }
    }
}

/// The kind of a token.  A number literal's value is not stored here: the
/// token's text is the exact consumed substring, from which the numeric
/// value can be recovered.
#[derive(Debug, Clone, Copy, PartialEq, Eq, Structural)]
pub enum TokenData {
    Keyword,
    Ident,
    Symbol,
    NumberLiteral,
    EOF,
}

/// The kind of a token, without any payload; used when reporting what kind
/// of token was expected or found.
#[derive(Debug, Clone, Copy, PartialEq, Eq, Structural)]
pub enum TokenType {
    Keyword,
    Ident,
    Symbol,
    NumberLiteral,
    EOF,
}

impl TokenData {
    /// The `TokenType` of this token data.
    pub fn get_type(&self) -> (r: TokenType)
        ensures
            r == self.type_spec(),
    {
        match self {
            TokenData::Keyword => TokenType::Keyword,
            TokenData::Ident => TokenType::Ident,
            TokenData::Symbol => TokenType::Symbol,
            TokenData::NumberLiteral => TokenType::NumberLiteral,
            TokenData::EOF => TokenType::EOF,
        }
    }

    pub open spec fn type_spec(&self) -> TokenType {
        match self {
            TokenData::Keyword => TokenType::Keyword,
            TokenData::Ident => TokenType::Ident,
            TokenData::Symbol => TokenType::Symbol,
            TokenData::NumberLiteral => TokenType::NumberLiteral,
            TokenData::EOF => TokenType::EOF,
        }
    }
}

/// One token of the source text: its kind, the exact text it was scanned
/// from, and the location of its first character.
#[derive(Debug, Clone, PartialEq)]
pub struct Token {
    pub data: TokenData,
    pub text: String,
    pub location: TextLocation,
}

impl Token {
    /// An exact copy of this token.
    pub fn duplicate(&self) -> (t: Token)
        ensures
            t == *self,
    {
        Token { data: self.data, text: self.text.clone(), location: self.location }
    }
}

} // verus!
