//! Lexical analysis: string interning, character cursors, and the tokenizer.

pub mod interner;
pub mod scan;
pub mod textiter;
pub mod token;
pub mod tokenizer;

pub use interner::Intern;
pub use interner::StringPool;
pub use textiter::PeekTextIter;
pub use textiter::TextIter;
pub use token::TextLocation;
pub use token::Token;
pub use token::TokenData;
pub use token::TokenType;
pub use tokenizer::IterTokenizer;
