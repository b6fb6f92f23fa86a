//! Tokenizer tests: token kinds, texts, and exact locations.

use protosnirk::lex::IterTokenizer;
use protosnirk::lex::PeekTextIter;
use protosnirk::lex::TextLocation;
use protosnirk::lex::Token;
use protosnirk::lex::TokenData;

fn make_tokenizer(input: &str) -> IterTokenizer {
    IterTokenizer::new(input)
}

fn token(data: TokenData, text: &str, start_char: usize, start_line: usize, start_column: usize) -> Token {
    Token {
        data,
        text: text.to_string(),
        location: TextLocation { start_char, start_line, start_column },
    }
}

#[test]
fn it_grabs_single_keyword() {
    let mut tokenizer = make_tokenizer("let");
    assert_eq!(tokenizer.next(), token(TokenData::Keyword, "let", 0, 0, 0));
    assert_eq!(tokenizer.next(), token(TokenData::EOF, "", 3, 0, 3));

    let mut tokenizer = make_tokenizer("mut");
    assert_eq!(tokenizer.next(), token(TokenData::Keyword, "mut", 0, 0, 0));
    assert_eq!(tokenizer.next(), token(TokenData::EOF, "", 3, 0, 3));

    let mut tokenizer = make_tokenizer("return");
    assert_eq!(tokenizer.next(), token(TokenData::Keyword, "return", 0, 0, 0));
    assert_eq!(tokenizer.next(), token(TokenData::EOF, "", 6, 0, 6));
}

#[test]
fn it_grabs_prefix_symbol_at_end_of_file() {
    let mut tokenizer = make_tokenizer("+");
    assert_eq!(tokenizer.next(), token(TokenData::Symbol, "+", 0, 0, 0));
    assert_eq!(tokenizer.next(), token(TokenData::EOF, "", 1, 0, 1));
}

#[test]
fn it_grabs_adjacent_prefix_symbols() {
    let mut tokenizer = make_tokenizer("+-");
    assert_eq!(tokenizer.next(), token(TokenData::Symbol, "+", 0, 0, 0));
    assert_eq!(tokenizer.next(), token(TokenData::Symbol, "-", 1, 0, 1));
    assert_eq!(tokenizer.next(), token(TokenData::EOF, "", 2, 0, 2));
}

#[test]
fn it_grabs_prefix_symbol_mid_file() {
    let mut tokenizer = make_tokenizer("+ ");
    assert_eq!(tokenizer.next(), token(TokenData::Symbol, "+", 0, 0, 0));
    assert_eq!(tokenizer.next(), token(TokenData::EOF, "", 2, 0, 2));
}

#[test]
fn it_gabs_unmatching_parens() {
    let mut tokenizer = make_tokenizer("((");
    assert_eq!(tokenizer.next(), token(TokenData::Symbol, "(", 0, 0, 0));
    assert_eq!(tokenizer.next(), token(TokenData::Symbol, "(", 1, 0, 1));
    assert_eq!(tokenizer.next(), token(TokenData::EOF, "", 2, 0, 2));
}

#[test]
fn it_grabs_matching_parens() {
    let mut tokenizer = make_tokenizer("()");
    assert_eq!(tokenizer.next(), token(TokenData::Symbol, "(", 0, 0, 0));
    assert_eq!(tokenizer.next(), token(TokenData::Symbol, ")", 1, 0, 1));
    assert_eq!(tokenizer.next(), token(TokenData::EOF, "", 2, 0, 2));
}

#[test]
fn it_grabs_single_ident() {
    let mut tokenizer = make_tokenizer("anIdentifier_2");
    assert_eq!(tokenizer.next(), token(TokenData::Ident, "anIdentifier_2", 0, 0, 0));
    assert_eq!(tokenizer.next(), token(TokenData::EOF, "", 14, 0, 14));
}

#[test]
fn it_grabs_let_ident() {
    let mut tokenizer = make_tokenizer("let x");
    assert_eq!(tokenizer.next(), token(TokenData::Keyword, "let", 0, 0, 0));
    assert_eq!(tokenizer.next(), token(TokenData::Ident, "x", 4, 0, 4));
    assert_eq!(tokenizer.next(), token(TokenData::EOF, "", 5, 0, 5));
}

#[test]
fn it_grabs_float_literal() {
    let mut tokenizer = make_tokenizer("224");
    let t = tokenizer.next();
    assert_eq!(t, token(TokenData::NumberLiteral, "224", 0, 0, 0));
    assert_eq!(t.text.parse::<f64>().unwrap(), 224f64);
    assert_eq!(tokenizer.next(), token(TokenData::EOF, "", 3, 0, 3));

    let mut tokenizer = make_tokenizer("2.4");
    let t = tokenizer.next();
    assert_eq!(t, token(TokenData::NumberLiteral, "2.4", 0, 0, 0));
    assert_eq!(t.text.parse::<f64>().unwrap(), 2.4f64);
    assert_eq!(tokenizer.next(), token(TokenData::EOF, "", 3, 0, 3));

    let mut tokenizer = make_tokenizer("2e4");
    let t = tokenizer.next();
    assert_eq!(t, token(TokenData::NumberLiteral, "2e4", 0, 0, 0));
    assert_eq!(t.text.parse::<f64>().unwrap(), 2e4f64);
    assert_eq!(tokenizer.next(), token(TokenData::EOF, "", 3, 0, 3));

    let mut tokenizer = make_tokenizer("2.4e4");
    let t = tokenizer.next();
    assert_eq!(t, token(TokenData::NumberLiteral, "2.4e4", 0, 0, 0));
    assert_eq!(t.text.parse::<f64>().unwrap(), 2.4e4f64);
    assert_eq!(tokenizer.next(), token(TokenData::EOF, "", 5, 0, 5));
}

#[test]
fn it_ignores_whitespace() {
    let mut tokenizer = make_tokenizer("\n\t\r\n");
    assert_eq!(tokenizer.next(), token(TokenData::EOF, "", 4, 2, 0));
}

#[test]
fn it_ignores_line_comment() {
    let mut tokenizer = make_tokenizer("//comment\nlet x");
    assert_eq!(tokenizer.next(), token(TokenData::Keyword, "let", 10, 1, 0));
    assert_eq!(tokenizer.next(), token(TokenData::Ident, "x", 14, 1, 4));
    assert_eq!(tokenizer.next(), token(TokenData::EOF, "", 15, 1, 5));
}

#[test]
fn it_lexes_complex_input() {
    let input = "let x = y y += 55e7\t \nreturn y % x + 224.5";
    let mut tokenizer = make_tokenizer(input);
    assert_eq!(tokenizer.next(), token(TokenData::Keyword, "let", 0, 0, 0));
    assert_eq!(tokenizer.next(), token(TokenData::Ident, "x", 4, 0, 4));
    assert_eq!(tokenizer.next(), token(TokenData::Symbol, "=", 6, 0, 6));
    assert_eq!(tokenizer.next(), token(TokenData::Ident, "y", 8, 0, 8));
    assert_eq!(tokenizer.next(), token(TokenData::Ident, "y", 10, 0, 10));
    assert_eq!(tokenizer.next(), token(TokenData::Symbol, "+=", 12, 0, 12));
    let t = tokenizer.next();
    assert_eq!(t, token(TokenData::NumberLiteral, "55e7", 15, 0, 15));
    assert_eq!(t.text.parse::<f64>().unwrap(), 55e7f64);
    assert_eq!(tokenizer.next(), token(TokenData::Keyword, "return", 22, 1, 0));
    assert_eq!(tokenizer.next(), token(TokenData::Ident, "y", 29, 1, 7));
    assert_eq!(tokenizer.next(), token(TokenData::Symbol, "%", 31, 1, 9));
    assert_eq!(tokenizer.next(), token(TokenData::Ident, "x", 33, 1, 11));
    assert_eq!(tokenizer.next(), token(TokenData::Symbol, "+", 35, 1, 13));
    let t = tokenizer.next();
    assert_eq!(t, token(TokenData::NumberLiteral, "224.5", 37, 1, 15));
    assert_eq!(t.text.parse::<f64>().unwrap(), 224.5f64);
    assert_eq!(tokenizer.next(), token(TokenData::EOF, "", 42, 1, 20));
}

#[test]
fn it_starts_at_zero() {
    let empty_textiter = PeekTextIter::new("");
    assert_eq!(empty_textiter.get_location(), TextLocation::default());
    assert_eq!(empty_textiter.peek(), None);
}

#[test]
fn it_accepts_unicode_letters_in_idents() {
    let mut tokenizer = make_tokenizer("héllo");
    assert_eq!(tokenizer.next(), token(TokenData::Ident, "héllo", 0, 0, 0));
    assert_eq!(tokenizer.next(), token(TokenData::EOF, "", 5, 0, 5));
}

#[test]
fn it_distinguishes_keywords_from_longer_idents() {
    let mut tokenizer = make_tokenizer("lets mutable returning");
    assert_eq!(tokenizer.next(), token(TokenData::Ident, "lets", 0, 0, 0));
    assert_eq!(tokenizer.next(), token(TokenData::Ident, "mutable", 5, 0, 5));
    assert_eq!(tokenizer.next(), token(TokenData::Ident, "returning", 13, 0, 13));
    assert_eq!(tokenizer.next(), token(TokenData::EOF, "", 22, 0, 22));
}

#[test]
fn it_stops_numbers_before_dangling_exponents() {
    // A malformed exponent or decimal point stops the number early and
    // starts the next token.
    let mut tokenizer = make_tokenizer("2e+");
    assert_eq!(tokenizer.next(), token(TokenData::NumberLiteral, "2", 0, 0, 0));
    assert_eq!(tokenizer.next(), token(TokenData::Ident, "e", 1, 0, 1));
    assert_eq!(tokenizer.next(), token(TokenData::Symbol, "+", 2, 0, 2));
    assert_eq!(tokenizer.next(), token(TokenData::EOF, "", 3, 0, 3));

    let mut tokenizer = make_tokenizer("3.x");
    assert_eq!(tokenizer.next(), token(TokenData::NumberLiteral, "3", 0, 0, 0));
    assert_eq!(tokenizer.next(), token(TokenData::Symbol, ".", 1, 0, 1));
    assert_eq!(tokenizer.next(), token(TokenData::Ident, "x", 2, 0, 2));
}

#[test]
fn it_keeps_yielding_eof() {
    let mut tokenizer = make_tokenizer("x");
    assert_eq!(tokenizer.next(), token(TokenData::Ident, "x", 0, 0, 0));
    let eof = token(TokenData::EOF, "", 1, 0, 1);
    assert_eq!(tokenizer.next(), eof);
    assert_eq!(tokenizer.next(), eof);
    assert_eq!(tokenizer.next(), eof);
}
