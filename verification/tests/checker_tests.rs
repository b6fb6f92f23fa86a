//! Tests for the verification checkers: redundant assignments, unused
//! names, constants, and the symbol-table walk.

use protosnirk::lex::IterTokenizer;
use protosnirk::lex::TextLocation;
use protosnirk::lex::Token;
use protosnirk::lex::TokenData;
use protosnirk::parse::ast::Block;
use protosnirk::parse::Parser;
use protosnirk::verify::AssignmentChecker;
use protosnirk::verify::ConstantAssembler;
use protosnirk::verify::ErrorCollector;
use protosnirk::verify::ScopeIndex;
use protosnirk::verify::SymbolTableChecker;
use protosnirk::verify::UsageChecker;
use protosnirk::verify::VerifyError;

fn make_parser(input: &str) -> Parser {
    Parser::new(IterTokenizer::new(input))
}

fn parse_block(input: &str) -> Block {
    make_parser(input).block().unwrap()
}

fn verify_assignment_errors(input: &str, expected: Vec<VerifyError>) {
    let block = parse_block(input);
    let mut verifier = ErrorCollector::new();
    let mut checker = AssignmentChecker {};
    checker.check_block(&mut verifier, &block);
    assert_eq!(verifier.get_errors(), &expected);
}

#[test]
fn it_finds_redundant_assign() {
    let expected = vec![VerifyError::new(
        Token {
            location: TextLocation { start_char: 0, start_line: 0, start_column: 0 },
            text: "x".to_string(),
            data: TokenData::Ident,
        },
        vec![],
        "Redundant assignment of x to itself".to_string(),
    )];
    verify_assignment_errors("x = x", expected);
}

#[test]
fn it_allows_complex_assign() {
    verify_assignment_errors("x = y", vec![]);
}

#[test]
fn it_allows_different_var_assign() {
    verify_assignment_errors("x = x + 1", vec![]);
}

#[test]
fn it_allows_assign_op() {
    // x += x means x = x + x, a different value expression
    verify_assignment_errors("x += x", vec![]);
}

#[test]
fn usage_checker_flags_unused_declaration() {
    let block = parse_block("let x = 1");
    let mut verifier = ErrorCollector::new();
    let mut checker = UsageChecker {};
    checker.check_block(&mut verifier, &block);
    assert_eq!(verifier.get_errors().len(), 0);
    assert_eq!(verifier.get_warnings().len(), 1);
    assert_eq!(verifier.get_warnings()[0].text, "Variable x is never used".to_string());
    assert_eq!(verifier.get_warnings()[0].token.text, "x".to_string());
}

#[test]
fn usage_checker_accepts_used_declaration() {
    let block = parse_block("let x = 1 return x + 2");
    let mut verifier = ErrorCollector::new();
    let mut checker = UsageChecker {};
    checker.check_block(&mut verifier, &block);
    assert_eq!(verifier.get_warnings().len(), 0);
}

#[test]
fn constant_assembler_collects_literals_in_order() {
    let block = parse_block("let x = 1 + 2 return x * 36");
    let mut verifier = ErrorCollector::new();
    let mut assembler = ConstantAssembler::new();
    assembler.check_block(&mut verifier, &block);
    let texts: Vec<&str> = assembler.get_constants().iter().map(|t| t.text.as_str()).collect();
    assert_eq!(texts, vec!["1", "2", "36"]);
}

#[test]
fn symbol_checker_assigns_distinct_indices() {
    let block = parse_block("let x = 1 let y = x");
    let mut verifier = ErrorCollector::new();
    let mut checker = SymbolTableChecker::new();
    let resolved = checker.check_block(&mut verifier, block);
    let table = checker.into_table();
    assert_eq!(verifier.get_errors().len(), 0);
    assert_eq!(table.len(), 2);
    let x_index = ScopeIndex::new(vec![0, 0]);
    let y_index = ScopeIndex::new(vec![0, 1]);
    assert_eq!(table.get(&x_index).unwrap().name, "x".to_string());
    assert_eq!(table.get(&y_index).unwrap().name, "y".to_string());
    assert!(table.get(&ScopeIndex::new(vec![0, 2])).is_none());
    assert_eq!(resolved.get_stmts().len(), 2);
}

#[test]
fn symbol_checker_reports_undefined_reference() {
    let block = parse_block("x = 3");
    let mut verifier = ErrorCollector::new();
    let mut checker = SymbolTableChecker::new();
    let _resolved = checker.check_block(&mut verifier, block);
    assert_eq!(verifier.get_errors().len(), 1);
    assert_eq!(
        verifier.get_errors()[0].text,
        "Reference to undefined variable x".to_string()
    );
}

#[test]
fn symbol_checker_resolves_shadowed_names_innermost_first() {
    let block = parse_block("mut a = 1 a = a + 2");
    let mut verifier = ErrorCollector::new();
    let mut checker = SymbolTableChecker::new();
    let _resolved = checker.check_block(&mut verifier, block);
    let table = checker.into_table();
    assert_eq!(verifier.get_errors().len(), 0);
    assert_eq!(table.len(), 1);
    let a_index = ScopeIndex::new(vec![0, 0]);
    let symbol = table.get(&a_index).unwrap();
    assert_eq!(symbol.name, "a".to_string());
    assert!(symbol.mutable);
}

fn literal_token(text: &str) -> Token {
    Token {
        data: TokenData::NumberLiteral,
        text: text.to_string(),
        location: TextLocation { start_char: 0, start_line: 0, start_column: 0 },
    }
}

fn ident_token(name: &str) -> Token {
    Token {
        data: TokenData::Ident,
        text: name.to_string(),
        location: TextLocation { start_char: 0, start_line: 0, start_column: 0 },
    }
}

fn declaration_of(name: &str) -> protosnirk::parse::ast::Statement {
    protosnirk::parse::ast::Statement::Declaration(protosnirk::parse::ast::Declaration::new(
        false,
        protosnirk::parse::ast::Identifier::new(ident_token(name)),
        Box::new(protosnirk::parse::ast::Expression::Literal(
            protosnirk::parse::ast::Literal::new(literal_token("1")),
        )),
    ))
}

#[test]
fn symbol_checker_gives_nested_blocks_distinct_prefixes() {
    // let x = 1
    // do { let y = 1 }
    // do { let z = 1 }
    let inner1 = Block::new(vec![declaration_of("y")]);
    let inner2 = Block::new(vec![declaration_of("z")]);
    let root = Block::new(vec![
        declaration_of("x"),
        protosnirk::parse::ast::Statement::DoBlock(inner1),
        protosnirk::parse::ast::Statement::DoBlock(inner2),
    ]);
    let mut verifier = ErrorCollector::new();
    let mut checker = SymbolTableChecker::new();
    let _resolved = checker.check_block(&mut verifier, root);
    let table = checker.into_table();
    // every declaration got its own scope index
    assert_eq!(table.len(), 3);
    assert_eq!(table.get(&ScopeIndex::new(vec![0, 0])).unwrap().name, "x".to_string());
    assert_eq!(table.get(&ScopeIndex::new(vec![0, 1, 0])).unwrap().name, "y".to_string());
    assert_eq!(table.get(&ScopeIndex::new(vec![0, 2, 0])).unwrap().name, "z".to_string());
}
