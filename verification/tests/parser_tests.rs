//! Parser tests: precedence climbing, associativity, desugaring, and the
//! parse error taxonomy.

use protosnirk::lex::IterTokenizer;
use protosnirk::lex::TokenType;
use protosnirk::parse::ast::Expression;
use protosnirk::parse::ast::Operator;
use protosnirk::parse::ast::Statement;
use protosnirk::parse::ExpectedNextType;
use protosnirk::parse::Parser;
use protosnirk::parse::ParseError;
use protosnirk::parse::Precedence;
use protosnirk::parse::ast::Identifier;
use protosnirk::parse::symbol::BinOpExprSymbol;
use protosnirk::parse::symbol::UnaryOpExprSymbol;
use protosnirk::lex::Token;

fn parser_for(input: &str) -> Parser {
    Parser::new(IterTokenizer::new(input))
}

fn parse_expr(input: &str) -> Expression {
    parser_for(input).expression(Precedence::Min).unwrap()
}

#[test]
fn dangling_prefix_operator_fails_with_eof() {
    // A trailing operator with nothing after it fails cleanly rather than
    // panicking or looping.
    let err = parser_for("x +").block().unwrap_err();
    assert_eq!(err, ParseError::EOF);
    let err = parser_for("+").block().unwrap_err();
    assert_eq!(err, ParseError::EOF);
    let err = parser_for("1 * (2 -").block().unwrap_err();
    assert_eq!(err, ParseError::EOF);
}

#[test]
fn missing_close_paren_is_expected_token() {
    let err = parser_for("(1 + 2").block().unwrap_err();
    match err {
        ParseError::ExpectedToken { expected, got } => {
            assert_eq!(expected, TokenType::Symbol);
            assert_eq!(got.text, "".to_string());
        },
        other => panic!("expected ExpectedToken, got {:?}", other),
    }
}

#[test]
fn literal_assignment_target_is_expected_lvalue() {
    let err = parser_for("1 = 2").block().unwrap_err();
    assert!(matches!(err, ParseError::ExpectedLValue(_)));
}

#[test]
fn assignment_operand_of_unary_is_expected_rvalue() {
    let err = parser_for("- (x = 1)").block().unwrap_err();
    assert!(matches!(err, ParseError::ExpectedRValue(_)));
}

#[test]
fn declaration_requires_an_identifier() {
    let err = parser_for("let 5 = 3").block().unwrap_err();
    match err {
        ParseError::ExpectedToken { expected, got } => {
            assert_eq!(expected, TokenType::Ident);
            assert_eq!(got.text, "5".to_string());
        },
        other => panic!("expected ExpectedToken, got {:?}", other),
    }
}

#[test]
fn unknown_symbol_is_expected_expression() {
    let err = parser_for("?").block().unwrap_err();
    match err {
        ParseError::ExpectedExpression { expected, got } => {
            assert_eq!(expected, ExpectedNextType::AnyExpression);
            assert_eq!(got.text, "?".to_string());
        },
        other => panic!("expected ExpectedExpression, got {:?}", other),
    }
}

#[test]
fn operator_lookup_rejects_unregistered_symbols() {
    let parser = parser_for("");
    let err = parser.operator(TokenType::Symbol, "?").unwrap_err();
    match err {
        ParseError::UnknownOperator { text, token_type } => {
            assert_eq!(text, "?".to_string());
            assert_eq!(token_type, TokenType::Symbol);
        },
        other => panic!("expected UnknownOperator, got {:?}", other),
    }
    assert_eq!(parser.operator(TokenType::Symbol, "+").unwrap(), Operator::Plus);
    assert_eq!(parser.operator(TokenType::Symbol, "%=").unwrap(), Operator::Percent);
    assert!(parser.operator(TokenType::Ident, "+").is_err());
}

#[test]
fn multiplication_binds_tighter_than_addition() {
    // 1 + 2 * 3 parses as 1 + (2 * 3)
    match parse_expr("1 + 2 * 3") {
        Expression::BinaryOp(top) => {
            assert_eq!(top.operator, Operator::Plus);
            match *top.right {
                Expression::BinaryOp(right) => {
                    assert_eq!(right.operator, Operator::Star);
                },
                other => panic!("expected a product on the right, got {:?}", other),
            }
        },
        other => panic!("expected a sum, got {:?}", other),
    }
}

#[test]
fn subtraction_groups_to_the_left() {
    // 7 - 2 - 1 parses as (7 - 2) - 1
    match parse_expr("7 - 2 - 1") {
        Expression::BinaryOp(top) => {
            assert_eq!(top.operator, Operator::Minus);
            match (*top.left, *top.right) {
                (Expression::BinaryOp(left), Expression::Literal(lit)) => {
                    assert_eq!(left.operator, Operator::Minus);
                    assert_eq!(lit.token.text, "1".to_string());
                },
                other => panic!("expected ((7 - 2) - 1), got {:?}", other),
            }
        },
        other => panic!("expected a difference, got {:?}", other),
    }
}

#[test]
fn parens_override_precedence() {
    // (1 + 2) * 3 parses as a product whose left side is a sum
    match parse_expr("(1 + 2) * 3") {
        Expression::BinaryOp(top) => {
            assert_eq!(top.operator, Operator::Star);
            assert!(matches!(*top.left, Expression::BinaryOp(_)));
        },
        other => panic!("expected a product, got {:?}", other),
    }
}

#[test]
fn compound_assignment_desugars_to_binary_rvalue() {
    // x += 2 becomes x = x + 2
    match parse_expr("x += 2") {
        Expression::Assignment(assign) => {
            assert_eq!(assign.lvalue.token.text, "x".to_string());
            match *assign.rvalue {
                Expression::BinaryOp(op) => {
                    assert_eq!(op.operator, Operator::Plus);
                    match (*op.left, *op.right) {
                        (Expression::VariableRef(id), Expression::Literal(lit)) => {
                            assert_eq!(id.token.text, "x".to_string());
                            assert_eq!(lit.token.text, "2".to_string());
                        },
                        other => panic!("expected x + 2, got {:?}", other),
                    }
                },
                other => panic!("expected a binary rvalue, got {:?}", other),
            }
        },
        other => panic!("expected an assignment, got {:?}", other),
    }
}

#[test]
fn unary_minus_parses_its_operand() {
    match parse_expr("-x") {
        Expression::UnaryOp(op) => {
            assert_eq!(op.operator, Operator::Minus);
            assert!(matches!(*op.expression, Expression::VariableRef(_)));
        },
        other => panic!("expected a unary operation, got {:?}", other),
    }
}

#[test]
fn statements_classify_value_production() {
    let block = parser_for("let x = 1").block().unwrap();
    assert!(!block.has_value());
    let block = parser_for("x + 1").block().unwrap();
    assert!(block.has_value());
    assert!(matches!(block.get_stmts()[0], Statement::Expression(_)));
    let block = parser_for("return x").block().unwrap();
    assert!(!block.has_value());
    let block = parser_for("").block().unwrap();
    assert!(!block.has_value());
    assert_eq!(block.get_stmts().len(), 0);
}

#[test]
fn precedence_tiers_are_ordered() {
    assert!(Precedence::Min.value() < Precedence::Assign.value());
    assert!(Precedence::Assign.value() < Precedence::AddSub.value());
    assert!(Precedence::AddSub.value() < Precedence::MulDiv.value());
    assert!(Precedence::MulDiv.value() < Precedence::Prefix.value());
    assert!(Precedence::Prefix.value() < Precedence::Paren.value());
}

#[test]
fn handler_constructors_carry_their_precedence() {
    let binop = BinOpExprSymbol::with_precedence(Precedence::AddSub);
    assert_eq!(binop.get_precedence(), Precedence::AddSub);
    let unary = UnaryOpExprSymbol::with_precedence(Precedence::Prefix);
    assert_eq!(unary.precedence, Precedence::Prefix);
}

#[test]
fn identifier_converts_into_its_token() {
    let block = parser_for("abc").block().unwrap();
    match block.statements.into_iter().next().unwrap() {
        Statement::Expression(Expression::VariableRef(id)) => {
            let name = id.get_name().to_string();
            assert_eq!(name, "abc".to_string());
            let token: Token = Identifier::into(id);
            assert_eq!(token.text, "abc".to_string());
        },
        other => panic!("expected a variable reference, got {:?}", other),
    }
}

#[test]
fn lone_leaf_expressions_parse() {
    // A single identifier or number literal at the end of the input is a
    // complete expression.
    match parse_expr("x") {
        Expression::VariableRef(id) => assert_eq!(id.token.text, "x".to_string()),
        other => panic!("expected a variable reference, got {:?}", other),
    }
    match parse_expr("42") {
        Expression::Literal(lit) => assert_eq!(lit.token.text, "42".to_string()),
        other => panic!("expected a literal, got {:?}", other),
    }
}
