//! Symbol handlers for the precedence-climbing parser: precedence tiers and
//! the prefix/infix parsers for operator symbols.

use vstd::prelude::*;

use crate::lex::token::Token;
use crate::lex::token::TokenData;
use crate::parse::ast::Assignment;
use crate::parse::ast::BinaryOperation;
use crate::parse::ast::Expression;
use crate::parse::ast::UnaryOperation;
use crate::parse::errors::ParseError;
use crate::parse::errors::ParseResult;
use crate::parse::parser::parsed_expr_wf;
use crate::parse::parser::spec_operator;
use crate::parse::parser::Parser;

verus! {

/// Precedence tiers, lowest first.  The parser consumes an infix symbol
/// only when its precedence is strictly greater than the current minimum.
#[derive(Debug, Clone, Copy, PartialEq, Eq, Structural)]
pub enum Precedence {
    /// Accepts any expression.
    Min,
    /// Assignment and compound assignment.
    Assign,
    /// Addition and subtraction.
    AddSub,
    /// Multiplication, division, and remainder.
    MulDiv,
    /// Unary prefix operators.
    Prefix,
    /// Parenthesized grouping.
    Paren,
}

impl Precedence {
    pub open spec fn value_spec(&self) -> int {
        match self {
            Precedence::Min => 0,
            Precedence::Assign => 1,
            Precedence::AddSub => 2,
            Precedence::MulDiv => 3,
            Precedence::Prefix => 4,
            Precedence::Paren => 5,
        }
    }

    /// The numeric rank of this tier.
    pub fn value(&self) -> (r: u8)
        ensures
            r as int == self.value_spec(),
    {
        match self {
            Precedence::Min => 0,
            Precedence::Assign => 1,
            Precedence::AddSub => 2,
            Precedence::MulDiv => 3,
            Precedence::Prefix => 4,
            Precedence::Paren => 5,
        }
    }
}

/// A parser for AST nodes standing in the prefix position.
pub trait PrefixParser {
    /// Parses a node whose first token, already consumed, is `token`.
    fn parse(&self, parser: &mut Parser, token: Token) -> (r: ParseResult<Expression>)
        requires
            old(parser).wf(),
        ensures
            final(parser).wf(),
            final(parser).measure() <= old(parser).measure(),
    ;
}

/// A parser for AST nodes standing in the infix position.
pub trait InfixParser {
    /// Parses a node from the operator token just consumed and the
    /// already-parsed expression on its left.
    fn parse(&self, parser: &mut Parser, left: Expression, token: Token) -> (r: ParseResult<
        Expression,
    >)
        requires
            old(parser).wf(),
        ensures
            final(parser).wf(),
            final(parser).measure() <= old(parser).measure(),
    ;

    /// The precedence at which this parser's symbol binds.
    fn get_precedence(&self) -> Precedence;
}

/// Infix parser for binary value operators.  It parses its right operand at
/// its own precedence, so operators of one tier group to the left.
#[derive(Debug, PartialEq, Eq, Structural, Clone, Copy)]
pub struct BinOpExprSymbol {
    pub precedence: Precedence,
}

impl BinOpExprSymbol {
    /// A binary-operator parser with the given precedence.
    pub fn with_precedence(precedence: Precedence) -> (r: BinOpExprSymbol)
        ensures
            r.precedence == precedence,
    {
        BinOpExprSymbol { precedence }
    }

    pub fn get_precedence(&self) -> (r: Precedence)
        ensures
            r == self.precedence,
    {
        self.precedence
    }

    /// Parses a binary operator expression: `token` is the operator just
    /// consumed and `left` its already-parsed left operand; the right
    /// operand is parsed at this handler's own precedence.
    pub fn parse(&self, parser: &mut Parser, left: Expression, token: Token) -> (r: ParseResult<
        Expression,
    >)
        requires
            old(parser).wf(),
        ensures
            final(parser).wf(),
            final(parser).measure() <= old(parser).measure(),
            r matches Err(e) ==> !(e is VerifierError),
            r matches Ok(e) ==> {
                &&& e matches Expression::BinaryOp(b)
                &&& b.token == token
                &&& spec_operator(token.data.type_spec(), token.text@) == Some(b.operator)
                &&& *b.left == left
                &&& parsed_expr_wf(*b.right)
            },
            parsed_expr_wf(left) && r is Ok ==> parsed_expr_wf(r->Ok_0),
            r matches Err(ParseError::ExpectedRValue(x)) ==> !x.is_value_spec(),
            r matches Err(ParseError::ExpectedLValue(x)) ==> !x.is_lvalue_spec(),
            old(parser).peek_data() == TokenData::EOF ==> r == Err::<Expression, ParseError>(
                ParseError::EOF,
            ),
        decreases old(parser).measure(), 1int,
    {
        let right = match parser.expression(self.precedence) {
            Ok(e) => e,
            Err(e) => {
                return Err(e);
            },
        };
        let operator = match parser.operator(token.data.get_type(), token.text.as_str()) {
            Ok(op) => op,
            Err(e) => {
                return Err(e);
            },
        };
        Ok(
            Expression::BinaryOp(
                BinaryOperation::new(operator, token, Box::new(left), Box::new(right)),
            ),
        )
    }
}

impl InfixParser for BinOpExprSymbol {
    fn parse(&self, parser: &mut Parser, left: Expression, token: Token) -> (r: ParseResult<
        Expression,
    >) {
        BinOpExprSymbol::parse(self, parser, left, token)
    }

    fn get_precedence(&self) -> Precedence {
        self.precedence
    }
}

/// Prefix parser for unary operators.  Its operand is parsed at the given
/// (high) precedence and must produce a value.
#[derive(Debug, PartialEq, Eq, Structural, Clone, Copy)]
pub struct UnaryOpExprSymbol {
    pub precedence: Precedence,
}

impl UnaryOpExprSymbol {
    /// A unary-operator parser with the given precedence.
    pub fn with_precedence(precedence: Precedence) -> (r: UnaryOpExprSymbol)
        ensures
            r.precedence == precedence,
    {
        UnaryOpExprSymbol { precedence }
    }

    /// Parses a unary prefix expression: `token` is the operator just
    /// consumed and its operand is parsed at this handler's own (high)
    /// precedence.  Fails with `ExpectedRValue` when the operand produces
    /// no value.
    pub fn parse(&self, parser: &mut Parser, token: Token) -> (r: ParseResult<Expression>)
        requires
            old(parser).wf(),
        ensures
            final(parser).wf(),
            final(parser).measure() <= old(parser).measure(),
            r matches Err(e) ==> !(e is VerifierError),
            r matches Ok(e) ==> {
                &&& e matches Expression::UnaryOp(u)
                &&& u.token == token
                &&& spec_operator(token.data.type_spec(), token.text@) == Some(u.operator)
                &&& (*u.expression).is_value_spec()
                &&& parsed_expr_wf(*u.expression)
            },
            r matches Ok(e) ==> parsed_expr_wf(e),
            r matches Err(ParseError::ExpectedRValue(x)) ==> !x.is_value_spec(),
            r matches Err(ParseError::ExpectedLValue(x)) ==> !x.is_lvalue_spec(),
            old(parser).peek_data() == TokenData::EOF ==> r == Err::<Expression, ParseError>(
                ParseError::EOF,
            ),
        decreases old(parser).measure(), 1int,
    {
        let right = match parser.expression(self.precedence) {
            Ok(e) => e,
            Err(e) => {
                return Err(e);
            },
        };
        let value = match right.expect_value() {
            Ok(v) => v,
            Err(e) => {
                return Err(e);
            },
        };
        let operator = match parser.operator(token.data.get_type(), token.text.as_str()) {
            Ok(op) => op,
            Err(e) => {
                return Err(e);
            },
        };
        Ok(Expression::UnaryOp(UnaryOperation::new(operator, token, Box::new(value))))
    }
}

impl PrefixParser for UnaryOpExprSymbol {
    fn parse(&self, parser: &mut Parser, token: Token) -> (r: ParseResult<Expression>) {
        UnaryOpExprSymbol::parse(self, parser, token)
    }
}

/// Infix parser for plain assignment, `x = value`.  The right-hand side is
/// parsed at the lowest precedence, so assignment groups to the right.
#[derive(Debug, PartialEq, Eq, Structural, Clone, Copy)]
pub struct AssignSymbol {}

impl AssignSymbol {
    /// Parses an assignment: `left` must be a bare variable reference, and
    /// the right-hand side is parsed at the lowest precedence.
    pub fn parse(&self, parser: &mut Parser, left: Expression, token: Token) -> (r: ParseResult<
        Expression,
    >)
        requires
            old(parser).wf(),
        ensures
            final(parser).wf(),
            final(parser).measure() <= old(parser).measure(),
            r matches Err(e) ==> !(e is VerifierError),
            !(left is VariableRef) ==> r == Err::<Expression, ParseError>(
                ParseError::ExpectedLValue(left),
            ),
            r matches Ok(e) ==> {
                &&& e matches Expression::Assignment(a)
                &&& left matches Expression::VariableRef(id)
                &&& a.lvalue == id
                &&& parsed_expr_wf(*a.rvalue)
            },
            parsed_expr_wf(left) && r is Ok ==> parsed_expr_wf(r->Ok_0),
            r matches Err(ParseError::ExpectedRValue(x)) ==> !x.is_value_spec(),
            r matches Err(ParseError::ExpectedLValue(x)) ==> !x.is_lvalue_spec(),
            left is VariableRef && old(parser).peek_data() == TokenData::EOF ==> r == Err::<
                Expression,
                ParseError,
            >(ParseError::EOF),
        decreases old(parser).measure(), 1int,
    {
        let lvalue = match left {
            Expression::VariableRef(id) => id,
            other => {
                return Err(ParseError::ExpectedLValue(other));
            },
        };
        let right = match parser.expression(Precedence::Min) {
            Ok(e) => e,
            Err(e) => {
                return Err(e);
            },
        };
        Ok(Expression::Assignment(Assignment::new(lvalue, Box::new(right))))
    }
}

/// Infix parser for compound assignment, `x += value` and its kin, which is
/// desugared to `x = x + value`: the produced right-hand side is a binary
/// operation, not a bare variable reference.
#[derive(Debug, PartialEq, Eq, Structural, Clone, Copy)]
pub struct AssignOpSymbol {}

impl AssignOpSymbol {
    /// Parses a compound assignment: `left` must be a bare variable
    /// reference, and `token` the compound operator just consumed; the
    /// produced right-hand side is the desugared binary operation over the
    /// assigned variable.
    pub fn parse(&self, parser: &mut Parser, left: Expression, token: Token) -> (r: ParseResult<
        Expression,
    >)
        requires
            old(parser).wf(),
        ensures
            final(parser).wf(),
            final(parser).measure() <= old(parser).measure(),
            r matches Err(e) ==> !(e is VerifierError),
            !(left is VariableRef) ==> r == Err::<Expression, ParseError>(
                ParseError::ExpectedLValue(left),
            ),
            r matches Ok(e) ==> {
                &&& e matches Expression::Assignment(a)
                &&& left matches Expression::VariableRef(id)
                &&& a.lvalue == id
                &&& *a.rvalue matches Expression::BinaryOp(b)
                &&& b.token == token
                &&& spec_operator(token.data.type_spec(), token.text@) == Some(b.operator)
                &&& *b.left matches Expression::VariableRef(lv)
                &&& lv.token == id.token
                &&& parsed_expr_wf(*b.right)
            },
            parsed_expr_wf(left) && r is Ok ==> parsed_expr_wf(r->Ok_0),
            r matches Err(ParseError::ExpectedRValue(x)) ==> !x.is_value_spec(),
            r matches Err(ParseError::ExpectedLValue(x)) ==> !x.is_lvalue_spec(),
            left is VariableRef && old(parser).peek_data() == TokenData::EOF ==> r == Err::<
                Expression,
                ParseError,
            >(ParseError::EOF),
        decreases old(parser).measure(), 1int,
    {
        let ghost left0 = left;
        let lvalue = match left {
            Expression::VariableRef(id) => id,
            other => {
                return Err(ParseError::ExpectedLValue(other));
            },
        };
        let right = match parser.expression(Precedence::Min) {
            Ok(e) => e,
            Err(e) => {
                return Err(e);
            },
        };
        let operator = match parser.operator(token.data.get_type(), token.text.as_str()) {
            Ok(op) => op,
            Err(e) => {
                return Err(e);
            },
        };
        let variable = Expression::VariableRef(lvalue.duplicate());
        proof {
            assert(parsed_expr_wf(left0) ==> parsed_expr_wf(variable));
        }
        let expanded = Expression::BinaryOp(
            BinaryOperation::new(operator, token.duplicate(), Box::new(variable), Box::new(right)),
        );
        proof {
            assert(parsed_expr_wf(left0) ==> parsed_expr_wf(expanded));
        }
        let result = Expression::Assignment(Assignment::new(lvalue, Box::new(expanded)));
        proof {
            assert(parsed_expr_wf(left0) ==> parsed_expr_wf(result));
        }
        Ok(result)
    }
}

} // verus!
