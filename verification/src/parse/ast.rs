//! The AST node types produced by parsing: expressions, statements,
//! operators, blocks, and identifiers.

use vstd::prelude::*;

use crate::lex::token::Token;
use crate::parse::errors::ParseError;
use crate::parse::errors::ParseResult;
use crate::verify::scope::ScopeIndex;

verus! {

/// A value operator.  Compound assignments are desugared during parsing, so
/// the operator of `x += y` is `Plus`.
#[derive(Debug, Clone, Copy, PartialEq, Eq, Structural)]
pub enum Operator {
    Plus,
    Minus,
    Star,
    Slash,
    Percent,
}

/// Basic identifier type.  The scope index starts out as the default value
/// at parse time and is written by the verification pass.
#[derive(Debug, PartialEq)]
pub struct Identifier {
    pub token: Token,
    pub index: ScopeIndex,
}

impl Identifier {
    /// An identifier for `token`, with the default (unresolved) scope index.
    pub fn new(token: Token) -> (r: Identifier)
        ensures
            r.token == token,
            r.index@ == seq![0usize],
    {
        Identifier { token, index: ScopeIndex::default() }
    }

    /// The name this identifier refers to.
    pub open spec fn name(&self) -> Seq<char> {
        self.token.text@
    }

    pub fn get_name(&self) -> (r: &str)
        ensures
            r@ == self.name(),
    {
        self.token.text.as_str()
    }

    pub fn get_token(&self) -> (r: &Token)
        ensures
            *r == self.token,
    {
        &self.token
    }

    /// The resolved scope index, as written by the verification pass.
    pub fn get_index(&self) -> (r: ScopeIndex)
        ensures
            r@ == self.index@,
    {
        self.index.duplicate()
    }

    /// Writes the resolved scope index; called exactly once, by the
    /// verification pass.
    pub fn set_index(&mut self, index: ScopeIndex)
        ensures
            final(self).index == index,
            final(self).token == old(self).token,
    {
        self.index = index;
    }

    /// An exact copy of this identifier.
    pub fn duplicate(&self) -> (r: Identifier)
        ensures
            r.token == self.token,
            r.index@ == self.index@,
    {
        Identifier { token: self.token.duplicate(), index: self.index.duplicate() }
    }
}

impl From<Identifier> for Token {
    /// An identifier gives up its token.
    fn from(identifier: Identifier) -> (r: Token) {
        identifier.token
    }
}

impl vstd::std_specs::convert::FromSpecImpl<Identifier> for Token {
    open spec fn obeys_from_spec() -> bool {
        true
    }

    open spec fn from_spec(identifier: Identifier) -> Token {
        identifier.token
    }
}

/// A number literal expression.
#[derive(Debug, PartialEq)]
pub struct Literal {
    pub token: Token,
}

impl Literal {
    pub fn new(token: Token) -> (r: Literal)
        ensures
            r.token == token,
    {
        Literal { token }
    }

    pub fn get_token(&self) -> (r: &Token)
        ensures
            *r == self.token,
    {
        &self.token
    }
}

/// A unary prefix operation applied to a value expression.
#[derive(Debug, PartialEq)]
pub struct UnaryOperation {
    pub operator: Operator,
    pub token: Token,
    pub expression: Box<Expression>,
}

impl UnaryOperation {
    pub fn new(operator: Operator, token: Token, expression: Box<Expression>) -> (r:
        UnaryOperation)
        ensures
            r.operator == operator,
            r.token == token,
            r.expression == expression,
    {
        UnaryOperation { operator, token, expression }
    }
}

/// A binary operation on two expressions.
#[derive(Debug, PartialEq)]
pub struct BinaryOperation {
    pub operator: Operator,
    pub token: Token,
    pub left: Box<Expression>,
    pub right: Box<Expression>,
}

impl BinaryOperation {
    pub fn new(operator: Operator, token: Token, left: Box<Expression>, right: Box<
        Expression,
    >) -> (r: BinaryOperation)
        ensures
            r.operator == operator,
            r.token == token,
            r.left == left,
            r.right == right,
    {
        BinaryOperation { operator, token, left, right }
    }
}

/// An assignment of a value to a named variable.  `x += y` is desugared to
/// `x = x + y` during parsing, so its right-hand side is a binary operation,
/// not a bare variable reference.
#[derive(Debug, PartialEq)]
pub struct Assignment {
    pub lvalue: Identifier,
    pub rvalue: Box<Expression>,
}

impl Assignment {
    pub fn new(lvalue: Identifier, rvalue: Box<Expression>) -> (r: Assignment)
        ensures
            r.lvalue == lvalue,
            r.rvalue == rvalue,
    {
        Assignment { lvalue, rvalue }
    }
}

/// An expression node.
#[derive(Debug, PartialEq)]
pub enum Expression {
    Literal(Literal),
    VariableRef(Identifier),
    BinaryOp(BinaryOperation),
    UnaryOp(UnaryOperation),
    Assignment(Assignment),
}

impl Expression {
    /// Whether this expression produces a value.
    pub open spec fn is_value_spec(&self) -> bool {
        !(self is Assignment)
    }

    pub fn is_value(&self) -> (r: bool)
        ensures
            r == self.is_value_spec(),
    {
        match self {
            Expression::Assignment(_) => false,
            _ => true,
        }
    }

    /// Whether this expression can stand on the left of an assignment.
    pub open spec fn is_lvalue_spec(&self) -> bool {
        self is VariableRef
    }

    /// Returns the expression itself when it produces a value, and
    /// `ExpectedRValue` otherwise.
    pub fn expect_value(self) -> (r: ParseResult<Expression>)
        ensures
            self.is_value_spec() ==> r == Ok::<Expression, ParseError>(self),
            !self.is_value_spec() ==> r == Err::<Expression, ParseError>(
                ParseError::ExpectedRValue(self),
            ),
    {
        if self.is_value() {
            Ok(self)
        } else {
            Err(ParseError::ExpectedRValue(self))
        }
    }
}

/// A `return` statement and its value.
#[derive(Debug, PartialEq)]
pub struct Return {
    pub token: Token,
    pub value: Box<Expression>,
}

/// A statement node.
#[derive(Debug, PartialEq)]
pub enum Statement {
    Expression(Expression),
    Return(Return),
    Declaration(Declaration),
    DoBlock(Block),
}

impl Statement {
    /// Whether this statement produces a value.
    pub open spec fn has_value_spec(&self) -> bool
        decreases self,
    {
        match self {
            Statement::Expression(_) => true,
            Statement::Return(_) => false,
            Statement::Declaration(_) => false,
            Statement::DoBlock(b) => b.has_value_spec(),
        }
    }

    pub fn has_value(&self) -> (r: bool)
        ensures
            r == self.has_value_spec(),
        decreases *self,
    {
        match self {
            Statement::Expression(_) => true,
            Statement::Return(_) => false,
            Statement::Declaration(_) => false,
            Statement::DoBlock(b) => b.has_value(),
        }
    }
}

/// A variable binding: `let` is immutable, `mut` is mutable.
#[derive(Debug, PartialEq)]
pub struct Declaration {
    pub mutable: bool,
    pub ident: Identifier,
    pub value: Box<Expression>,
}

impl Declaration {
    pub fn new(mutable: bool, ident: Identifier, value: Box<Expression>) -> (r: Declaration)
        ensures
            r.mutable == mutable,
            r.ident == ident,
            r.value == value,
    {
        Declaration { mutable, ident, value }
    }
}

/// An ordered sequence of statements, plus the scope index context active
/// at block entry (written by the verification pass).
#[derive(Debug, PartialEq)]
pub struct Block {
    pub statements: Vec<Statement>,
    pub partial_index: ScopeIndex,
}

impl Block {
    /// A block of `statements`, with the default (unresolved) scope index.
    pub fn new(statements: Vec<Statement>) -> (r: Block)
        ensures
            r.statements == statements,
            r.partial_index@ == seq![0usize],
    {
        Block { statements, partial_index: ScopeIndex::default() }
    }

    /// A block produces a value exactly when it is non-empty and its last
    /// statement produces a value.
    pub open spec fn has_value_spec(&self) -> bool
        decreases self,
    {
        self.statements@.len() > 0 && self.statements@.last().has_value_spec()
    }

    pub fn has_value(&self) -> (r: bool)
        ensures
            r == self.has_value_spec(),
        decreases *self,
    {
        if self.statements.len() == 0 {
            return false;
        }
        let last_ix = self.statements.len() - 1;
        self.statements[last_ix].has_value()
    }

    pub fn get_index(&self) -> (r: &ScopeIndex)
        ensures
            *r == self.partial_index,
    {
        &self.partial_index
    }

    pub fn get_stmts(&self) -> (r: &Vec<Statement>)
        ensures
            *r == self.statements,
    {
        &self.statements
    }
}

} // verus!
