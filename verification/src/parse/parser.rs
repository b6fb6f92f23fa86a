//! The precedence-climbing parser: a single-pass token cursor plus a fixed
//! table of prefix and infix symbol handlers.

use vstd::prelude::*;

use crate::lex::scan::str_eq;
use crate::lex::token::Token;
use crate::lex::token::TokenData;
use crate::lex::token::TokenType;
use crate::lex::tokenizer::IterTokenizer;
use crate::parse::ast::Block;
use crate::parse::ast::Declaration;
use crate::parse::ast::Expression;
use crate::parse::ast::Identifier;
use crate::parse::ast::Literal;
use crate::parse::ast::Operator;
use crate::parse::ast::Return;
use crate::parse::ast::Statement;
use crate::parse::errors::ExpectedNextType;
use crate::parse::errors::ParseError;
use crate::parse::errors::ParseResult;
use crate::parse::symbol::AssignOpSymbol;
use crate::parse::symbol::AssignSymbol;
use crate::parse::symbol::BinOpExprSymbol;
use crate::parse::symbol::Precedence;
use crate::parse::symbol::UnaryOpExprSymbol;

verus! {

/// The operator a symbol token stands for: the compound-assignment spelling
/// maps to the operator of its expansion.
pub open spec fn spec_operator(token_type: TokenType, text: Seq<char>) -> Option<Operator> {
    if token_type != TokenType::Symbol {
        None
    } else if text == "+"@ || text == "+="@ {
        Some(Operator::Plus)
    } else if text == "-"@ || text == "-="@ {
        Some(Operator::Minus)
    } else if text == "*"@ || text == "*="@ {
        Some(Operator::Star)
    } else if text == "/"@ || text == "/="@ {
        Some(Operator::Slash)
    } else if text == "%"@ || text == "%="@ {
        Some(Operator::Percent)
    } else {
        None
    }
}

/// The symbol texts registered as prefix handlers: grouping and the unary
/// operators.
pub open spec fn is_prefix_symbol_text(text: Seq<char>) -> bool {
    text == "("@ || text == "-"@ || text == "+"@
}

/// What every expression the parser can produce looks like: literals carry
/// number tokens, references and assignment targets carry identifier
/// tokens, every operator node carries the symbol token it was parsed from
/// and the operator that symbol stands for, and unary operands produce
/// values.
pub open spec fn parsed_expr_wf(e: Expression) -> bool
    decreases e,
{
    match e {
        Expression::Literal(l) => l.token.data == TokenData::NumberLiteral,
        Expression::VariableRef(id) => id.token.data == TokenData::Ident,
        Expression::UnaryOp(u) => {
            &&& spec_operator(u.token.data.type_spec(), u.token.text@) == Some(u.operator)
            &&& (*u.expression).is_value_spec()
            &&& parsed_expr_wf(*u.expression)
        },
        Expression::BinaryOp(b) => {
            &&& spec_operator(b.token.data.type_spec(), b.token.text@) == Some(b.operator)
            &&& parsed_expr_wf(*b.left)
            &&& parsed_expr_wf(*b.right)
        },
        Expression::Assignment(a) => {
            &&& a.lvalue.token.data == TokenData::Ident
            &&& parsed_expr_wf(*a.rvalue)
        },
    }
}

/// What every statement the parser can produce looks like; the parser never
/// produces a nested block statement itself.
pub open spec fn parsed_stmt_wf(s: Statement) -> bool
    decreases s,
{
    match s {
        Statement::Expression(e) => parsed_expr_wf(e),
        Statement::Return(ret) => ret.token.data == TokenData::Keyword && parsed_expr_wf(
            *ret.value,
        ),
        Statement::Declaration(d) => d.ident.token.data == TokenData::Ident && parsed_expr_wf(
            *d.value,
        ),
        Statement::DoBlock(_) => false,
    }
}

/// Which infix handler a symbol selects.
enum InfixKind {
    Binary,
    Assign,
    AssignOp,
}

/// The parser: a non-rewindable token cursor and a one-token lookahead.
#[derive(Debug)]
pub struct Parser {
    tokenizer: IterTokenizer,
    current: Token,
}

impl Parser {
    /// The parser's cursor is inside its text, and once the lookahead is
    /// `EOF` no characters remain.
    pub closed spec fn wf(&self) -> bool {
        &&& self.tokenizer.wf()
        &&& self.tokenizer.remaining() >= 0
        &&& (self.current.data is EOF ==> self.tokenizer.remaining() == 0)
    }

    /// How much input is left: unconsumed characters plus the lookahead
    /// token.  Every token consumed strictly shrinks it, which bounds the
    /// parser's recursion.
    pub closed spec fn measure(&self) -> int {
        self.tokenizer.remaining() + if self.current.data is EOF {
            0int
        } else {
            1int
        }
    }

    /// The kind of the next unconsumed token.
    pub closed spec fn peek_data(&self) -> TokenData {
        self.current.data
    }

    /// The next unconsumed token.
    pub closed spec fn peek_token(&self) -> Token {
        self.current
    }

    pub proof fn lemma_measure(&self)
        requires
            self.wf(),
        ensures
            self.measure() >= 0,
    {
    }

    /// A parser over the given tokenizer; its lookahead is the first token
    /// of the remaining input.
    pub fn new(tokenizer: IterTokenizer) -> (r: Parser)
        requires
            tokenizer.wf(),
        ensures
            r.wf(),
            r.peek_data() == crate::lex::scan::token_data_at(
                tokenizer.src(),
                crate::lex::scan::skip_trivia(tokenizer.src(), tokenizer.pos()),
            ),
    {
        let mut t = tokenizer;
        proof {
            t.lemma_wf();
        }
        let current = t.next();
        Parser { tokenizer: t, current }
    }

    /// Consumes and returns the next token.  After `EOF` is reached, every
    /// further token is `EOF` again.
    fn advance(&mut self) -> (t: Token)
        requires
            old(self).wf(),
        ensures
            final(self).wf(),
            t == old(self).current,
            final(self).measure() <= old(self).measure(),
            t.data != TokenData::EOF ==> final(self).measure() < old(self).measure(),
    {
        proof {
            self.tokenizer.lemma_wf();
        }
        let mut next = self.tokenizer.next();
        core::mem::swap(&mut self.current, &mut next);
        next
    }

    /// The operator a symbol token stands for, or `UnknownOperator` when it
    /// matches none.
    pub fn operator(&self, token_type: TokenType, text: &str) -> (r: ParseResult<Operator>)
        ensures
            match r {
                Ok(op) => spec_operator(token_type, text@) == Some(op),
                Err(e) => {
                    &&& spec_operator(token_type, text@) is None
                    &&& e matches ParseError::UnknownOperator { text: t, token_type: tt }
                    &&& t@ == text@
                    &&& tt == token_type
                },
            },
    {
        let is_symbol = match token_type {
            TokenType::Symbol => true,
            _ => false,
        };
        if is_symbol {
            if str_eq(text, "+") || str_eq(text, "+=") {
                return Ok(Operator::Plus);
            }
            if str_eq(text, "-") || str_eq(text, "-=") {
                return Ok(Operator::Minus);
            }
            if str_eq(text, "*") || str_eq(text, "*=") {
                return Ok(Operator::Star);
            }
            if str_eq(text, "/") || str_eq(text, "/=") {
                return Ok(Operator::Slash);
            }
            if str_eq(text, "%") || str_eq(text, "%=") {
                return Ok(Operator::Percent);
            }
        }
        Err(ParseError::UnknownOperator { text: text.to_owned(), token_type })
    }

    /// Which infix handler, if any, the lookahead token selects, and its
    /// precedence.
    fn infix_lookup(&self) -> (r: Option<(Precedence, InfixKind)>)
        ensures
            r is Some ==> self.peek_data() == TokenData::Symbol,
    {
        let is_symbol = match self.current.data {
            TokenData::Symbol => true,
            _ => false,
        };
        if !is_symbol {
            return None;
        }
        let text = self.current.text.as_str();
        if str_eq(text, "+") || str_eq(text, "-") {
            Some((Precedence::AddSub, InfixKind::Binary))
        } else if str_eq(text, "*") || str_eq(text, "/") || str_eq(text, "%") {
            Some((Precedence::MulDiv, InfixKind::Binary))
        } else if str_eq(text, "=") {
            Some((Precedence::Assign, InfixKind::Assign))
        } else if str_eq(text, "+=") || str_eq(text, "-=") || str_eq(text, "*=") || str_eq(
            text,
            "/=",
        ) || str_eq(text, "%=") {
            Some((Precedence::Assign, InfixKind::AssignOp))
        } else {
            None
        }
    }

    /// Parses one expression by precedence climbing: the token consumed
    /// first must start an expression (else `ExpectedExpression`, or `EOF`
    /// when the input has ended), and infix symbols are then consumed for
    /// as long as their precedence is strictly greater than
    /// `min_precedence`.
    pub fn expression(&mut self, min_precedence: Precedence) -> (r: ParseResult<Expression>)
        requires
            old(self).wf(),
        ensures
            final(self).wf(),
            final(self).measure() <= old(self).measure(),
            r is Ok ==> final(self).measure() < old(self).measure(),
            r matches Err(e) ==> !(e is VerifierError),
            old(self).peek_data() == TokenData::EOF ==> r == Err::<Expression, ParseError>(
                ParseError::EOF,
            ),
            r matches Ok(e) ==> parsed_expr_wf(e),
            old(self).peek_data() == TokenData::Keyword ==> r == Err::<Expression, ParseError>(
                ParseError::ExpectedExpression {
                    expected: ExpectedNextType::AnyExpression,
                    got: old(self).peek_token(),
                },
            ),
            old(self).peek_data() == TokenData::Symbol && !is_prefix_symbol_text(
                old(self).peek_token().text@,
            ) ==> r == Err::<Expression, ParseError>(
                ParseError::ExpectedExpression {
                    expected: ExpectedNextType::AnyExpression,
                    got: old(self).peek_token(),
                },
            ),
            r matches Err(ParseError::ExpectedRValue(x)) ==> !x.is_value_spec(),
            r matches Err(ParseError::ExpectedLValue(x)) ==> !x.is_lvalue_spec(),
            (old(self).peek_data() == TokenData::Ident && old(self).measure() <= 1) ==> {
                &&& r matches Ok(e)
                &&& e matches Expression::VariableRef(id)
                &&& id.token == old(self).peek_token()
            },
            (old(self).peek_data() == TokenData::NumberLiteral && old(self).measure() <= 1)
                ==> {
                &&& r matches Ok(e)
                &&& e matches Expression::Literal(l)
                &&& l.token == old(self).peek_token()
            },
        decreases old(self).measure(), 0int,
    {
        let token = self.advance();
        let is_eof = match token.data {
            TokenData::EOF => true,
            _ => false,
        };
        if is_eof {
            return Err(ParseError::EOF);
        }
        let mut left: Expression;
        match token.data {
            TokenData::Ident => {
                left = Expression::VariableRef(Identifier::new(token));
            },
            TokenData::NumberLiteral => {
                left = Expression::Literal(Literal::new(token));
            },
            TokenData::Symbol => {
                if str_eq(token.text.as_str(), "(") {
                    let inner = match self.expression(Precedence::Min) {
                        Ok(e) => e,
                        Err(e) => {
                            return Err(e);
                        },
                    };
                    let close = self.advance();
                    let closes = match close.data {
                        TokenData::Symbol => str_eq(close.text.as_str(), ")"),
                        _ => false,
                    };
                    if !closes {
                        return Err(
                            ParseError::ExpectedToken {
                                expected: TokenType::Symbol,
                                got: close,
                            },
                        );
                    }
                    left = inner;
                } else if str_eq(token.text.as_str(), "-") || str_eq(token.text.as_str(), "+") {
                    let handler = UnaryOpExprSymbol::with_precedence(Precedence::Prefix);
                    left = match handler.parse(self, token) {
                        Ok(e) => e,
                        Err(e) => {
                            return Err(e);
                        },
                    };
                } else {
                    return Err(
                        ParseError::ExpectedExpression {
                            expected: ExpectedNextType::AnyExpression,
                            got: token,
                        },
                    );
                }
            },
            _ => {
                return Err(
                    ParseError::ExpectedExpression {
                        expected: ExpectedNextType::AnyExpression,
                        got: token,
                    },
                );
            },
        }
        let ghost left0 = left;
        proof {
            if (old(self).peek_data() == TokenData::Ident || old(self).peek_data()
                == TokenData::NumberLiteral) && old(self).measure() <= 1 {
                assert(self.measure() == 0);
                assert(self.peek_data() == TokenData::EOF);
            }
        }
        loop
            invariant
                self.wf(),
                self.measure() < old(self).measure(),
                old(self).peek_data() != TokenData::EOF,
                old(self).peek_data() != TokenData::Keyword,
                old(self).peek_data() == TokenData::Symbol ==> is_prefix_symbol_text(
                    old(self).peek_token().text@,
                ),
                parsed_expr_wf(left),
                ((old(self).peek_data() == TokenData::Ident || old(self).peek_data()
                    == TokenData::NumberLiteral) && old(self).measure() <= 1) ==> (left == left0
                    && self.peek_data() == TokenData::EOF),
            ensures
                self.wf(),
                self.measure() < old(self).measure(),
                parsed_expr_wf(left),
                ((old(self).peek_data() == TokenData::Ident || old(self).peek_data()
                    == TokenData::NumberLiteral) && old(self).measure() <= 1) ==> left == left0,
            decreases self.measure(),
        {
            let found = self.infix_lookup();
            let (precedence, kind) = match found {
                Some(pair) => pair,
                None => {
                    break ;
                },
            };
            if precedence.value() <= min_precedence.value() {
                break ;
            }
            let op_token = self.advance();
            let step = match kind {
                InfixKind::Binary => BinOpExprSymbol::with_precedence(precedence).parse(
                    self,
                    left,
                    op_token,
                ),
                InfixKind::Assign => (AssignSymbol {  }).parse(self, left, op_token),
                InfixKind::AssignOp => (AssignOpSymbol {  }).parse(self, left, op_token),
            };
            left = match step {
                Ok(e) => e,
                Err(e) => {
                    return Err(e);
                },
            };
        }
        Ok(left)
    }

    /// Parses one statement: a `let`/`mut` declaration, a `return`, or an
    /// expression statement.
    pub fn statement(&mut self) -> (r: ParseResult<Statement>)
        requires
            old(self).wf(),
        ensures
            final(self).wf(),
            final(self).measure() <= old(self).measure(),
            r is Ok ==> final(self).measure() < old(self).measure(),
            r matches Err(e) ==> !(e is VerifierError),
            r matches Ok(s) ==> parsed_stmt_wf(s),
            (r is Ok && old(self).peek_data() == TokenData::Keyword && old(
                self,
            ).peek_token().text@ == "return"@) ==> {
                &&& r->Ok_0 matches Statement::Return(ret)
                &&& ret.token == old(self).peek_token()
            },
            (r is Ok && old(self).peek_data() == TokenData::Keyword && old(
                self,
            ).peek_token().text@ != "return"@) ==> {
                &&& r->Ok_0 matches Statement::Declaration(d)
                &&& d.mutable == (old(self).peek_token().text@ == "mut"@)
            },
            (r is Ok && old(self).peek_data() != TokenData::Keyword) ==> r->Ok_0 is Expression,
            ((old(self).peek_data() == TokenData::Ident || old(self).peek_data()
                == TokenData::NumberLiteral) && old(self).measure() <= 1) ==> r is Ok,
            r matches Err(ParseError::ExpectedRValue(x)) ==> !x.is_value_spec(),
            r matches Err(ParseError::ExpectedLValue(x)) ==> !x.is_lvalue_spec(),
        decreases old(self).measure(), 2int,
    {
        let is_keyword = match self.current.data {
            TokenData::Keyword => true,
            _ => false,
        };
        if is_keyword {
            if str_eq(self.current.text.as_str(), "return") {
                let return_token = self.advance();
                let value = match self.expression(Precedence::Min) {
                    Ok(e) => e,
                    Err(e) => {
                        return Err(e);
                    },
                };
                return Ok(Statement::Return(Return { token: return_token, value: Box::new(value) }));
            }
            return self.declaration();
        }
        let expr = match self.expression(Precedence::Min) {
            Ok(e) => e,
            Err(e) => {
                return Err(e);
            },
        };
        Ok(Statement::Expression(expr))
    }

    /// Parses a variable binding: `let` (immutable) or `mut` (mutable),
    /// then an identifier, `=`, and a value expression.
    fn declaration(&mut self) -> (r: ParseResult<Statement>)
        requires
            old(self).wf(),
            old(self).peek_data() == TokenData::Keyword,
        ensures
            final(self).wf(),
            final(self).measure() <= old(self).measure(),
            r is Ok ==> final(self).measure() < old(self).measure(),
            r matches Err(e) ==> !(e is VerifierError),
            r is Ok ==> {
                &&& parsed_stmt_wf(r->Ok_0)
                &&& r->Ok_0 matches Statement::Declaration(d)
                &&& d.mutable == (old(self).peek_token().text@ == "mut"@)
            },
            r matches Err(ParseError::ExpectedRValue(x)) ==> !x.is_value_spec(),
            r matches Err(ParseError::ExpectedLValue(x)) ==> !x.is_lvalue_spec(),
        decreases old(self).measure(), 1int,
    {
        let keyword = self.advance();
        let mutable = str_eq(keyword.text.as_str(), "mut");
        if !mutable && !str_eq(keyword.text.as_str(), "let") {
            return Err(
                ParseError::ExpectedExpression {
                    expected: ExpectedNextType::AnyStatement,
                    got: keyword,
                },
            );
        }
        let name = self.advance();
        let name_is_ident = match name.data {
            TokenData::Ident => true,
            _ => false,
        };
        if !name_is_ident {
            return Err(ParseError::ExpectedToken { expected: TokenType::Ident, got: name });
        }
        let equals = self.advance();
        let equals_ok = match equals.data {
            TokenData::Symbol => str_eq(equals.text.as_str(), "="),
            _ => false,
        };
        if !equals_ok {
            return Err(ParseError::ExpectedToken { expected: TokenType::Symbol, got: equals });
        }
        let value = match self.expression(Precedence::Min) {
            Ok(e) => e,
            Err(e) => {
                return Err(e);
            },
        };
        Ok(
            Statement::Declaration(
                Declaration { mutable, ident: Identifier::new(name), value: Box::new(value) },
            ),
        )
    }

    /// Parses statements up to the end of the input.  The first syntax
    /// error aborts the whole parse and is returned; there is no
    /// resynchronization.
    pub fn block(&mut self) -> (r: ParseResult<Block>)
        requires
            old(self).wf(),
        ensures
            final(self).wf(),
            final(self).measure() <= old(self).measure(),
            r matches Err(e) ==> !(e is VerifierError),
            r is Ok ==> final(self).peek_data() == TokenData::EOF,
            old(self).peek_data() == TokenData::EOF ==> {
                &&& r matches Ok(b)
                &&& b.statements@.len() == 0
            },
            r matches Ok(b) ==> (b.statements@.len() == 0 <==> old(self).peek_data()
                == TokenData::EOF),
            r matches Ok(b) ==> forall|i: int|
                0 <= i < b.statements@.len() ==> parsed_stmt_wf(#[trigger] b.statements@[i]),
            r matches Err(ParseError::ExpectedRValue(x)) ==> !x.is_value_spec(),
            r matches Err(ParseError::ExpectedLValue(x)) ==> !x.is_lvalue_spec(),
        decreases old(self).measure(), 3int,
    {
        let mut statements: Vec<Statement> = Vec::new();
        loop
            invariant
                self.wf(),
                self.measure() <= old(self).measure(),
                statements@.len() == 0 ==> self.peek_data() == old(self).peek_data(),
                old(self).peek_data() == TokenData::EOF ==> statements@.len() == 0
                    && self.peek_data() == TokenData::EOF,
                forall|i: int|
                    0 <= i < statements@.len() ==> parsed_stmt_wf(#[trigger] statements@[i]),
            ensures
                self.wf(),
                self.measure() <= old(self).measure(),
                self.peek_data() == TokenData::EOF,
                statements@.len() == 0 ==> self.peek_data() == old(self).peek_data(),
                old(self).peek_data() == TokenData::EOF ==> statements@.len() == 0,
                forall|i: int|
                    0 <= i < statements@.len() ==> parsed_stmt_wf(#[trigger] statements@[i]),
            decreases self.measure(),
        {
            let at_end = match self.current.data {
                TokenData::EOF => true,
                _ => false,
            };
            if at_end {
                break ;
            }
            let s = match self.statement() {
                Ok(s) => s,
                Err(e) => {
                    return Err(e);
                },
            };
            statements.push(s);
        }
        Ok(Block::new(statements))
    }
}

} // verus!
