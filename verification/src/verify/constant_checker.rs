//! Collects literal constant expressions for later constant folding and
//! code generation.

use vstd::prelude::*;

use crate::lex::token::Token;
use crate::parse::ast::Block;
use crate::parse::ast::Expression;
use crate::parse::ast::Statement;

verus! {

/// The tokens of all number literals in a block, in walk order.
pub open spec fn literals_in_block(b: Block) -> Seq<Token>
    decreases b, 0int,
{
    literals_in_stmts_from(b.statements@, 0)
}

pub open spec fn literals_in_stmts_from(ss: Seq<Statement>, i: int) -> Seq<Token>
    decreases ss, ss.len() - i,
{
    if 0 <= i < ss.len() {
        literals_in_stmt(ss[i]) + literals_in_stmts_from(ss, i + 1)
    } else {
        Seq::empty()
    }
}

pub open spec fn literals_in_stmt(s: Statement) -> Seq<Token>
    decreases s, 0int,
{
    match s {
        Statement::Expression(e) => literals_in_expr(e),
        Statement::Return(r) => literals_in_expr(*r.value),
        Statement::Declaration(d) => literals_in_expr(*d.value),
        Statement::DoBlock(b) => literals_in_block(b),
    }
}

pub open spec fn literals_in_expr(e: Expression) -> Seq<Token>
    decreases e, 0int,
{
    match e {
        Expression::Literal(l) => seq![l.token],
        Expression::VariableRef(_) => Seq::empty(),
        Expression::UnaryOp(u) => literals_in_expr(*u.expression),
        Expression::BinaryOp(b) => literals_in_expr(*b.left) + literals_in_expr(*b.right),
        Expression::Assignment(a) => literals_in_expr(*a.rvalue),
    }
}

/// Collects every literal constant of the walked AST.
#[derive(Debug)]
pub struct ConstantAssembler {
    constants: Vec<Token>,
}

impl ConstantAssembler {
    pub closed spec fn constants_spec(&self) -> Seq<Token> {
        self.constants@
    }

    /// An assembler with nothing collected yet.
    pub fn new() -> (r: ConstantAssembler)
        ensures
            r.constants_spec() =~= Seq::<Token>::empty(),
    {
        ConstantAssembler { constants: Vec::new() }
    }

    /// The literal tokens collected so far, in walk order.
    pub fn get_constants(&self) -> (r: &Vec<Token>)
        ensures
            r@ == self.constants_spec(),
    {
        &self.constants
    }

    /// Law: walking a block appends exactly the block's literal tokens, in
    /// walk order.
    pub fn check_block(&mut self, errors: &mut crate::verify::collector::ErrorCollector, block:
        &Block)
        ensures
            final(self).constants_spec() =~= old(self).constants_spec() + literals_in_block(
                *block,
            ),
            *final(errors) == *old(errors),
        decreases *block, 1int, 0int,
    {
        self.check_stmts_from(block, 0);
    }

    fn check_stmts_from(&mut self, b: &Block, i: usize)
        requires
            i <= b.statements@.len(),
        ensures
            final(self).constants_spec() =~= old(self).constants_spec() + literals_in_stmts_from(
                b.statements@,
                i as int,
            ),
        decreases *b, 0int, b.statements@.len() - i,
    {
        if i == b.statements.len() {
            return ;
        }
        let s = &b.statements[i];
        proof {
            assert(decreases_to!(b.statements => b.statements@));
            assert(decreases_to!(b.statements@ => b.statements@[i as int]));
            assert(decreases_to!(*b => *s));
        }
        self.check_statement_inner(s);
        self.check_stmts_from(b, i + 1);
    }

    fn check_statement_inner(&mut self, s: &Statement)
        ensures
            final(self).constants_spec() =~= old(self).constants_spec() + literals_in_stmt(*s),
        decreases *s, 2int, 0int,
    {
        match s {
            Statement::Expression(e) => self.check_expression_inner(e),
            Statement::Return(r) => self.check_expression_inner(&r.value),
            Statement::Declaration(d) => self.check_expression_inner(&d.value),
            Statement::DoBlock(b) => {
                self.check_stmts_from(b, 0);
            },
        }
    }

    fn check_expression_inner(&mut self, e: &Expression)
        ensures
            final(self).constants_spec() =~= old(self).constants_spec() + literals_in_expr(*e),
        decreases *e, 1int, 0int,
    {
        match e {
            Expression::Literal(l) => {
                self.constants.push(l.token.duplicate());
            },
            Expression::VariableRef(_) => {},
            Expression::UnaryOp(u) => self.check_expression_inner(&u.expression),
            Expression::BinaryOp(b) => {
                self.check_expression_inner(&b.left);
                self.check_expression_inner(&b.right);
            },
            Expression::Assignment(a) => self.check_expression_inner(&a.rvalue),
        }
    }
}

} // verus!
