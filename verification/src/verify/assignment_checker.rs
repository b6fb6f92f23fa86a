//! Checks for redundant assignments (`x = x`).

use vstd::prelude::*;
use vstd::string::StringExecFns;

use crate::lex::scan::str_eq;
use crate::lex::token::Token;
use crate::parse::ast::Assignment;
use crate::parse::ast::Block;
use crate::parse::ast::Expression;
use crate::parse::ast::Statement;
use crate::verify::collector::ErrorCollector;
use crate::verify::collector::VerifyError;

verus! {

/// A redundant assignment: the right-hand side is a bare reference to the
/// very name being assigned.  A compound assignment is not redundant: it
/// was desugared to `x = x + y`, whose right-hand side is a binary
/// operation.
pub open spec fn is_redundant(a: Assignment) -> bool {
    *a.rvalue matches Expression::VariableRef(id) && id.token.text@ == a.lvalue.token.text@
}

/// The assigned-variable tokens of the redundant assignments an expression
/// contains, in walk order.
pub open spec fn redundant_in_expr(e: Expression) -> Seq<Token>
    decreases e, 0int,
{
    match e {
        Expression::Literal(_) => Seq::empty(),
        Expression::VariableRef(_) => Seq::empty(),
        Expression::UnaryOp(u) => redundant_in_expr(*u.expression),
        Expression::BinaryOp(b) => redundant_in_expr(*b.left) + redundant_in_expr(*b.right),
        Expression::Assignment(a) => (if is_redundant(a) {
            seq![a.lvalue.token]
        } else {
            Seq::empty()
        }) + redundant_in_expr(*a.rvalue),
    }
}

/// The redundant assignments a statement contains.
pub open spec fn redundant_in_stmt(s: Statement) -> Seq<Token>
    decreases s, 0int,
{
    match s {
        Statement::Expression(e) => redundant_in_expr(e),
        Statement::Return(r) => redundant_in_expr(*r.value),
        Statement::Declaration(d) => redundant_in_expr(*d.value),
        Statement::DoBlock(b) => redundant_in_block(b),
    }
}

/// The redundant assignments of a block's statements from position `i` on.
pub open spec fn redundant_in_stmts_from(ss: Seq<Statement>, i: int) -> Seq<Token>
    decreases ss, ss.len() - i,
{
    if 0 <= i < ss.len() {
        redundant_in_stmt(ss[i]) + redundant_in_stmts_from(ss, i + 1)
    } else {
        Seq::empty()
    }
}

/// The redundant assignments a block contains.
pub open spec fn redundant_in_block(b: Block) -> Seq<Token>
    decreases b, 0int,
{
    redundant_in_stmts_from(b.statements@, 0)
}

/// The message reported for a redundant assignment of the given variable.
pub open spec fn redundant_message(t: Token) -> Seq<char> {
    "Redundant assignment of "@ + t.text@ + " to itself"@
}

/// The newer error list extends the older one by exactly one diagnostic per
/// token of `toks`, in order: the k-th added diagnostic carries the k-th
/// token, no references, and the redundant-assignment message for it.
pub open spec fn reports_redundant(
    older: Seq<VerifyError>,
    newer: Seq<VerifyError>,
    toks: Seq<Token>,
) -> bool {
    &&& newer.len() == older.len() + toks.len()
    &&& (forall|j: int| 0 <= j < older.len() ==> newer[j] == older[j])
    &&& (forall|k: int|
        0 <= k < toks.len() ==> {
            &&& (#[trigger] newer[older.len() + k]).token == toks[k]
            &&& newer[older.len() + k].references@.len() == 0
            &&& newer[older.len() + k].text@ == redundant_message(toks[k])
        })
}

/// Two consecutive walks report the concatenation of their findings.
proof fn lemma_reports_concat(
    a: Seq<VerifyError>,
    b: Seq<VerifyError>,
    c: Seq<VerifyError>,
    t1: Seq<Token>,
    t2: Seq<Token>,
)
    requires
        reports_redundant(a, b, t1),
        reports_redundant(b, c, t2),
    ensures
        reports_redundant(a, c, t1 + t2),
{
    assert forall|k: int| 0 <= k < (t1 + t2).len() implies {
        &&& (#[trigger] c[a.len() + k]).token == (t1 + t2)[k]
        &&& c[a.len() + k].references@.len() == 0
        &&& c[a.len() + k].text@ == redundant_message((t1 + t2)[k])
    } by {
        if k < t1.len() {
            assert(c[a.len() + k] == b[a.len() + k]);
        } else {
            assert(c[a.len() + k] == c[b.len() + (k - t1.len())]);
        }
    }
}

/// Reports an error diagnostic for every redundant assignment; nothing is
/// fatal here, the walk continues past each finding.
#[derive(Debug)]
pub struct AssignmentChecker {}

impl AssignmentChecker {
    /// Law: walking a block reports exactly one error per redundant
    /// assignment in it, in walk order, carrying the assigned variable's
    /// token and the redundant-assignment message — none for `x = y`,
    /// `x = x + 1`, or the desugared `x += x` — and touches no other
    /// diagnostics.
    pub fn check_block(&mut self, errors: &mut ErrorCollector, block: &Block)
        ensures
            reports_redundant(
                old(errors).errors_spec(),
                final(errors).errors_spec(),
                redundant_in_block(*block),
            ),
            final(errors).warnings_spec() == old(errors).warnings_spec(),
        decreases *block, 1int, 0int,
    {
        self.check_stmts_from(errors, block, 0);
    }

    fn check_stmts_from(&mut self, errors: &mut ErrorCollector, block: &Block, i: usize)
        requires
            i <= block.statements@.len(),
        ensures
            reports_redundant(
                old(errors).errors_spec(),
                final(errors).errors_spec(),
                redundant_in_stmts_from(block.statements@, i as int),
            ),
            final(errors).warnings_spec() == old(errors).warnings_spec(),
        decreases *block, 0int, block.statements@.len() - i,
    {
        if i == block.statements.len() {
            return ;
        }
        let s = &block.statements[i];
        proof {
            assert(decreases_to!(block.statements => block.statements@));
            assert(decreases_to!(block.statements@ => block.statements@[i as int]));
            assert(decreases_to!(*block => *s));
        }
        let ghost before = errors.errors_spec();
        self.check_statement(errors, s);
        let ghost middle = errors.errors_spec();
        self.check_stmts_from(errors, block, i + 1);
        proof {
            lemma_reports_concat(
                before,
                middle,
                errors.errors_spec(),
                redundant_in_stmt(block.statements@[i as int]),
                redundant_in_stmts_from(block.statements@, i + 1),
            );
        }
    }

    /// Walks one statement.
    pub fn check_statement(&mut self, errors: &mut ErrorCollector, s: &Statement)
        ensures
            reports_redundant(
                old(errors).errors_spec(),
                final(errors).errors_spec(),
                redundant_in_stmt(*s),
            ),
            final(errors).warnings_spec() == old(errors).warnings_spec(),
        decreases *s, 2int, 0int,
    {
        match s {
            Statement::Expression(e) => self.check_expression(errors, e),
            Statement::Return(r) => self.check_expression(errors, &r.value),
            Statement::Declaration(d) => self.check_expression(errors, &d.value),
            Statement::DoBlock(b) => self.check_block(errors, b),
        }
    }

    /// Walks one expression.
    pub fn check_expression(&mut self, errors: &mut ErrorCollector, e: &Expression)
        ensures
            reports_redundant(
                old(errors).errors_spec(),
                final(errors).errors_spec(),
                redundant_in_expr(*e),
            ),
            final(errors).warnings_spec() == old(errors).warnings_spec(),
        decreases *e, 1int, 0int,
    {
        match e {
            Expression::Literal(_) => {},
            Expression::VariableRef(_) => {},
            Expression::UnaryOp(u) => self.check_expression(errors, &u.expression),
            Expression::BinaryOp(b) => {
                let ghost before = errors.errors_spec();
                self.check_expression(errors, &b.left);
                let ghost middle = errors.errors_spec();
                self.check_expression(errors, &b.right);
                proof {
                    lemma_reports_concat(
                        before,
                        middle,
                        errors.errors_spec(),
                        redundant_in_expr(*b.left),
                        redundant_in_expr(*b.right),
                    );
                }
            },
            Expression::Assignment(a) => {
                let ghost before = errors.errors_spec();
                self.check_assignment(errors, a);
                let ghost middle = errors.errors_spec();
                self.check_expression(errors, &a.rvalue);
                proof {
                    lemma_reports_concat(
                        before,
                        middle,
                        errors.errors_spec(),
                        if is_redundant(*a) {
                            seq![a.lvalue.token]
                        } else {
                            Seq::empty()
                        },
                        redundant_in_expr(*a.rvalue),
                    );
                }
            },
        }
    }

    /// Flags `x = x` — a bare reference to the assigned name on the
    /// right-hand side — as a redundant assignment.
    pub fn check_assignment(&mut self, errors: &mut ErrorCollector, assign: &Assignment)
        ensures
            reports_redundant(
                old(errors).errors_spec(),
                final(errors).errors_spec(),
                if is_redundant(*assign) {
                    seq![assign.lvalue.token]
                } else {
                    Seq::<Token>::empty()
                },
            ),
            final(errors).warnings_spec() == old(errors).warnings_spec(),
    {
        let var_name = assign.lvalue.get_name();
        let flag = match &*assign.rvalue {
            Expression::VariableRef(r_var) => str_eq(var_name, r_var.get_name()),
            _ => false,
        };
        if flag {
            let mut text = "Redundant assignment of ".to_owned();
            text.append(var_name);
            text.append(" to itself");
            errors.add_error(
                VerifyError::new(assign.lvalue.token.duplicate(), Vec::new(), text),
            );
        }
    }
}

} // verus!
