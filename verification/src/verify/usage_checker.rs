//! Flags declared names that are never referenced afterwards.

use vstd::prelude::*;
use vstd::string::StringExecFns;

use crate::lex::scan::str_eq;
use crate::lex::token::Token;
use crate::parse::ast::Block;
use crate::parse::ast::Expression;
use crate::parse::ast::Statement;
use crate::verify::collector::ErrorCollector;
use crate::verify::collector::VerifyError;

verus! {

/// The tokens of all declared names in a block, in declaration order.
pub open spec fn decls_in_block(b: Block) -> Seq<Token>
    decreases b, 0int,
{
    decls_in_stmts_from(b.statements@, 0)
}

pub open spec fn decls_in_stmts_from(ss: Seq<Statement>, i: int) -> Seq<Token>
    decreases ss, ss.len() - i,
{
    if 0 <= i < ss.len() {
        decls_in_stmt(ss[i]) + decls_in_stmts_from(ss, i + 1)
    } else {
        Seq::empty()
    }
}

pub open spec fn decls_in_stmt(s: Statement) -> Seq<Token>
    decreases s, 0int,
{
    match s {
        Statement::Expression(_) => Seq::empty(),
        Statement::Return(_) => Seq::empty(),
        Statement::Declaration(d) => seq![d.ident.token],
        Statement::DoBlock(b) => decls_in_block(b),
    }
}

/// The names referenced anywhere in a block: variable references and
/// assignment targets both count as a use of the name.
pub open spec fn uses_in_block(b: Block) -> Seq<Seq<char>>
    decreases b, 0int,
{
    uses_in_stmts_from(b.statements@, 0)
}

pub open spec fn uses_in_stmts_from(ss: Seq<Statement>, i: int) -> Seq<Seq<char>>
    decreases ss, ss.len() - i,
{
    if 0 <= i < ss.len() {
        uses_in_stmt(ss[i]) + uses_in_stmts_from(ss, i + 1)
    } else {
        Seq::empty()
    }
}

pub open spec fn uses_in_stmt(s: Statement) -> Seq<Seq<char>>
    decreases s, 0int,
{
    match s {
        Statement::Expression(e) => uses_in_expr(e),
        Statement::Return(r) => uses_in_expr(*r.value),
        Statement::Declaration(d) => uses_in_expr(*d.value),
        Statement::DoBlock(b) => uses_in_block(b),
    }
}

pub open spec fn uses_in_expr(e: Expression) -> Seq<Seq<char>>
    decreases e, 0int,
{
    match e {
        Expression::Literal(_) => Seq::empty(),
        Expression::VariableRef(id) => seq![id.token.text@],
        Expression::UnaryOp(u) => uses_in_expr(*u.expression),
        Expression::BinaryOp(b) => uses_in_expr(*b.left) + uses_in_expr(*b.right),
        Expression::Assignment(a) => seq![a.lvalue.token.text@] + uses_in_expr(*a.rvalue),
    }
}

/// Whether `name` occurs among the used names.
pub open spec fn names_contain(used: Seq<Seq<char>>, name: Seq<char>) -> bool {
    exists|i: int| 0 <= i < used.len() && used[i] == name
}

/// The tokens, among the declarations up to position `i`, of names that
/// are never used, in declaration order.
pub open spec fn unused_tokens(decls: Seq<Token>, used: Seq<Seq<char>>, i: int) -> Seq<Token>
    decreases i,
{
    if 0 < i <= decls.len() {
        unused_tokens(decls, used, i - 1) + if names_contain(used, decls[i - 1].text@) {
            Seq::empty()
        } else {
            seq![decls[i - 1]]
        }
    } else {
        Seq::empty()
    }
}

/// The message reported for a never-used declaration.
pub open spec fn unused_message(t: Token) -> Seq<char> {
    "Variable "@ + t.text@ + " is never used"@
}

/// Flags declared names that are never referenced, as warnings.
#[derive(Debug)]
pub struct UsageChecker {}

impl UsageChecker {
    /// Law: walking a block adds exactly one warning per declaration whose
    /// name is referenced nowhere in the block, in declaration order, each
    /// carrying the declared identifier's token and the never-used message,
    /// and touches no errors.
    pub fn check_block(&mut self, errors: &mut ErrorCollector, block: &Block)
        ensures
            final(errors).warnings_spec().len() == old(errors).warnings_spec().len()
                + unused_tokens(
                decls_in_block(*block),
                uses_in_block(*block),
                decls_in_block(*block).len() as int,
            ).len(),
            forall|k: int|
                0 <= k < unused_tokens(
                    decls_in_block(*block),
                    uses_in_block(*block),
                    decls_in_block(*block).len() as int,
                ).len() ==> {
                    let toks = unused_tokens(
                        decls_in_block(*block),
                        uses_in_block(*block),
                        decls_in_block(*block).len() as int,
                    );
                    &&& (#[trigger] final(errors).warnings_spec()[old(
                        errors,
                    ).warnings_spec().len() + k]).token == toks[k]
                    &&& final(errors).warnings_spec()[old(errors).warnings_spec().len()
                        + k].references@.len() == 0
                    &&& final(errors).warnings_spec()[old(errors).warnings_spec().len()
                        + k].text@ == unused_message(toks[k])
                },
            forall|j: int|
                0 <= j < old(errors).warnings_spec().len() ==> final(errors).warnings_spec()[j]
                    == old(errors).warnings_spec()[j],
            final(errors).errors_spec() == old(errors).errors_spec(),
    {
        let mut decls: Vec<Token> = Vec::new();
        let mut used: Vec<String> = Vec::new();
        collect_decls_block(&mut decls, block);
        collect_uses_block(&mut used, block);
        let ghost dseq = decls_in_block(*block);
        let ghost useq = uses_in_block(*block);
        let n = decls.len();
        let mut i: usize = 0;
        while i < n
            invariant
                n == decls@.len(),
                i <= n,
                decls@ == dseq,
                used@.len() == useq.len(),
                forall|k: int| 0 <= k < useq.len() ==> #[trigger] used@[k]@ == useq[k],
                errors.warnings_spec().len() == old(errors).warnings_spec().len()
                    + unused_tokens(dseq, useq, i as int).len(),
                forall|k: int|
                    0 <= k < unused_tokens(dseq, useq, i as int).len() ==> {
                        &&& (#[trigger] errors.warnings_spec()[old(
                            errors,
                        ).warnings_spec().len() + k]).token == unused_tokens(
                            dseq,
                            useq,
                            i as int,
                        )[k]
                        &&& errors.warnings_spec()[old(errors).warnings_spec().len()
                            + k].references@.len() == 0
                        &&& errors.warnings_spec()[old(errors).warnings_spec().len()
                            + k].text@ == unused_message(unused_tokens(dseq, useq, i as int)[k])
                    },
                forall|j: int|
                    0 <= j < old(errors).warnings_spec().len() ==> errors.warnings_spec()[j]
                        == old(errors).warnings_spec()[j],
                errors.errors_spec() == old(errors).errors_spec(),
            decreases n - i,
        {
            let name = decls[i].text.as_str();
            let found = contains_name(&used, name);
            proof {
                let target = dseq[i as int].text@;
                if found {
                    let k = choose|k: int| 0 <= k < used@.len() && #[trigger] used@[k]@ == target;
                    assert(useq[k] == target);
                    assert(names_contain(useq, target));
                } else if names_contain(useq, target) {
                    let k = choose|k: int| 0 <= k < useq.len() && useq[k] == target;
                    assert(used@[k]@ == target);
                }
                assert(found == names_contain(useq, target));
            }
            if !found {
                let mut text = "Variable ".to_owned();
                text.append(name);
                text.append(" is never used");
                errors.add_warning(VerifyError::new(decls[i].duplicate(), Vec::new(), text));
            }
            i += 1;
        }
    }
}

/// Whether one of the collected used names equals `name`.
fn contains_name(used: &Vec<String>, name: &str) -> (r: bool)
    ensures
        r == (exists|i: int| 0 <= i < used@.len() && #[trigger] used@[i]@ == name@),
{
    let n = used.len();
    let mut i: usize = 0;
    while i < n
        invariant
            n == used@.len(),
            i <= n,
            forall|k: int| 0 <= k < i ==> #[trigger] used@[k]@ != name@,
        decreases n - i,
    {
        if str_eq(used[i].as_str(), name) {
            return true;
        }
        i += 1;
    }
    false
}

fn collect_decls_block(out: &mut Vec<Token>, b: &Block)
    ensures
        final(out)@ =~= old(out)@ + decls_in_block(*b),
    decreases *b, 1int, 0int,
{
    collect_decls_stmts_from(out, b, 0);
}

fn collect_decls_stmts_from(out: &mut Vec<Token>, b: &Block, i: usize)
    requires
        i <= b.statements@.len(),
    ensures
        final(out)@ =~= old(out)@ + decls_in_stmts_from(b.statements@, i as int),
    decreases *b, 0int, b.statements@.len() - i,
{
    if i == b.statements.len() {
        return ;
    }
    let s = &b.statements[i];
    proof {
        assert(decreases_to!(b.statements => b.statements@));
        assert(decreases_to!(b.statements@ => b.statements@[i as int]));
        assert(decreases_to!(*b => *s));
    }
    collect_decls_stmt(out, s);
    collect_decls_stmts_from(out, b, i + 1);
}

fn collect_decls_stmt(out: &mut Vec<Token>, s: &Statement)
    ensures
        final(out)@ =~= old(out)@ + decls_in_stmt(*s),
    decreases *s, 2int, 0int,
{
    match s {
        Statement::Expression(_) => {},
        Statement::Return(_) => {},
        Statement::Declaration(d) => {
            out.push(d.ident.token.duplicate());
        },
        Statement::DoBlock(b) => collect_decls_block(out, b),
    }
}

fn collect_uses_block(out: &mut Vec<String>, b: &Block)
    ensures
        final(out)@.len() == old(out)@.len() + uses_in_block(*b).len(),
        forall|k: int|
            0 <= k < old(out)@.len() ==> final(out)@[k] == old(out)@[k],
        forall|k: int|
            old(out)@.len() <= k < final(out)@.len() ==> #[trigger] final(out)@[k]@
                == uses_in_block(*b)[k - old(out)@.len()],
    decreases *b, 1int, 0int,
{
    collect_uses_stmts_from(out, b, 0);
}

fn collect_uses_stmts_from(out: &mut Vec<String>, b: &Block, i: usize)
    requires
        i <= b.statements@.len(),
    ensures
        final(out)@.len() == old(out)@.len() + uses_in_stmts_from(b.statements@, i as int).len(),
        forall|k: int|
            0 <= k < old(out)@.len() ==> final(out)@[k] == old(out)@[k],
        forall|k: int|
            old(out)@.len() <= k < final(out)@.len() ==> #[trigger] final(out)@[k]@
                == uses_in_stmts_from(b.statements@, i as int)[k - old(out)@.len()],
    decreases *b, 0int, b.statements@.len() - i,
{
    if i == b.statements.len() {
        return ;
    }
    let s = &b.statements[i];
    proof {
        assert(decreases_to!(b.statements => b.statements@));
        assert(decreases_to!(b.statements@ => b.statements@[i as int]));
        assert(decreases_to!(*b => *s));
    }
    collect_uses_stmt(out, s);
    collect_uses_stmts_from(out, b, i + 1);
}

fn collect_uses_stmt(out: &mut Vec<String>, s: &Statement)
    ensures
        final(out)@.len() == old(out)@.len() + uses_in_stmt(*s).len(),
        forall|k: int|
            0 <= k < old(out)@.len() ==> final(out)@[k] == old(out)@[k],
        forall|k: int|
            old(out)@.len() <= k < final(out)@.len() ==> #[trigger] final(out)@[k]@
                == uses_in_stmt(*s)[k - old(out)@.len()],
    decreases *s, 2int, 0int,
{
    match s {
        Statement::Expression(e) => collect_uses_expr(out, e),
        Statement::Return(r) => collect_uses_expr(out, &r.value),
        Statement::Declaration(d) => collect_uses_expr(out, &d.value),
        Statement::DoBlock(b) => collect_uses_block(out, b),
    }
}

fn collect_uses_expr(out: &mut Vec<String>, e: &Expression)
    ensures
        final(out)@.len() == old(out)@.len() + uses_in_expr(*e).len(),
        forall|k: int|
            0 <= k < old(out)@.len() ==> final(out)@[k] == old(out)@[k],
        forall|k: int|
            old(out)@.len() <= k < final(out)@.len() ==> #[trigger] final(out)@[k]@
                == uses_in_expr(*e)[k - old(out)@.len()],
    decreases *e, 1int, 0int,
{
    match e {
        Expression::Literal(_) => {},
        Expression::VariableRef(id) => {
            out.push(id.token.text.clone());
        },
        Expression::UnaryOp(u) => collect_uses_expr(out, &u.expression),
        Expression::BinaryOp(b) => {
            collect_uses_expr(out, &b.left);
            collect_uses_expr(out, &b.right);
        },
        Expression::Assignment(a) => {
            out.push(a.lvalue.token.text.clone());
            collect_uses_expr(out, &a.rvalue);
        },
    }
}

} // verus!
