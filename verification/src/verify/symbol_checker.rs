//! The symbol-table checker: the verification walk that assigns each
//! declaration its structural scope index, resolves every variable
//! reference innermost-to-outermost, builds the symbol table, and reports
//! unresolved names.
//!
//! The walk keeps one current `ScopeIndex`.  Entering a block appends a
//! zero counter; each declaration is recorded at the current index, which
//! is then incremented for the next sibling; leaving a block removes the
//! counter and increments the parent's, so sibling blocks get distinct
//! prefixes.  This discipline makes every recorded index fresh, which is
//! proved here: the symbol table's keys stay distinct, and the scope
//! stack's depth always equals the block-nesting depth.

use vstd::prelude::*;
use vstd::string::StringExecFns;

use crate::parse::ast::Assignment;
use crate::parse::ast::Block;
use crate::parse::ast::Declaration;
use crate::parse::ast::Expression;
use crate::parse::ast::Identifier;
use crate::parse::ast::Return;
use crate::parse::ast::Statement;
use crate::parse::types::Type;
use crate::verify::collector::ErrorCollector;
use crate::verify::collector::VerifyError;
use crate::verify::scope::stack_lookup;
use crate::verify::scope::table_has_key;
use crate::verify::scope::table_wf;
use crate::verify::scope::ScopeIndex;
use crate::verify::scope::Symbol;
use crate::verify::scope::SymbolTable;
use crate::verify::scope::SymbolTableBuilder;
use crate::verify::usage_checker::decls_in_block;
use crate::verify::usage_checker::decls_in_stmt;
use crate::verify::usage_checker::decls_in_stmts_from;

verus! {

/// The first `k` counters of `r` and `c` agree.
pub open spec fn seq_eq_upto(r: Seq<usize>, c: Seq<usize>, k: int) -> bool {
    forall|j: int| 0 <= j < k ==> r[j] == c[j]
}

/// Whether the walk, standing at current index `c`, could still assign the
/// index `r` to a later declaration: `r` is `c` itself, extends `c`, or
/// passes `c` at some counter.
pub open spec fn reachable_from(c: Seq<usize>, r: Seq<usize>) -> bool {
    ||| (r.len() >= c.len() && seq_eq_upto(r, c, c.len() as int))
    ||| (exists|k: int|
        0 <= k < c.len() && k < r.len() && seq_eq_upto(r, c, k) && r[k] > c[k])
}

/// No key of the table can still be assigned by a walk standing at `c`:
/// the central freshness invariant of the verification walk.
pub open spec fn no_reachable_keys(
    t: Seq<(Seq<usize>, crate::verify::scope::Symbol)>,
    c: Seq<usize>,
) -> bool {
    forall|i: int| 0 <= i < t.len() ==> !reachable_from(c, #[trigger] t[i].0)
}

/// Incrementing the last counter only shrinks what is reachable.
proof fn lemma_reachable_incr(c: Seq<usize>, c2: Seq<usize>, r: Seq<usize>)
    requires
        c.len() > 0,
        c2.len() == c.len(),
        seq_eq_upto(c2, c, c.len() - 1),
        c2[c.len() - 1] > c[c.len() - 1],
        reachable_from(c2, r),
    ensures
        reachable_from(c, r),
{
    let last = c.len() - 1;
    if r.len() >= c2.len() && seq_eq_upto(r, c2, c2.len() as int) {
        assert(seq_eq_upto(r, c, last));
        assert(r[last] == c2[last]);
        assert(0 <= last < c.len() && last < r.len() && seq_eq_upto(r, c, last) && r[last] > c[
            last]);
    } else {
        let k = choose|k: int|
            0 <= k < c2.len() && k < r.len() && seq_eq_upto(r, c2, k) && r[k] > c2[k];
        if k < last {
            assert(seq_eq_upto(r, c, k));
            assert(r[k] > c[k]);
        } else {
            assert(k == last);
            assert(seq_eq_upto(r, c, k));
            assert(r[k] > c2[k] > c[k]);
        }
    }
}

/// Entering a nested scope only shrinks what is reachable.
proof fn lemma_reachable_push(c: Seq<usize>, r: Seq<usize>)
    requires
        reachable_from(c.push(0), r),
    ensures
        reachable_from(c, r),
{
    let c2 = c.push(0);
    if r.len() >= c2.len() && seq_eq_upto(r, c2, c2.len() as int) {
        assert(seq_eq_upto(r, c, c.len() as int));
    } else {
        let k = choose|k: int|
            0 <= k < c2.len() && k < r.len() && seq_eq_upto(r, c2, k) && r[k] > c2[k];
        if k < c.len() {
            assert(seq_eq_upto(r, c, k));
            assert(r[k] > c[k]);
        } else {
            assert(k == c.len());
            assert(seq_eq_upto(r, c, c.len() as int));
        }
    }
}

/// Leaving a nested scope — removing the last counter and incrementing the
/// parent's — only shrinks what is reachable.
proof fn lemma_reachable_exit(c: Seq<usize>, d2: Seq<usize>, r: Seq<usize>)
    requires
        c.len() >= 2,
        d2.len() == c.len() - 1,
        seq_eq_upto(d2, c, c.len() - 2),
        d2[c.len() - 2] > c[c.len() - 2],
        reachable_from(d2, r),
    ensures
        reachable_from(c, r),
{
    let k0 = c.len() - 2;
    if r.len() >= d2.len() && seq_eq_upto(r, d2, d2.len() as int) {
        assert(seq_eq_upto(r, c, k0));
        assert(r[k0] == d2[k0]);
        assert(0 <= k0 < c.len() && k0 < r.len() && r[k0] > c[k0]);
    } else {
        let k = choose|k: int|
            0 <= k < d2.len() && k < r.len() && seq_eq_upto(r, d2, k) && r[k] > d2[k];
        if k < k0 {
            assert(seq_eq_upto(r, c, k));
            assert(r[k] > c[k]);
        } else {
            assert(k == k0);
            assert(seq_eq_upto(r, c, k));
            assert(r[k] > d2[k] > c[k]);
        }
    }
}

/// The current index itself is always reachable, so under the freshness
/// invariant it is not yet a key of the table.
proof fn lemma_current_fresh(t: Seq<(Seq<usize>, Symbol)>, c: Seq<usize>)
    requires
        no_reachable_keys(t, c),
    ensures
        !table_has_key(t, c),
{
    assert forall|i: int| 0 <= i < t.len() implies t[i].0 != c by {
        if t[i].0 == c {
            assert(seq_eq_upto(t[i].0, c, c.len() as int));
            assert(reachable_from(c, t[i].0));
        }
    }
}

/// The index just recorded is not reachable once the last counter has been
/// incremented.
proof fn lemma_recorded_not_reachable(c: Seq<usize>, c2: Seq<usize>)
    requires
        c.len() > 0,
        c2.len() == c.len(),
        seq_eq_upto(c2, c, c.len() - 1),
        c2[c.len() - 1] > c[c.len() - 1],
    ensures
        !reachable_from(c2, c),
{
    let last = c.len() - 1;
    if reachable_from(c2, c) {
        if c.len() >= c2.len() && seq_eq_upto(c, c2, c2.len() as int) {
            assert(c[last] == c2[last]);
        } else {
            let k = choose|k: int|
                0 <= k < c2.len() && k < c.len() && seq_eq_upto(c, c2, k) && c[k] > c2[k];
            if k < last {
                assert(c[k] == c2[k]);
            } else {
                assert(c[k] > c2[k] > c[k]);
            }
        }
    }
}

/// How many variable references of `e` find no binding in the given scope
/// stack: each one becomes exactly one unresolved-name diagnostic.
pub open spec fn unresolved_in_expr(
    e: Expression,
    scopes: Seq<Seq<(Seq<char>, Seq<usize>)>>,
) -> nat
    decreases e,
{
    match e {
        Expression::Literal(_) => 0,
        Expression::VariableRef(id) => if stack_lookup(scopes, id.token.text@) is None {
            1nat
        } else {
            0nat
        },
        Expression::UnaryOp(u) => unresolved_in_expr(*u.expression, scopes),
        Expression::BinaryOp(b) => unresolved_in_expr(*b.left, scopes) + unresolved_in_expr(
            *b.right,
            scopes,
        ),
        Expression::Assignment(a) => (if stack_lookup(scopes, a.lvalue.token.text@) is None {
            1nat
        } else {
            0nat
        }) + unresolved_in_expr(*a.rvalue, scopes),
    }
}

/// What resolving one identifier against a scope stack produces: the token
/// is kept; a found binding's index is written in, and an unresolved name
/// keeps its old index.
pub open spec fn resolves_ident(
    input: Identifier,
    output: Identifier,
    scopes: Seq<Seq<(Seq<char>, Seq<usize>)>>,
) -> bool {
    &&& output.token == input.token
    &&& (stack_lookup(scopes, input.token.text@) matches Some(p) ==> output.index@ == p)
    &&& (stack_lookup(scopes, input.token.text@) is None ==> output == input)
}

/// What resolving an expression against a scope stack produces: the same
/// tree, with every variable reference and assignment target resolved.
pub open spec fn resolves_expr(
    input: Expression,
    output: Expression,
    scopes: Seq<Seq<(Seq<char>, Seq<usize>)>>,
) -> bool
    decreases input,
{
    match input {
        Expression::Literal(l) => output == Expression::Literal(l),
        Expression::VariableRef(id) => {
            &&& output matches Expression::VariableRef(id2)
            &&& resolves_ident(id, id2, scopes)
        },
        Expression::UnaryOp(u) => {
            &&& output matches Expression::UnaryOp(u2)
            &&& u2.operator == u.operator
            &&& u2.token == u.token
            &&& resolves_expr(*u.expression, *u2.expression, scopes)
        },
        Expression::BinaryOp(b) => {
            &&& output matches Expression::BinaryOp(b2)
            &&& b2.operator == b.operator
            &&& b2.token == b.token
            &&& resolves_expr(*b.left, *b2.left, scopes)
            &&& resolves_expr(*b.right, *b2.right, scopes)
        },
        Expression::Assignment(a) => {
            &&& output matches Expression::Assignment(a2)
            &&& resolves_ident(a.lvalue, a2.lvalue, scopes)
            &&& resolves_expr(*a.rvalue, *a2.rvalue, scopes)
        },
    }
}

/// What walking one statement produces: the same statement, its
/// expressions resolved against the scope stack as it stood when the
/// statement was reached, and a declaration's identifier carrying the
/// walk's index at that point.
pub open spec fn resolves_stmt(
    input: Statement,
    output: Statement,
    scopes: Seq<Seq<(Seq<char>, Seq<usize>)>>,
    path: Seq<usize>,
) -> bool
    decreases input, 0int,
{
    match input {
        Statement::Expression(e) => {
            &&& output matches Statement::Expression(e2)
            &&& resolves_expr(e, e2, scopes)
        },
        Statement::Return(ret) => {
            &&& output matches Statement::Return(r2)
            &&& r2.token == ret.token
            &&& resolves_expr(*ret.value, *r2.value, scopes)
        },
        Statement::Declaration(d) => {
            &&& output matches Statement::Declaration(d2)
            &&& d2.mutable == d.mutable
            &&& d2.ident.token == d.ident.token
            &&& d2.ident.index@ == path
            &&& resolves_expr(*d.value, *d2.value, scopes)
        },
        Statement::DoBlock(b) => {
            &&& output matches Statement::DoBlock(b2)
            &&& resolves_block(b, b2, scopes, path)
        },
    }
}

/// What walking the statements from position `i` on produces, threading the
/// scope stack and the walk's index from statement to statement.
pub open spec fn resolves_stmts_from(
    ss_in: Seq<Statement>,
    ss_out: Seq<Statement>,
    i: int,
    scopes: Seq<Seq<(Seq<char>, Seq<usize>)>>,
    path: Seq<usize>,
) -> bool
    decreases ss_in, ss_in.len() - i,
{
    if 0 <= i < ss_in.len() {
        &&& ss_out.len() == ss_in.len()
        &&& resolves_stmt(ss_in[i], ss_out[i], scopes, path)
        &&& resolves_stmts_from(
            ss_in,
            ss_out,
            i + 1,
            scopes_after_stmt(ss_in[i], scopes, path),
            path_after_stmt(ss_in[i], path),
        )
    } else {
        ss_out.len() == ss_in.len()
    }
}

/// What walking a whole block produces: its entry context is recorded as
/// the block's partial index, and its statements are walked one level
/// deeper under a fresh innermost scope.
pub open spec fn resolves_block(
    input: Block,
    output: Block,
    scopes: Seq<Seq<(Seq<char>, Seq<usize>)>>,
    path: Seq<usize>,
) -> bool
    decreases input, 0int,
{
    &&& output.partial_index@ == path.push(0)
    &&& resolves_stmts_from(
        input.statements@,
        output.statements@,
        0,
        scopes.push(Seq::empty()),
        path.push(0),
    )
}

/// Walking the statements from position `i` on is walking the remaining
/// statements from their start, for the produced statements too.
proof fn lemma_resolves_from_shift(
    ss_in: Seq<Statement>,
    ss_out: Seq<Statement>,
    i: int,
    scopes: Seq<Seq<(Seq<char>, Seq<usize>)>>,
    path: Seq<usize>,
)
    requires
        0 <= i <= ss_in.len(),
        ss_out.len() == ss_in.len(),
    ensures
        resolves_stmts_from(ss_in, ss_out, i, scopes, path) == resolves_stmts_from(
            ss_in.subrange(i, ss_in.len() as int),
            ss_out.subrange(i, ss_out.len() as int),
            0,
            scopes,
            path,
        ),
    decreases ss_in.len() - i,
{
    let sub_in = ss_in.subrange(i, ss_in.len() as int);
    let sub_out = ss_out.subrange(i, ss_out.len() as int);
    if i < ss_in.len() {
        lemma_resolves_from_shift(
            sub_in,
            sub_out,
            1,
            scopes_after_stmt(ss_in[i], scopes, path),
            path_after_stmt(ss_in[i], path),
        );
        assert(sub_in.subrange(1, sub_in.len() as int) =~= ss_in.subrange(
            i + 1,
            ss_in.len() as int,
        ));
        assert(sub_out.subrange(1, sub_out.len() as int) =~= ss_out.subrange(
            i + 1,
            ss_out.len() as int,
        ));
        lemma_resolves_from_shift(
            ss_in,
            ss_out,
            i + 1,
            scopes_after_stmt(ss_in[i], scopes, path),
            path_after_stmt(ss_in[i], path),
        );
        assert(sub_in[0] == ss_in[i] && sub_out[0] == ss_out[i]);
    } else {
        assert(sub_in.len() == 0);
    }
}

/// The scope stack after walking one statement: only a declaration changes
/// it, by binding its name to the walk's index in the innermost scope.
pub open spec fn scopes_after_stmt(
    s: Statement,
    scopes: Seq<Seq<(Seq<char>, Seq<usize>)>>,
    path: Seq<usize>,
) -> Seq<Seq<(Seq<char>, Seq<usize>)>> {
    match s {
        Statement::Declaration(d) => scopes.update(
            scopes.len() - 1,
            scopes.last().push((d.ident.token.text@, path)),
        ),
        _ => scopes,
    }
}

/// The walk's index after one statement: declarations and nested blocks
/// advance the innermost counter, the other statements leave it alone.
pub open spec fn path_after_stmt(s: Statement, path: Seq<usize>) -> Seq<usize> {
    match s {
        Statement::Expression(_) => path,
        Statement::Return(_) => path,
        _ => path.update(path.len() - 1, (path.last() + 1) as usize),
    }
}

/// How many unresolved-name diagnostics walking one statement reports, with
/// the scope stack as it stands when the statement is reached.
pub open spec fn unresolved_in_stmt(
    s: Statement,
    scopes: Seq<Seq<(Seq<char>, Seq<usize>)>>,
    path: Seq<usize>,
) -> nat
    decreases s, 0int,
{
    match s {
        Statement::Expression(e) => unresolved_in_expr(e, scopes),
        Statement::Return(r) => unresolved_in_expr(*r.value, scopes),
        Statement::Declaration(d) => unresolved_in_expr(*d.value, scopes),
        Statement::DoBlock(b) => unresolved_in_block(b, scopes, path),
    }
}

/// How many unresolved-name diagnostics walking the statements from
/// position `i` on reports, threading the scope stack and the walk's index
/// from statement to statement.
pub open spec fn unresolved_in_stmts_from(
    ss: Seq<Statement>,
    i: int,
    scopes: Seq<Seq<(Seq<char>, Seq<usize>)>>,
    path: Seq<usize>,
) -> nat
    decreases ss, ss.len() - i,
{
    if 0 <= i < ss.len() {
        unresolved_in_stmt(ss[i], scopes, path) + unresolved_in_stmts_from(
            ss,
            i + 1,
            scopes_after_stmt(ss[i], scopes, path),
            path_after_stmt(ss[i], path),
        )
    } else {
        0
    }
}

/// How many unresolved-name diagnostics walking a whole block reports: its
/// statements are walked under a fresh innermost scope, one level deeper.
pub open spec fn unresolved_in_block(
    b: Block,
    scopes: Seq<Seq<(Seq<char>, Seq<usize>)>>,
    path: Seq<usize>,
) -> nat
    decreases b, 0int,
{
    unresolved_in_stmts_from(
        b.statements@,
        0,
        scopes.push(Seq::empty()),
        path.push(0),
    )
}

/// The scope stack after walking the statements from position `i` on.
pub open spec fn scopes_after_stmts(
    ss: Seq<Statement>,
    i: int,
    scopes: Seq<Seq<(Seq<char>, Seq<usize>)>>,
    path: Seq<usize>,
) -> Seq<Seq<(Seq<char>, Seq<usize>)>>
    decreases ss.len() - i,
{
    if 0 <= i < ss.len() {
        scopes_after_stmts(
            ss,
            i + 1,
            scopes_after_stmt(ss[i], scopes, path),
            path_after_stmt(ss[i], path),
        )
    } else {
        scopes
    }
}

/// The walk's index after the statements from position `i` on.
pub open spec fn path_after_stmts(ss: Seq<Statement>, i: int, path: Seq<usize>) -> Seq<usize>
    decreases ss.len() - i,
{
    if 0 <= i < ss.len() {
        path_after_stmts(ss, i + 1, path_after_stmt(ss[i], path))
    } else {
        path
    }
}

/// Walking the statements from position `i` on is walking the remaining
/// statements from their start.
proof fn lemma_unresolved_from_shift(
    ss: Seq<Statement>,
    i: int,
    scopes: Seq<Seq<(Seq<char>, Seq<usize>)>>,
    path: Seq<usize>,
)
    requires
        0 <= i <= ss.len(),
    ensures
        unresolved_in_stmts_from(ss, i, scopes, path) == unresolved_in_stmts_from(
            ss.subrange(i, ss.len() as int),
            0,
            scopes,
            path,
        ),
        scopes_after_stmts(ss, i, scopes, path) == scopes_after_stmts(
            ss.subrange(i, ss.len() as int),
            0,
            scopes,
            path,
        ),
        path_after_stmts(ss, i, path) == path_after_stmts(
            ss.subrange(i, ss.len() as int),
            0,
            path,
        ),
    decreases ss.len() - i,
{
    let sub = ss.subrange(i, ss.len() as int);
    if i < ss.len() {
        lemma_unresolved_from_shift(
            sub,
            1,
            scopes_after_stmt(ss[i], scopes, path),
            path_after_stmt(ss[i], path),
        );
        assert(sub.subrange(1, sub.len() as int) =~= ss.subrange(i + 1, ss.len() as int));
        lemma_unresolved_from_shift(
            ss,
            i + 1,
            scopes_after_stmt(ss[i], scopes, path),
            path_after_stmt(ss[i], path),
        );
        assert(sub[0] == ss[i]);
    } else {
        assert(sub.len() == 0);
    }
}

/// Collecting declarations from position `i` on is collecting them from
/// the start of the remaining statements.
proof fn lemma_decls_from_shift(ss: Seq<Statement>, i: int)
    requires
        0 <= i <= ss.len(),
    ensures
        decls_in_stmts_from(ss, i) == decls_in_stmts_from(ss.subrange(i, ss.len() as int), 0),
    decreases ss.len() - i,
{
    let sub = ss.subrange(i, ss.len() as int);
    if i < ss.len() {
        lemma_decls_from_shift(sub, 1);
        assert(sub.subrange(1, sub.len() as int) =~= ss.subrange(i + 1, ss.len() as int));
        lemma_decls_from_shift(ss, i + 1);
        assert(sub[0] == ss[i]);
    } else {
        assert(sub.len() == 0);
    }
}

/// Drives the symbol-table builder across the verification walk, writing
/// resolved scope indices back into the identifiers.
#[derive(Debug)]
pub struct SymbolTableChecker {
    builder: SymbolTableBuilder,
    current: ScopeIndex,
    table: SymbolTable,
}

impl SymbolTableChecker {
    /// The entries recorded so far.
    pub closed spec fn table_view(&self) -> Seq<(Seq<usize>, Symbol)> {
        self.table@
    }

    /// The current scope index.
    pub closed spec fn path(&self) -> Seq<usize> {
        self.current@
    }

    /// The depth of the builder's scope stack.
    pub closed spec fn depth(&self) -> int {
        self.builder@.len() as int
    }

    /// The builder's scope stack.
    pub closed spec fn scopes_view(&self) -> Seq<Seq<(Seq<char>, Seq<usize>)>> {
        self.builder@
    }

    /// The walk's invariant: the table's keys are distinct, none of them
    /// can be assigned again, and the scope stack is exactly one level
    /// shallower than the current index is deep.
    pub closed spec fn inv(&self) -> bool {
        &&& table_wf(self.table@)
        &&& no_reachable_keys(self.table@, self.current@)
        &&& self.builder@.len() + 1 == self.current@.len()
    }

    /// A checker ready to walk a program root.
    pub fn new() -> (r: SymbolTableChecker)
        ensures
            r.inv(),
            r.table_view() =~= Seq::<(Seq<usize>, Symbol)>::empty(),
            r.path() =~= seq![0usize],
            r.depth() == 0,
    {
        SymbolTableChecker {
            builder: SymbolTableBuilder::new(),
            current: ScopeIndex::default(),
            table: SymbolTable::new(),
        }
    }

    /// The finished symbol table.
    pub fn into_table(self) -> (t: SymbolTable)
        ensures
            t@ == self.table_view(),
    {
        self.table
    }

    /// Walks one block: pushes a scope, walks the statements, pops the
    /// scope, and advances the parent's counter so a sibling block gets a
    /// distinct prefix.
    ///
    /// Law: the scope stack returns to its entry depth (during the
    /// statements it stood exactly one level deeper), the table keeps
    /// distinct keys and only grows, and every index it records stays
    /// fresh.
    pub fn check_block(&mut self, errors: &mut ErrorCollector, block: Block) -> (r: Block)
        requires
            old(self).inv(),
            old(self).path().len() >= 1,
            old(self).path().last() < usize::MAX,
        ensures
            final(self).inv(),
            table_wf(final(self).table_view()),
            final(self).depth() == old(self).depth(),
            final(self).path() =~= old(self).path().update(
                old(self).path().len() - 1,
                (old(self).path().last() + 1) as usize,
            ),
            old(self).table_view().len() <= final(self).table_view().len(),
            forall|i: int|
                0 <= i < old(self).table_view().len() ==> final(self).table_view()[i] == old(
                    self,
                ).table_view()[i],
            final(self).table_view().len() == old(self).table_view().len() + decls_in_block(
                block,
            ).len(),
            forall|k: int|
                0 <= k < decls_in_block(block).len() ==> final(self).table_view()[old(
                    self,
                ).table_view().len() + k].1.name@ == decls_in_block(block)[k].text@,
            final(self).scopes_view() == old(self).scopes_view(),
            final(errors).errors_spec().len() == old(errors).errors_spec().len()
                + unresolved_in_block(block, old(self).scopes_view(), old(self).path()),
            resolves_block(block, r, old(self).scopes_view(), old(self).path()),
            final(errors).warnings_spec() == old(errors).warnings_spec(),
            old(errors).errors_spec().len() <= final(errors).errors_spec().len(),
            forall|j: int|
                0 <= j < old(errors).errors_spec().len() ==> final(errors).errors_spec()[j]
                    == old(errors).errors_spec()[j],
            block.statements@.len() == 0 ==> *final(errors) == *old(errors),
            r.statements@.len() == block.statements@.len(),
        decreases block,
    {
        let ghost b0 = block;
        let ghost c0 = self.current@;
        self.builder.new_scope();
        self.current.push();
        proof {
            assert forall|i: int|
                0 <= i < self.table@.len() implies !reachable_from(
                self.current@,
                #[trigger] self.table@[i].0,
            ) by {
                if reachable_from(self.current@, self.table@[i].0) {
                    lemma_reachable_push(c0, self.table@[i].0);
                }
            }
        }
        let partial = self.current.duplicate();
        let Block { statements, partial_index: _ } = block;
        let statement_count = statements.len();
        proof {
            assert(self.current@.last() + statement_count as int <= usize::MAX);
            assert(decreases_to!(b0 => b0.statements));
            assert(decreases_to!(b0.statements => b0.statements@));
        }
        proof {
            assert(self.builder@ =~~= old(self).builder@.push(
                Seq::<(Seq<char>, Seq<usize>)>::empty(),
            ));
            assert(self.current@ =~= c0.push(0));
        }
        let done = self.check_statements(errors, statements);
        self.builder.pop();
        let ghost c_in = self.current@;
        self.current.pop();
        self.current.increment();
        proof {
            assert(self.current@.len() == c0.len());
            assert forall|i: int|
                0 <= i < self.table@.len() implies !reachable_from(
                self.current@,
                #[trigger] self.table@[i].0,
            ) by {
                if reachable_from(self.current@, self.table@[i].0) {
                    lemma_reachable_exit(c_in, self.current@, self.table@[i].0);
                }
            }
        }
        Block { statements: done, partial_index: partial }
    }

    /// Walks the remaining statements of a block, in order.  The innermost
    /// counter advances at most once per statement, which keeps it within
    /// machine bounds.
    fn check_statements(&mut self, errors: &mut ErrorCollector, rest: Vec<Statement>) -> (r: Vec<
        Statement,
    >)
        requires
            old(self).inv(),
            old(self).path().len() >= 2,
            old(self).path().last() + rest@.len() <= usize::MAX,
        ensures
            final(self).inv(),
            final(self).depth() == old(self).depth(),
            final(self).path().len() == old(self).path().len(),
            seq_eq_upto(final(self).path(), old(self).path(), old(self).path().len() - 1),
            old(self).path().last() <= final(self).path().last() <= old(self).path().last()
                + rest@.len(),
            old(self).table_view().len() <= final(self).table_view().len(),
            forall|i: int|
                0 <= i < old(self).table_view().len() ==> final(self).table_view()[i] == old(
                    self,
                ).table_view()[i],
            final(self).table_view().len() == old(self).table_view().len()
                + decls_in_stmts_from(rest@, 0).len(),
            forall|k: int|
                0 <= k < decls_in_stmts_from(rest@, 0).len() ==> final(self).table_view()[old(
                    self,
                ).table_view().len() + k].1.name@ == decls_in_stmts_from(rest@, 0)[k].text@,
            final(self).scopes_view().len() == old(self).scopes_view().len(),
            forall|j: int|
                0 <= j < old(self).scopes_view().len() - 1 ==> final(self).scopes_view()[j]
                    == old(self).scopes_view()[j],
            final(self).scopes_view() == scopes_after_stmts(
                rest@,
                0,
                old(self).scopes_view(),
                old(self).path(),
            ),
            final(self).path() == path_after_stmts(rest@, 0, old(self).path()),
            final(errors).errors_spec().len() == old(errors).errors_spec().len()
                + unresolved_in_stmts_from(rest@, 0, old(self).scopes_view(), old(self).path()),
            resolves_stmts_from(rest@, r@, 0, old(self).scopes_view(), old(self).path()),
            final(errors).warnings_spec() == old(errors).warnings_spec(),
            old(errors).errors_spec().len() <= final(errors).errors_spec().len(),
            forall|j: int|
                0 <= j < old(errors).errors_spec().len() ==> final(errors).errors_spec()[j]
                    == old(errors).errors_spec()[j],
            rest@.len() == 0 ==> *final(errors) == *old(errors) && final(self).scopes_view()
                == old(self).scopes_view(),
            r@.len() == rest@.len(),
        decreases rest@,
    {
        let ghost r0 = rest@;
        let mut rest = rest;
        if rest.len() == 0 {
            return rest;
        }
        let s = rest.remove(0);
        proof {
            assert(s == r0[0]);
            assert(rest@ =~= r0.subrange(1, r0.len() as int));
            assert(decreases_to!(r0 => s));
            assert(decreases_to!(r0 => r0.subrange(1, r0.len() as int)));
        }
        let s2 = self.check_statement(errors, s);
        let ghost sc1 = self.scopes_view();
        let ghost p1 = self.path();
        let mut tail = self.check_statements(errors, rest);
        let ghost tail0 = tail@;
        let mut out: Vec<Statement> = Vec::new();
        out.push(s2);
        out.append(&mut tail);
        proof {
            lemma_unresolved_from_shift(r0, 1, sc1, p1);
            lemma_decls_from_shift(r0, 1);
            assert(r0.subrange(1, r0.len() as int) =~= rest@);
            assert(decls_in_stmts_from(r0, 0) == decls_in_stmt(r0[0]) + decls_in_stmts_from(
                rest@,
                0,
            ));
            assert(out@.subrange(1, out@.len() as int) =~= tail0);
            lemma_resolves_from_shift(r0, out@, 1, sc1, p1);
        }
        out
    }

    /// Walks one statement.  A declaration resolves its value, is recorded
    /// at the current index, defines its name in the innermost scope, and
    /// advances the counter; a nested block walks recursively; the other
    /// statements only resolve their expressions.
    fn check_statement(&mut self, errors: &mut ErrorCollector, s: Statement) -> (r: Statement)
        requires
            old(self).inv(),
            old(self).path().len() >= 2,
            old(self).path().last() < usize::MAX,
        ensures
            final(self).inv(),
            final(self).depth() == old(self).depth(),
            final(self).path().len() == old(self).path().len(),
            seq_eq_upto(final(self).path(), old(self).path(), old(self).path().len() - 1),
            old(self).path().last() <= final(self).path().last() <= old(self).path().last()
                + 1,
            old(self).table_view().len() <= final(self).table_view().len(),
            forall|i: int|
                0 <= i < old(self).table_view().len() ==> final(self).table_view()[i] == old(
                    self,
                ).table_view()[i],
            final(self).table_view().len() == old(self).table_view().len() + decls_in_stmt(
                s,
            ).len(),
            forall|k: int|
                0 <= k < decls_in_stmt(s).len() ==> final(self).table_view()[old(
                    self,
                ).table_view().len() + k].1.name@ == decls_in_stmt(s)[k].text@,
            final(self).scopes_view().len() == old(self).scopes_view().len(),
            forall|j: int|
                0 <= j < old(self).scopes_view().len() - 1 ==> final(self).scopes_view()[j]
                    == old(self).scopes_view()[j],
            final(self).scopes_view() == scopes_after_stmt(
                s,
                old(self).scopes_view(),
                old(self).path(),
            ),
            final(self).path() == path_after_stmt(s, old(self).path()),
            final(errors).errors_spec().len() == old(errors).errors_spec().len()
                + unresolved_in_stmt(s, old(self).scopes_view(), old(self).path()),
            resolves_stmt(s, r, old(self).scopes_view(), old(self).path()),
            final(errors).warnings_spec() == old(errors).warnings_spec(),
            old(errors).errors_spec().len() <= final(errors).errors_spec().len(),
            forall|j: int|
                0 <= j < old(errors).errors_spec().len() ==> final(errors).errors_spec()[j]
                    == old(errors).errors_spec()[j],
        decreases s,
    {
        match s {
            Statement::Expression(e) => {
                let e2 = self.check_expression(errors, e);
                Statement::Expression(e2)
            },
            Statement::Return(ret) => {
                let Return { token, value } = ret;
                let v2 = self.check_expression(errors, *value);
                Statement::Return(Return { token, value: Box::new(v2) })
            },
            Statement::Declaration(decl) => {
                let Declaration { mutable, ident, value } = decl;
                let v2 = self.check_expression(errors, *value);
                let ghost c = self.current@;
                proof {
                    lemma_current_fresh(self.table@, self.current@);
                }
                let symbol = Symbol::new(ident.token.text.clone(), mutable, Type::Float);
                self.table.insert(self.current.duplicate(), symbol);
                self.builder.define_local(ident.token.text.clone(), self.current.duplicate());
                proof {
                    assert(self.builder@ =~~= old(self).builder@.update(
                        old(self).builder@.len() - 1,
                        old(self).builder@.last().push((ident.token.text@, c)),
                    ));
                }
                let mut ident2 = ident;
                ident2.set_index(self.current.duplicate());
                self.current.increment();
                proof {
                    assert forall|i: int|
                        0 <= i < self.table@.len() implies !reachable_from(
                        self.current@,
                        #[trigger] self.table@[i].0,
                    ) by {
                        if i < self.table@.len() - 1 {
                            if reachable_from(self.current@, self.table@[i].0) {
                                lemma_reachable_incr(c, self.current@, self.table@[i].0);
                            }
                        } else {
                            assert(self.table@[i].0 == c);
                            lemma_recorded_not_reachable(c, self.current@);
                        }
                    }
                }
                Statement::Declaration(
                    Declaration { mutable, ident: ident2, value: Box::new(v2) },
                )
            },
            Statement::DoBlock(b) => {
                let b2 = self.check_block(errors, b);
                Statement::DoBlock(b2)
            },
        }
    }

    /// Resolves every variable reference in an expression, innermost scope
    /// first, writing the found index into the identifier and reporting an
    /// unresolved name as an error diagnostic.  The walk state itself does
    /// not change.
    fn check_expression(&mut self, errors: &mut ErrorCollector, e: Expression) -> (r: Expression)
        requires
            old(self).inv(),
        ensures
            final(self).inv(),
            final(self).path() == old(self).path(),
            final(self).depth() == old(self).depth(),
            final(self).table_view() == old(self).table_view(),
            final(self).scopes_view() == old(self).scopes_view(),
            final(errors).warnings_spec() == old(errors).warnings_spec(),
            final(errors).errors_spec().len() == old(errors).errors_spec().len()
                + unresolved_in_expr(e, old(self).scopes_view()),
            forall|j: int|
                0 <= j < old(errors).errors_spec().len() ==> final(errors).errors_spec()[j]
                    == old(errors).errors_spec()[j],
            resolves_expr(e, r, old(self).scopes_view()),
        decreases e,
    {
        match e {
            Expression::Literal(l) => Expression::Literal(l),
            Expression::VariableRef(id) => {
                let id2 = self.resolve_identifier(errors, id);
                Expression::VariableRef(id2)
            },
            Expression::UnaryOp(u) => {
                let inner = self.check_expression(errors, *u.expression);
                Expression::UnaryOp(
                    crate::parse::ast::UnaryOperation {
                        operator: u.operator,
                        token: u.token,
                        expression: Box::new(inner),
                    },
                )
            },
            Expression::BinaryOp(b) => {
                let left = self.check_expression(errors, *b.left);
                let right = self.check_expression(errors, *b.right);
                Expression::BinaryOp(
                    crate::parse::ast::BinaryOperation {
                        operator: b.operator,
                        token: b.token,
                        left: Box::new(left),
                        right: Box::new(right),
                    },
                )
            },
            Expression::Assignment(a) => {
                let Assignment { lvalue, rvalue } = a;
                let lv2 = self.resolve_identifier(errors, lvalue);
                let rv2 = self.check_expression(errors, *rvalue);
                Expression::Assignment(Assignment { lvalue: lv2, rvalue: Box::new(rv2) })
            },
        }
    }

    /// Looks one identifier up, innermost scope first; an unresolved name
    /// becomes an error diagnostic and the identifier keeps its default
    /// index.
    fn resolve_identifier(&mut self, errors: &mut ErrorCollector, id: Identifier) -> (r:
        Identifier)
        requires
            old(self).inv(),
        ensures
            final(self).inv(),
            final(self).path() == old(self).path(),
            final(self).depth() == old(self).depth(),
            final(self).table_view() == old(self).table_view(),
            final(self).scopes_view() == old(self).scopes_view(),
            final(errors).warnings_spec() == old(errors).warnings_spec(),
            r.token == id.token,
            stack_lookup(old(self).scopes_view(), id.token.text@) matches Some(path) ==> {
                &&& r.index@ == path
                &&& final(errors).errors_spec() == old(errors).errors_spec()
            },
            stack_lookup(old(self).scopes_view(), id.token.text@) is None ==> {
                let added = final(errors).errors_spec().last();
                &&& r == id
                &&& final(errors).errors_spec().len() == old(errors).errors_spec().len() + 1
                &&& added.token == id.token
                &&& added.text@ == "Reference to undefined variable "@ + id.token.text@
            },
            resolves_ident(id, r, old(self).scopes_view()),
            forall|j: int|
                0 <= j < old(errors).errors_spec().len() ==> final(errors).errors_spec()[j]
                    == old(errors).errors_spec()[j],
    {
        let found = self.builder.get(id.token.text.as_str());
        match found {
            Some(path) => {
                let mut id2 = id;
                id2.set_index(path);
                id2
            },
            None => {
                let mut text = "Reference to undefined variable ".to_owned();
                text.append(id.token.text.as_str());
                errors.add_error(VerifyError::new(id.token.duplicate(), Vec::new(), text));
                id
            },
        }
    }
}

} // verus!
