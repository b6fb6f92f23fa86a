//! Scope addressing and the symbol table.
//!
//! A declaration is addressed by its structural path through the nested
//! block tree rather than by name: a `ScopeIndex` is the list of counters
//! active at the moment of declaration.  The builder keeps a stack of
//! per-scope name maps only while the verification walk runs.

use vstd::prelude::*;

use crate::lex::scan::str_eq;
use crate::parse::types::Type;

verus! {

/// An ordered path of counters addressing a declaration's position in the
/// nested-block structure.  `push` enters a nested scope, `pop` leaves it,
/// and `increment` advances the counter of the innermost scope.
#[derive(Debug, Eq)]
pub struct ScopeIndex {
    indices: Vec<usize>,
}

impl View for ScopeIndex {
    type V = Seq<usize>;

    closed spec fn view(&self) -> Seq<usize> {
        self.indices@
    }
}

impl PartialEq for ScopeIndex {
    /// Two scope indices are equal exactly when their paths are equal.
    fn eq(&self, other: &ScopeIndex) -> (r: bool) {
        let n = self.indices.len();
        if n != other.indices.len() {
            return false;
        }
        let mut i: usize = 0;
        while i < n
            invariant
                n == self@.len() == other@.len(),
                i <= n,
                forall|j: int| 0 <= j < i ==> self@[j] == other@[j],
            decreases n - i,
        {
            if self.indices[i] != other.indices[i] {
                return false;
            }
            i += 1;
        }
        proof {
            assert(self@ =~= other@);
        }
        true
    }
}

impl vstd::std_specs::cmp::PartialEqSpecImpl for ScopeIndex {
    open spec fn obeys_eq_spec() -> bool {
        true
    }

    open spec fn eq_spec(&self, other: &ScopeIndex) -> bool {
        self@ == other@
    }
}

impl ScopeIndex {
    /// A scope index with the given path.
    pub fn new(vec: Vec<usize>) -> (r: ScopeIndex)
        ensures
            r@ == vec@,
    {
        ScopeIndex { indices: vec }
    }

    /// An exact copy of this scope index.
    pub fn duplicate(&self) -> (r: ScopeIndex)
        ensures
            r@ == self@,
    {
        let n = self.indices.len();
        let mut v: Vec<usize> = Vec::new();
        let mut i: usize = 0;
        while i < n
            invariant
                n == self@.len(),
                i <= n,
                v@ =~= self@.subrange(0, i as int),
            decreases n - i,
        {
            v.push(self.indices[i]);
            i += 1;
        }
        proof {
            assert(v@ =~= self@);
        }
        ScopeIndex { indices: v }
    }

    /// The depth of the path.
    pub fn len(&self) -> (r: usize)
        ensures
            r == self@.len(),
    {
        self.indices.len()
    }

    /// Advances the counter of the innermost scope: called after each
    /// declaration so the next sibling gets a fresh address.
    pub fn increment(&mut self)
        requires
            old(self)@.len() > 0,
            old(self)@.last() < usize::MAX,
        ensures
            final(self)@ =~= old(self)@.update(
                old(self)@.len() - 1,
                (old(self)@.last() + 1) as usize,
            ),
    {
        let last = match self.indices.pop() {
            Some(v) => v,
            None => vstd::pervasive::unreached(),
        };
        self.indices.push(last + 1);
        proof {
            assert(self@ =~= old(self)@.update(
                old(self)@.len() - 1,
                (old(self)@.last() + 1) as usize,
            ));
        }
    }

    /// Moves the counter of the innermost scope back by one.
    pub fn decrement(&mut self)
        requires
            old(self)@.len() > 0,
            old(self)@.last() > 0,
        ensures
            final(self)@ =~= old(self)@.update(
                old(self)@.len() - 1,
                (old(self)@.last() - 1) as usize,
            ),
    {
        let last = match self.indices.pop() {
            Some(v) => v,
            None => vstd::pervasive::unreached(),
        };
        self.indices.push(last - 1);
        proof {
            assert(self@ =~= old(self)@.update(
                old(self)@.len() - 1,
                (old(self)@.last() - 1) as usize,
            ));
        }
    }

    /// Enters a new nested scope: appends a zero counter.
    pub fn push(&mut self)
        ensures
            final(self)@ =~= old(self)@.push(0usize),
    {
        self.indices.push(0);
    }

    /// Leaves the innermost scope: removes its counter.  On an empty path
    /// nothing changes.
    pub fn pop(&mut self)
        ensures
            old(self)@.len() > 0 ==> final(self)@ =~= old(self)@.drop_last(),
            old(self)@.len() == 0 ==> final(self)@ == old(self)@,
    {
        let popped = self.indices.pop();
        proof {
            if old(self)@.len() > 0 {
                assert(self@ =~= old(self)@.drop_last());
            }
        }
    }
}

impl Default for ScopeIndex {
    /// The address of the first declaration of the program root.
    fn default() -> (r: ScopeIndex)
        ensures
            r@ == seq![0usize],
    {
        let mut v: Vec<usize> = Vec::new();
        v.push(0);
        proof {
            assert(v@ =~= seq![0usize]);
        }
        ScopeIndex { indices: v }
    }
}

/// What the symbol table records about one declaration: its name, its
/// mutability, and its type when known.
#[derive(Debug, PartialEq)]
pub struct Symbol {
    pub name: String,
    pub mutable: bool,
    pub declared_type: Type,
}

impl Symbol {
    pub fn new(name: String, mutable: bool, declared_type: Type) -> (r: Symbol)
        ensures
            r.name == name,
            r.mutable == mutable,
            r.declared_type == declared_type,
    {
        Symbol { name, mutable, declared_type }
    }
}

/// Whether some entry of a table has the given key.
pub open spec fn table_has_key(entries: Seq<(Seq<usize>, Symbol)>, key: Seq<usize>) -> bool {
    exists|i: int| 0 <= i < entries.len() && entries[i].0 == key
}

/// All keys of a table are distinct: a `ScopeIndex` maps to at most one
/// declared binding.
pub open spec fn table_wf(entries: Seq<(Seq<usize>, Symbol)>) -> bool {
    forall|i: int, j: int| 0 <= i < j < entries.len() ==> entries[i].0 != entries[j].0
}

/// A mapping from scope index to symbol, with distinct keys.
#[derive(Debug)]
pub struct SymbolTable {
    entries: Vec<(ScopeIndex, Symbol)>,
}

impl View for SymbolTable {
    type V = Seq<(Seq<usize>, Symbol)>;

    closed spec fn view(&self) -> Seq<(Seq<usize>, Symbol)> {
        Seq::new(self.entries@.len(), |i: int| (self.entries@[i].0@, self.entries@[i].1))
    }
}

impl SymbolTable {
    /// An empty table.
    pub fn new() -> (r: SymbolTable)
        ensures
            r@ =~= Seq::<(Seq<usize>, Symbol)>::empty(),
            table_wf(r@),
    {
        SymbolTable { entries: Vec::new() }
    }

    /// The number of declarations recorded.
    pub fn len(&self) -> (r: usize)
        ensures
            r == self@.len(),
    {
        self.entries.len()
    }

    /// Records a declaration under a fresh scope index.
    pub fn insert(&mut self, index: ScopeIndex, symbol: Symbol)
        requires
            table_wf(old(self)@),
            !table_has_key(old(self)@, index@),
        ensures
            final(self)@ =~= old(self)@.push((index@, symbol)),
            table_wf(final(self)@),
    {
        self.entries.push((index, symbol));
        proof {
            assert(self@ =~= old(self)@.push((self.entries@.last().0@, self.entries@.last().1)));
        }
    }

    /// The symbol declared at the given scope index, when there is one.
    pub fn get(&self, index: &ScopeIndex) -> (r: Option<&Symbol>)
        ensures
            match r {
                Some(sym) => exists|i: int|
                    0 <= i < self@.len() && self@[i].0 == index@ && self@[i].1 == *sym,
                None => !table_has_key(self@, index@),
            },
    {
        let n = self.entries.len();
        let mut i: usize = 0;
        while i < n
            invariant
                n == self@.len(),
                i <= n,
                forall|j: int| 0 <= j < i ==> self@[j].0 != index@,
            decreases n - i,
        {
            if self.entries[i].0.eq(index) {
                proof {
                    assert(self@[i as int].0 == index@ && self@[i as int].1 == self.entries@[
                        i as int].1);
                }
                return Some(&self.entries[i].1);
            }
            i += 1;
        }
        None
    }

    /// Whether a declaration is recorded at the given scope index.
    pub fn contains_key(&self, index: &ScopeIndex) -> (r: bool)
        ensures
            r == table_has_key(self@, index@),
    {
        match self.get(index) {
            Some(_) => true,
            None => false,
        }
    }
}

/// The name-to-path pairs a popped scope vector stores.
pub open spec fn scope_entries(v: Seq<(String, ScopeIndex)>) -> Seq<(Seq<char>, Seq<usize>)> {
    Seq::new(v.len(), |j: int| (v[j].0@, v[j].1@))
}

/// What one scope of the builder stores: name-to-path bindings, newest
/// last; a later binding of a name shadows an earlier one in the same
/// scope, which keeps the newest-wins behavior of a map.
pub open spec fn scope_lookup(scope: Seq<(Seq<char>, Seq<usize>)>, name: Seq<char>) -> Option<
    Seq<usize>,
>
    decreases scope.len(),
{
    if scope.len() == 0 {
        None
    } else if scope.last().0 == name {
        Some(scope.last().1)
    } else {
        scope_lookup(scope.drop_last(), name)
    }
}

/// Lookup over a scope stack, innermost scope first.
pub open spec fn stack_lookup(
    scopes: Seq<Seq<(Seq<char>, Seq<usize>)>>,
    name: Seq<char>,
) -> Option<Seq<usize>>
    decreases scopes.len(),
{
    if scopes.len() == 0 {
        None
    } else {
        match scope_lookup(scopes.last(), name) {
            Some(path) => Some(path),
            None => stack_lookup(scopes.drop_last(), name),
        }
    }
}

/// The scope stack used while building the symbol table: scopes are pushed
/// and popped as the walk enters and leaves blocks, and each scope maps the
/// names declared in it to their scope indices.
#[derive(Debug)]
pub struct SymbolTableBuilder {
    scopes: Vec<Vec<(String, ScopeIndex)>>,
}

impl View for SymbolTableBuilder {
    type V = Seq<Seq<(Seq<char>, Seq<usize>)>>;

    closed spec fn view(&self) -> Seq<Seq<(Seq<char>, Seq<usize>)>> {
        Seq::new(
            self.scopes@.len(),
            |i: int|
                Seq::new(
                    self.scopes@[i]@.len(),
                    |j: int| (self.scopes@[i]@[j].0@, self.scopes@[i]@[j].1@),
                ),
        )
    }
}

impl SymbolTableBuilder {
    /// A builder with no scopes.
    pub fn new() -> (r: SymbolTableBuilder)
        ensures
            r@ =~= Seq::<Seq<(Seq<char>, Seq<usize>)>>::empty(),
    {
        SymbolTableBuilder { scopes: Vec::new() }
    }

    /// The current depth of the scope stack.
    pub fn depth(&self) -> (r: usize)
        ensures
            r == self@.len(),
    {
        self.scopes.len()
    }

    /// Pushes a new, empty innermost scope.
    pub fn new_scope(&mut self)
        ensures
            final(self)@ =~= old(self)@.push(Seq::<(Seq<char>, Seq<usize>)>::empty()),
    {
        self.scopes.push(Vec::new());
        proof {
            assert(self@ =~~= old(self)@.push(Seq::<(Seq<char>, Seq<usize>)>::empty()));
        }
    }

    /// Removes and returns the innermost scope, when there is one: exactly
    /// the bindings defined locally since the matching `new_scope`, for
    /// callers to inspect.
    pub fn pop(&mut self) -> (r: Option<Vec<(String, ScopeIndex)>>)
        ensures
            old(self)@.len() > 0 ==> {
                &&& final(self)@ =~= old(self)@.drop_last()
                &&& r matches Some(v) && scope_entries(v@) == old(self)@.last()
            },
            old(self)@.len() == 0 ==> final(self)@ == old(self)@ && r is None,
    {
        let r = self.scopes.pop();
        proof {
            if old(self)@.len() > 0 {
                assert(self@ =~~= old(self)@.drop_last());
                assert(scope_entries(r->Some_0@) =~= old(self)@.last());
            } else {
                assert(self@ =~~= old(self)@);
            }
        }
        r
    }

    /// Defines a name in the innermost scope, shadowing any earlier binding
    /// of the same name there.
    pub fn define_local(&mut self, name: String, value: ScopeIndex)
        requires
            old(self)@.len() > 0,
        ensures
            final(self)@.len() == old(self)@.len(),
            forall|j: int|
                0 <= j < old(self)@.len() - 1 ==> final(self)@[j] == old(self)@[j],
            final(self)@.last() =~= old(self)@.last().push((name@, value@)),
    {
        let mut inner = match self.scopes.pop() {
            Some(v) => v,
            None => vstd::pervasive::unreached(),
        };
        inner.push((name, value));
        self.scopes.push(inner);
        proof {
            assert(self@.last() =~= old(self)@.last().push((name@, value@)));
            assert(forall|j: int|
                0 <= j < old(self)@.len() - 1 ==> self@[j] =~= old(self)@[j]);
        }
    }

    /// Defines a name in the root scope, regardless of the current depth.
    pub fn define_global(&mut self, name: String, value: ScopeIndex)
        requires
            old(self)@.len() > 0,
        ensures
            final(self)@.len() == old(self)@.len(),
            forall|j: int| 1 <= j < old(self)@.len() ==> final(self)@[j] == old(self)@[j],
            final(self)@[0] =~= old(self)@[0].push((name@, value@)),
    {
        let mut root = self.scopes.remove(0);
        root.push((name, value));
        self.scopes.insert(0, root);
        proof {
            assert(self@[0] =~= old(self)@[0].push((name@, value@)));
            assert(forall|j: int| 1 <= j < old(self)@.len() ==> self@[j] =~= old(self)@[j]);
        }
    }

    /// Looks a name up through the scope stack, innermost scope first, so
    /// inner declarations shadow outer ones of the same name.
    pub fn get(&self, name: &str) -> (r: Option<ScopeIndex>)
        ensures
            match r {
                Some(path) => stack_lookup(self@, name@) == Some(path@),
                None => stack_lookup(self@, name@) is None,
            },
    {
        proof {
            assert(self@.subrange(0, self@.len() as int) =~= self@);
        }
        self.get_in_scope(name, self.scopes.len())
    }

    /// Looks a name up in the innermost scope only.
    pub fn get_local(&self, name: &str) -> (r: Option<ScopeIndex>)
        requires
            self@.len() > 0,
        ensures
            match r {
                Some(path) => scope_lookup(self@.last(), name@) == Some(path@),
                None => scope_lookup(self@.last(), name@) is None,
            },
    {
        let last_ix = self.scopes.len() - 1;
        self.lookup_scope(last_ix, name)
    }

    /// Looks a name up through the outermost `scope_level` scopes only,
    /// innermost of those first: what is visible without consulting scopes
    /// introduced after a given point.
    pub fn get_in_scope(&self, name: &str, scope_level: usize) -> (r: Option<ScopeIndex>)
        requires
            scope_level <= self@.len(),
        ensures
            match r {
                Some(path) => stack_lookup(self@.subrange(0, scope_level as int), name@) == Some(
                    path@,
                ),
                None => stack_lookup(self@.subrange(0, scope_level as int), name@) is None,
            },
    {
        let mut level: usize = scope_level;
        while level > 0
            invariant
                level <= scope_level <= self@.len(),
                stack_lookup(self@.subrange(0, scope_level as int), name@) == stack_lookup(
                    self@.subrange(0, level as int),
                    name@,
                ),
            decreases level,
        {
            let found = self.lookup_scope(level - 1, name);
            proof {
                assert(self@.subrange(0, level as int).last() =~= self@[level - 1]);
                assert(self@.subrange(0, level as int).drop_last() =~= self@.subrange(
                    0,
                    level - 1,
                ));
            }
            match found {
                Some(path) => {
                    return Some(path);
                },
                None => {
                    level = level - 1;
                },
            }
        }
        proof {
            assert(self@.subrange(0, 0) =~= Seq::<Seq<(Seq<char>, Seq<usize>)>>::empty());
        }
        None
    }

    /// Looks a name up in the scope at stack position `ix`, newest binding
    /// first.
    fn lookup_scope(&self, ix: usize, name: &str) -> (r: Option<ScopeIndex>)
        requires
            ix < self@.len(),
        ensures
            match r {
                Some(path) => scope_lookup(self@[ix as int], name@) == Some(path@),
                None => scope_lookup(self@[ix as int], name@) is None,
            },
    {
        let scope = &self.scopes[ix];
        let n = scope.len();
        proof {
            assert(self@[ix as int].subrange(0, n as int) =~= self@[ix as int]);
        }
        let mut k: usize = n;
        while k > 0
            invariant
                n == scope.len(),
                ix < self@.len(),
                scope == self.scopes@[ix as int],
                k <= n,
                scope_lookup(self@[ix as int], name@) == scope_lookup(
                    self@[ix as int].subrange(0, k as int),
                    name@,
                ),
            decreases k,
        {
            proof {
                assert(self@[ix as int].subrange(0, k as int).last() == self@[ix as int][k
                    - 1]);
                assert(self@[ix as int].subrange(0, k as int).drop_last() =~= self@[
                    ix as int].subrange(0, k - 1));
            }
            if str_eq(scope[k - 1].0.as_str(), name) {
                return Some(scope[k - 1].1.duplicate());
            }
            k = k - 1;
        }
        proof {
            assert(self@[ix as int].subrange(0, 0) =~= Seq::<(Seq<char>, Seq<usize>)>::empty());
        }
        None
    }
}

} // verus!
