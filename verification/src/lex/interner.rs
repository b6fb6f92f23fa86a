//! String interning: a pool that deduplicates repeated text fragments into
//! small integer handles.

use vstd::prelude::*;
use vstd::string::StringExecFns;

verus! {

/// An opaque handle into a [`StringPool`].  Equal handles refer to equal
/// text; handles are never invalidated or reused.
#[derive(Debug, Clone, Copy, PartialEq, Eq, PartialOrd, Ord, Hash, Structural)]
pub struct Intern(u32);

impl Intern {
    /// The numeric value of the handle: the index of its text in the pool.
    pub closed spec fn id(&self) -> int {
        self.0 as int
    }
}

/// Owner of all interned text.  Insertion is idempotent: the same text
/// always yields the same handle, and the pool is append-only.
#[derive(Debug)]
pub struct StringPool {
    strings: Vec<String>,
}

impl View for StringPool {
    type V = Seq<Seq<char>>;

    closed spec fn view(&self) -> Seq<Seq<char>> {
        Seq::new(self.strings@.len(), |i: int| self.strings@[i]@)
    }
}

/// The texts of `texts`, keeping only the first occurrence of each.
pub open spec fn first_occurrences(texts: Seq<Seq<char>>) -> Seq<Seq<char>>
    decreases texts.len(),
{
    if texts.len() == 0 {
        Seq::empty()
    } else {
        let rest = first_occurrences(texts.drop_last());
        if rest.contains(texts.last()) {
            rest
        } else {
            rest.push(texts.last())
        }
    }
}

/// The character sequences of a vector of strings.
pub open spec fn text_views(texts: Seq<String>) -> Seq<Seq<char>> {
    Seq::new(texts.len(), |i: int| texts[i]@)
}

/// A pool is well formed when no text is stored twice, so each stored text
/// determines its handle.
pub open spec fn pool_wf(pool: Seq<Seq<char>>) -> bool {
    forall|i: int, j: int| 0 <= i < j < pool.len() ==> pool[i] != pool[j]
}

/// Two handles with the same numeric value are the same handle.
pub proof fn lemma_intern_eq(a: Intern, b: Intern)
    requires
        a.id() == b.id(),
    ensures
        a == b,
{
}

/// In a well-formed pool, a text determines at most one handle.
///
/// Law: interning the same text twice returns the same handle.  Both calls
/// return a handle whose stored text is the inserted text, and this lemma
/// makes those handles equal.
pub proof fn lemma_handle_unique(pool: Seq<Seq<char>>, h1: int, h2: int)
    requires
        pool_wf(pool),
        0 <= h1 < pool.len(),
        0 <= h2 < pool.len(),
        pool[h1] == pool[h2],
    ensures
        h1 == h2,
{
}

/// Law: handles of distinct texts are distinct.  Each handle's stored text
/// is the text that was interned, so two handles storing different texts
/// cannot be equal.
pub proof fn lemma_distinct_texts(pool: Seq<Seq<char>>, h1: int, h2: int)
    requires
        0 <= h1 < pool.len(),
        0 <= h2 < pool.len(),
        pool[h1] != pool[h2],
    ensures
        h1 != h2,
{
}

impl StringPool {
    /// An empty pool.
    pub fn new() -> (r: StringPool)
        ensures
            r@ =~= Seq::<Seq<char>>::empty(),
            pool_wf(r@),
    {
        StringPool { strings: Vec::new() }
    }

    /// A pool holding exactly the texts of `initial`, each once, with
    /// handles assigned in first-occurrence order starting at zero.
    pub fn prefilled(initial: Vec<String>) -> (r: StringPool)
        requires
            initial@.len() < u32::MAX as int,
        ensures
            pool_wf(r@),
            r@ =~= first_occurrences(text_views(initial@)),
            forall|k: int| 0 <= k < initial@.len() ==> r@.contains(#[trigger] initial@[k]@),
            r@.len() <= initial@.len(),
    {
        let mut pool = StringPool::new();
        let mut k: usize = 0;
        while k < initial.len()
            invariant
                k <= initial.len(),
                initial@.len() < u32::MAX as int,
                pool_wf(pool@),
                pool@.len() <= k,
                pool@ =~= first_occurrences(text_views(initial@.subrange(0, k as int))),
                forall|j: int| 0 <= j < k ==> pool@.contains(#[trigger] initial@[j]@),
            decreases initial.len() - k,
        {
            let ghost before = pool@;
            pool.insert(initial[k].as_str());
            proof {
                let upto = text_views(initial@.subrange(0, k + 1));
                assert(upto.drop_last() =~= text_views(initial@.subrange(0, k as int)));
                assert(upto.last() == initial@[k as int]@);
                if before.contains(initial@[k as int]@) {
                    assert(pool@ =~= first_occurrences(upto));
                } else {
                    assert(pool@ =~= first_occurrences(upto));
                }
            }
            k += 1;
        }
        proof {
            assert(initial@.subrange(0, initial@.len() as int) =~= initial@);
        }
        pool
    }

    /// The number of distinct texts interned so far.
    pub fn len(&self) -> (r: usize)
        ensures
            r == self@.len(),
    {
        self.strings.len()
    }

    /// Interns `text`: returns the existing handle if the text was seen
    /// before, otherwise appends it under the next sequential handle.  In
    /// both cases the returned handle's stored text is `text`.
    pub fn insert(&mut self, text: &str) -> (r: Intern)
        requires
            pool_wf(old(self)@),
            old(self)@.len() < u32::MAX as int,
        ensures
            pool_wf(final(self)@),
            old(self)@.contains(text@) ==> final(self)@ == old(self)@,
            !old(self)@.contains(text@) ==> final(self)@ =~= old(self)@.push(text@),
            0 <= r.id() < final(self)@.len(),
            final(self)@[r.id()] == text@,
            forall|k: int|
                0 <= k < old(self)@.len() ==> final(self)@[k] == old(self)@[k],
    {
        let owned: String = text.to_owned();
        let n: usize = self.strings.len();
        let mut i: usize = 0;
        while i < n
            invariant
                n == self.strings.len(),
                i <= n,
                owned@ == text@,
                *self == *old(self),
                pool_wf(self@),
                self@.len() < u32::MAX as int,
                forall|k: int| 0 <= k < i ==> self@[k] != text@,
            decreases n - i,
        {
            if self.strings[i] == owned {
                assert(self@[i as int] == text@);
                return Intern(i as u32);
            }
            i += 1;
        }
        assert(forall|k: int| 0 <= k < self@.len() ==> self@[k] != text@);
        assert(!self@.contains(text@));
        self.strings.push(owned);
        assert(self@ =~= old(self)@.push(text@));
        Intern(n as u32)
    }

    /// The text stored under a handle.  Handles are produced only by
    /// `insert`, so an out-of-range handle is a caller error.
    pub fn get_text(&self, intern: Intern) -> (r: String)
        requires
            0 <= intern.id() < self@.len(),
        ensures
            r@ == self@[intern.id()],
    {
        let i: usize = self.index_of(intern);
        self.strings[i].clone()
    }

    /// The vector index of a handle.
    fn index_of(&self, intern: Intern) -> (r: usize)
        requires
            0 <= intern.id() < self@.len(),
        ensures
            r == intern.id(),
    {
        intern.0 as usize
    }
}

} // verus!
