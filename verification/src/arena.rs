//! Append-only indexed stores. An `Arena<T>` hands out `Handle<T>` values:
//! stable indices that are never reused. `fetch_or_append` additionally
//! deduplicates by structural likeness, which makes the arena double as an
//! interning table.

use core::marker::PhantomData;
use vstd::prelude::*;

verus! {

/// An opaque reference into one specific arena. Equality is index equality.
//
// The fields are pub(crate) so that inside the crate the solver knows that
// equal indices give equal handles.
pub struct Handle<T> {
    pub(crate) index: usize,
    pub(crate) marker: PhantomData<T>,
}

impl<T> Handle<T> {
    /// The index this handle stands for, as a mathematical integer.
    pub closed spec fn idx(self) -> int {
        self.index as int
    }

    pub(crate) fn make(index: usize) -> (h: Self)
        ensures
            h.idx() == index as int,
    {
        Handle { index, marker: PhantomData }
    }

    /// The raw index of this handle within its arena.
    pub fn index(&self) -> (r: usize)
        ensures
            r as int == self.idx(),
    {
        self.index
    }
}

impl<T> Clone for Handle<T> {
    fn clone(&self) -> (r: Self)
        ensures
            r == *self,
    {
        Handle { index: self.index, marker: self.marker }
    }
}

impl<T> Copy for Handle<T> {

}

impl<T> PartialEq for Handle<T> {
    fn eq(&self, other: &Self) -> (r: bool)
    {
        self.index == other.index
    }
}

impl<T> Eq for Handle<T> {

}

impl<T> vstd::std_specs::cmp::PartialEqSpecImpl for Handle<T> {
    open spec fn obeys_eq_spec() -> bool {
        true
    }

    open spec fn eq_spec(&self, other: &Self) -> bool {
        self.idx() == other.idx()
    }
}

/// The handle with the given index, for specifications that need to name one.
pub closed spec fn spec_handle<T>(i: int) -> Handle<T> {
    Handle { index: i as usize, marker: PhantomData }
}

/// What `spec_handle` answers, and that every handle is one.
pub broadcast proof fn lemma_spec_handle<T>(i: int)
    ensures
        0 <= i <= usize::MAX ==> (#[trigger] spec_handle::<T>(i)).idx() == i,
{
}

pub broadcast proof fn lemma_spec_handle_roundtrip<T>(h: Handle<T>)
    ensures
        #[trigger] spec_handle::<T>(h.idx()) == h,
{
}

/// A handle's index is never negative.
pub broadcast proof fn lemma_handle_idx_nonneg<T>(h: Handle<T>)
    ensures
        #[trigger] h.idx() >= 0,
{
}

/// Two handles into the same arena with the same index are the same handle.
pub proof fn lemma_handle_ext<T>(a: Handle<T>, b: Handle<T>)
    requires
        a.idx() == b.idx(),
    ensures
        a == b,
{
}

/// Structural likeness: the equivalence by which interning arenas deduplicate.
/// For types with text fields it compares the text's characters, not the
/// allocation, so two separately built descriptors can be alike.
pub trait Alike: Sized {
    /// What it means for two values to be structurally the same.
    spec fn alike(self, other: Self) -> bool;

    /// `alike` is an equivalence relation.
    proof fn alike_equivalence(a: Self, b: Self, c: Self)
        ensures
            a.alike(a),
            a.alike(b) == b.alike(a),
            a.alike(b) && b.alike(c) ==> a.alike(c),
    ;

    /// Decides `alike`.
    fn alike_check(&self, other: &Self) -> (r: bool)
        ensures
            r == self.alike(*other),
    ;
}

/// An append-only indexed store of values of one type.
pub struct Arena<T> {
    data: Vec<T>,
}

impl<T> View for Arena<T> {
    type V = Seq<T>;

    closed spec fn view(&self) -> Seq<T> {
        self.data@
    }
}

/// No two entries of the sequence are alike: every handle is canonical.
pub open spec fn interned<T: Alike>(s: Seq<T>) -> bool {
    forall|i: int, j: int| 0 <= i < j < s.len() ==> !(#[trigger] s[i]).alike(#[trigger] s[j])
}

/// The first index of `s` whose entry is alike to `v` is `n`.
pub open spec fn first_alike<T: Alike>(s: Seq<T>, v: T, n: int) -> bool {
    &&& 0 <= n < s.len()
    &&& s[n].alike(v)
    &&& forall|j: int| 0 <= j < n ==> !(#[trigger] s[j]).alike(v)
}

impl<T> Arena<T> {
    pub fn new() -> (a: Self)
        ensures
            a@ == Seq::<T>::empty(),
    {
        Arena { data: Vec::new() }
    }

    pub fn len(&self) -> (n: usize)
        ensures
            n == self@.len(),
    {
        self.data.len()
    }

    /// The handle standing for a position that is already occupied.
    pub fn handle_at(&self, index: usize) -> (h: Handle<T>)
        requires
            index < self@.len(),
        ensures
            h.idx() == index as int,
    {
        Handle::make(index)
    }

    /// Borrow the entry a handle stands for.
    pub fn get(&self, h: Handle<T>) -> (r: &T)
        requires
            0 <= h.idx() < self@.len(),
        ensures
            *r == self@[h.idx()],
    {
        &self.data[h.index]
    }

    /// Always inserts, returning a fresh, never-reused, strictly increasing
    /// handle.
    pub fn append(&mut self, v: T) -> (h: Handle<T>)
        ensures
            final(self)@ == old(self)@.push(v),
            h.idx() == old(self)@.len(),
    {
        let index = self.data.len();
        self.data.push(v);
        Handle::make(index)
    }
}

/// What `fetch_or_append` guarantees: `s0` is the store before, `s1` after,
/// and `h` the answered index. Either an entry alike to `v` already existed
/// and nothing changed, or `v` was appended; in both cases `h` is the first
/// entry alike to `v`.
pub open spec fn intern_post<T: Alike>(s0: Seq<T>, s1: Seq<T>, v: T, h: int) -> bool {
    &&& (exists|i: int| first_alike(s0, v, i)) ==> s1 == s0 && first_alike(s0, v, h)
    &&& !(exists|i: int| first_alike(s0, v, i)) ==> s1 == s0.push(v) && h == s0.len()
    &&& first_alike(s1, v, h)
}

impl<T: Alike> Arena<T> {
    /// Inserts unless a structurally alike entry already exists; either way
    /// the returned handle is the first entry alike to `v`.
    pub fn fetch_or_append(&mut self, v: T) -> (h: Handle<T>)
        ensures
            intern_post(old(self)@, final(self)@, v, h.idx()),
    {
        let n = self.data.len();
        let mut i: usize = 0;
        while i < n
            invariant
                n == self.data@.len(),
                0 <= i <= n,
                forall|j: int| 0 <= j < i ==> !(#[trigger] self.data@[j]).alike(v),
            decreases n - i,
        {
            if self.data[i].alike_check(&v) {
                proof {
                    assert(first_alike(old(self)@, v, i as int));
                }
                return Handle::make(i);
            }
            i = i + 1;
        }
        proof {
            T::alike_equivalence(v, v, v);
        }
        let index = self.data.len();
        self.data.push(v);
        Handle::make(index)
    }
}

/// Interning is idempotent: asking twice for alike values gives the same
/// handle, and the second ask changes nothing. Stated over the `fetch_or_append`
/// contract: `s0` is the store before the first ask, `s1` after it (answer
/// `h1`), `s2` after the second (answer `h2`).
pub proof fn lemma_intern_idempotent<T: Alike>(s0: Seq<T>, s1: Seq<T>, s2: Seq<T>, v: T, w: T, h1: int, h2: int)
    requires
        v.alike(w),
        intern_post(s0, s1, v, h1),
        intern_post(s1, s2, w, h2),
    ensures
        h1 == h2,
        s2 == s1,
{
    T::alike_equivalence(s1[h1], v, w);
    assert(s1[h1].alike(w));
    lemma_some_alike_has_first(s1, w, h1);
    assert(s2 == s1);
    // h2 and h1 are both the first index alike to their value; show each
    // bounds the other.
    if h1 < h2 {
        assert(!s1[h1].alike(w));
    } else if h2 < h1 {
        T::alike_equivalence(s1[h2], w, v);
        T::alike_equivalence(w, v, v);
        assert(s1[h2].alike(v));
        assert(!s1[h2].alike(v));
    }
}

/// If any entry is alike to `w`, some entry is the first one alike to `w`.
proof fn lemma_some_alike_has_first<T: Alike>(s: Seq<T>, w: T, j: int)
    requires
        0 <= j < s.len(),
        s[j].alike(w),
    ensures
        exists|i: int| first_alike(s, w, i),
    decreases j,
{
    if forall|k: int| 0 <= k < j ==> !(#[trigger] s[k]).alike(w) {
        assert(first_alike(s, w, j));
    } else {
        let k = choose|k: int| 0 <= k < j && (#[trigger] s[k]).alike(w);
        lemma_some_alike_has_first(s, w, k);
    }
}

/// `fetch_or_append` never creates a duplicate: a store with no two alike
/// entries still has none afterwards.
pub proof fn lemma_intern_preserves_interned<T: Alike>(s0: Seq<T>, s1: Seq<T>, v: T, h: int)
    requires
        interned(s0),
        intern_post(s0, s1, v, h),
    ensures
        interned(s1),
{
    if exists|i: int| first_alike(s0, v, i) {
    } else {
        assert forall|i: int, j: int| 0 <= i < j < s1.len() implies !(#[trigger] s1[i]).alike(
            #[trigger] s1[j],
        ) by {
            if j < s0.len() {
                assert(s1[i] == s0[i] && s1[j] == s0[j]);
            } else {
                assert(s1[j] == v);
                assert(first_alike(s1, v, h) && i < h);
                assert(!s1[i].alike(v));
            }
        }
    }
}

/// Values that are not alike get distinct handles: after any two asks, the
/// answers differ.
pub proof fn lemma_intern_distinct<T: Alike>(s0: Seq<T>, s1: Seq<T>, s2: Seq<T>, v: T, w: T, h1: int, h2: int)
    requires
        !v.alike(w),
        intern_post(s0, s1, v, h1),
        intern_post(s1, s2, w, h2),
    ensures
        h1 != h2,
{
    if h1 == h2 {
        assert(s2[h1] == s1[h1]);
        T::alike_equivalence(s1[h1], v, w);
        T::alike_equivalence(v, s1[h1], w);
    }
}

} // verus!
