//! The list of moves that the generators fill: at most 600 moves, held in
//! an `ArrayVec`.

use vstd::prelude::*;
use arrayvec::ArrayVec;
use crate::moves::Move;

verus! {

/// The type `ArrayVec` of the crate `arrayvec`: a vector of at most `CAP`
/// items that lives in place.  Nothing inside a value is seen here.
#[verifier::external_type_specification]
#[verifier::external_body]
#[verifier::reject_recursive_types(T)]
pub struct ExArrayVec<T, const CAP: usize>(ArrayVec<T, CAP>);

/// What an `ArrayVec` of packed moves holds, first item first.
pub uninterp spec fn packed_items(v: ArrayVec<u32, 600>) -> Seq<u32>;

/// `ArrayVec::new`: the new vector holds nothing.
#[verifier::external_body]
fn packed_new() -> (v: ArrayVec<u32, 600>)
    ensures
        packed_items(v) == Seq::<u32>::empty(),
{
    ArrayVec::new()
}

/// `ArrayVec::len`: the number of items held, which never exceeds the
/// capacity of 600.
#[verifier::external_body]
fn packed_len(v: &ArrayVec<u32, 600>) -> (n: usize)
    ensures
        n == packed_items(*v).len(),
        n <= 600,
{
    v.len()
}

/// `ArrayVec::push` on a vector that is not full: the item is added at the
/// end.
#[verifier::external_body]
fn packed_push(v: &mut ArrayVec<u32, 600>, x: u32)
    requires
        packed_items(*old(v)).len() < 600,
    ensures
        packed_items(*final(v)) == packed_items(*old(v)).push(x),
{
    v.push(x)
}

/// Indexing an `ArrayVec` below its length: the item at that place.
#[verifier::external_body]
fn packed_get(v: &ArrayVec<u32, 600>, i: usize) -> (x: u32)
    requires
        i < packed_items(*v).len(),
    ensures
        x == packed_items(*v)[i as int],
{
    v[i]
}

/// `ArrayVec::clear`: nothing is left.
#[verifier::external_body]
fn packed_clear(v: &mut ArrayVec<u32, 600>)
    ensures
        packed_items(*final(v)) == Seq::<u32>::empty(),
{
    v.clear()
}

/// A list of at most 600 moves.
pub struct MoveArray {
    pub inner: ArrayVec<u32, 600>,
}

/// The first 600 items of `s`.
pub open spec fn capped(s: Seq<Move>) -> Seq<Move> {
    if s.len() <= 600 {
        s
    } else {
        s.subrange(0, 600)
    }
}

/// Capping after adding to a capped list is capping after adding to the
/// whole list.
pub proof fn lemma_capped_add(a: Seq<Move>, b: Seq<Move>)
    ensures
        capped(capped(a) + b) == capped(a + b),
        capped(capped(a)) == capped(a),
        capped(a).len() <= 600,
        a.len() <= 600 ==> capped(a) == a,
{
    assert(capped(capped(a) + b) =~= capped(a + b));
    assert(capped(capped(a)) =~= capped(a));
}

impl MoveArray {
    /// The moves of the list, first move first.
    pub open spec fn view(&self) -> Seq<Move> {
        Seq::new(packed_items(self.inner).len(), |i: int| Move(packed_items(self.inner)[i]))
    }

    /// The empty list.
    pub fn new() -> (r: MoveArray)
        ensures
            r@ == Seq::<Move>::empty(),
    {
        let r: MoveArray = MoveArray { inner: packed_new() };
        assert(r@ =~= Seq::<Move>::empty());
        r
    }

    /// The number of moves in the list.
    pub fn len(&self) -> (n: usize)
        ensures
            n == self@.len(),
            n <= 600,
    {
        packed_len(&self.inner)
    }

    /// Whether the list is empty.
    pub fn is_empty(&self) -> (r: bool)
        ensures
            r == (self@.len() == 0),
    {
        packed_len(&self.inner) == 0
    }

    /// The move at place `i`.
    pub fn get(&self, i: usize) -> (mv: Move)
        requires
            i < self@.len(),
        ensures
            mv == self@[i as int],
    {
        Move(packed_get(&self.inner, i))
    }

    /// Adds `mv` at the end; a list that already holds 600 moves stays as it
    /// is.
    pub fn push(&mut self, mv: Move)
        ensures
            final(self)@ == capped(old(self)@.push(mv)),
            old(self)@.len() < 600 ==> final(self)@ == old(self)@.push(mv),
    {
        if packed_len(&self.inner) < 600 {
            packed_push(&mut self.inner, mv.0);
            assert(self@ =~= old(self)@.push(mv));
        } else {
            assert(self@ =~= capped(old(self)@.push(mv)));
        }
    }

    /// Removes every move.
    pub fn clear(&mut self)
        ensures
            final(self)@ == Seq::<Move>::empty(),
    {
        packed_clear(&mut self.inner);
        assert(self@ =~= Seq::<Move>::empty());
    }

    /// The moves of the list as a vector.
    pub fn to_vec(&self) -> (r: Vec<Move>)
        ensures
            r@ == self@,
    {
        let mut v: Vec<Move> = Vec::new();
        let n: usize = self.len();
        let mut i: usize = 0;
        while i < n
            invariant
                i <= n,
                n == self@.len(),
                v@ == self@.subrange(0, i as int),
            decreases n - i,
        {
            v.push(self.get(i));
            assert(v@ =~= self@.subrange(0, i + 1));
            i += 1;
        }
        assert(v@ =~= self@);
        v
    }
}

/// A list to which the generators add moves: the bounded list of 600
/// moves, or a vector without a bound for the places where no move may be
/// lost.
pub trait MoveSink: Sized {
    /// The moves that the list holds, first move first.
    spec fn held(&self) -> Seq<Move>;

    /// What a list of this kind keeps of the moves `s`.
    spec fn kept(s: Seq<Move>) -> Seq<Move>;

    /// Keeping, adding and keeping again is adding and keeping once.
    proof fn lemma_kept(a: Seq<Move>, b: Seq<Move>)
        ensures
            Self::kept(Self::kept(a) + b) == Self::kept(a + b),
    ;

    /// Adds `mv` at the end, as far as the list keeps it.
    fn put(&mut self, mv: Move)
        ensures
            final(self).held() == Self::kept(old(self).held().push(mv)),
    ;
}

impl MoveSink for MoveArray {
    open spec fn held(&self) -> Seq<Move> {
        self@
    }

    open spec fn kept(s: Seq<Move>) -> Seq<Move> {
        capped(s)
    }

    proof fn lemma_kept(a: Seq<Move>, b: Seq<Move>) {
        lemma_capped_add(a, b);
    }

    fn put(&mut self, mv: Move) {
        self.push(mv);
    }
}

impl MoveSink for Vec<Move> {
    open spec fn held(&self) -> Seq<Move> {
        self@
    }

    open spec fn kept(s: Seq<Move>) -> Seq<Move> {
        s
    }

    proof fn lemma_kept(a: Seq<Move>, b: Seq<Move>) {
    }

    fn put(&mut self, mv: Move) {
        self.push(mv);
    }
}

} // verus!
