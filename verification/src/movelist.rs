//! Lists of moves, kept in a small vector that holds the usual number of
//! moves of a position without a heap allocation.
use vstd::prelude::*;
use smallvec::SmallVec;
use crate::chess_move::OxideMove;

verus! {

/// How many moves fit in a list without a heap allocation.
pub const BASE_MOVES_CAPACITY: usize = 50;

/// The length below which a list can always take one more move.
pub const MOVE_LIST_LIMIT: usize = 0x100_0000;

/// A list of moves.
#[verifier::external_body]
pub struct MoveList {
    inner: SmallVec<[OxideMove; 50]>,
}

/// The moves that a list holds, in their order.
pub uninterp spec fn move_list_contents(list: MoveList) -> Seq<OxideMove>;

impl View for MoveList {
    type V = Seq<OxideMove>;

    open spec fn view(&self) -> Seq<OxideMove> {
        move_list_contents(*self)
    }
}

/// An empty list. This is `SmallVec::new`, which makes a vector of length
/// zero.
#[verifier::external_body]
fn list_new() -> (r: MoveList)
    ensures
        move_list_contents(r) == Seq::<OxideMove>::empty(),
{
    MoveList { inner: SmallVec::new() }
}

/// Appends a move. This is `SmallVec::push`, which writes the value behind
/// the last item and adds one to the length, and which grows the vector
/// first where it is full; it panics only where the new capacity cannot be
/// computed or laid out, which the bound on the length rules out.
#[verifier::external_body]
fn list_push(list: &mut MoveList, value: OxideMove)
    requires
        move_list_contents(*old(list)).len() < MOVE_LIST_LIMIT,
    ensures
        move_list_contents(*final(list)) == move_list_contents(*old(list)).push(value),
{
    list.inner.push(value)
}

/// The number of moves. This is `SmallVec::len`.
#[verifier::external_body]
fn list_len(list: &MoveList) -> (r: usize)
    ensures
        r == move_list_contents(*list).len(),
{
    list.inner.len()
}

/// The move at place `index`. This is the indexing of `SmallVec`, which
/// reads the vector as a slice of its items; it panics where the index is
/// not below the length.
#[verifier::external_body]
fn list_get(list: &MoveList, index: usize) -> (r: OxideMove)
    requires
        index < move_list_contents(*list).len(),
    ensures
        r == move_list_contents(*list)[index as int],
{
    list.inner[index]
}

/// Makes room for `additional` more moves. This is `SmallVec::reserve`,
/// which leaves the items as they are; it panics only where the new
/// capacity overflows, which the bound rules out.
#[verifier::external_body]
fn list_reserve(list: &mut MoveList, additional: usize)
    requires
        move_list_contents(*old(list)).len() + additional < MOVE_LIST_LIMIT,
    ensures
        move_list_contents(*final(list)) == move_list_contents(*old(list)),
{
    list.inner.reserve(additional)
}

impl MoveList {
    /// An empty list.
    pub fn new() -> (r: MoveList)
        ensures
            r@ == Seq::<OxideMove>::empty(),
    {
        list_new()
    }

    /// Appends `value` to the list, which must be below its limit.
    pub fn push(&mut self, value: OxideMove)
        requires
            old(self)@.len() < MOVE_LIST_LIMIT,
        ensures
            final(self)@ == old(self)@.push(value),
    {
        list_push(self, value)
    }

    /// Makes room for `additional` more moves, so that they can be appended
    /// without the list growing again. The moves of the list stay as they
    /// are; how much room a list has is no part of what it holds.
    pub fn reserve(&mut self, additional: usize)
        requires
            old(self)@.len() + additional < MOVE_LIST_LIMIT,
        ensures
            final(self)@ == old(self)@,
    {
        list_reserve(self, additional)
    }

    /// The number of moves in the list.
    pub fn len(&self) -> (r: usize)
        ensures
            r == self@.len(),
    {
        list_len(self)
    }

    /// Whether the list holds no move.
    pub fn is_empty(&self) -> (r: bool)
        ensures
            r == (self@.len() == 0),
    {
        list_len(self) == 0
    }

    /// The move at place `index`, or nothing where the list is shorter.
    pub fn get(&self, index: usize) -> (r: Option<OxideMove>)
        ensures
            index < self@.len() ==> r == Some(self@[index as int]),
            index >= self@.len() ==> r.is_none(),
    {
        if index < list_len(self) {
            Some(list_get(self, index))
        } else {
            None
        }
    }

    /// Whether the list holds `value`.
    pub fn contains(&self, value: &OxideMove) -> (r: bool)
        ensures
            r == self@.contains(*value),
    {
        let n = list_len(self);
        let mut i: usize = 0;
        while i < n
            invariant
                i <= n,
                n == self@.len(),
                forall|k: int| 0 <= k < i ==> self@[k] != *value,
            decreases n - i,
        {
            let m = list_get(self, i);
            if m == *value {
                return true;
            }
            i = i + 1;
        }
        false
    }

    /// The moves of the list as a vector.
    pub fn to_vec(&self) -> (r: Vec<OxideMove>)
        ensures
            r@ == self@,
    {
        let n = list_len(self);
        let mut out: Vec<OxideMove> = Vec::new();
        let mut i: usize = 0;
        while i < n
            invariant
                i <= n,
                n == self@.len(),
                out@ == self@.subrange(0, i as int),
            decreases n - i,
        {
            out.push(list_get(self, i));
            assert(out@ =~= self@.subrange(0, i + 1));
            i = i + 1;
        }
        assert(out@ =~= self@);
        out
    }
}

} // verus!
