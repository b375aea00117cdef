//! The fixed-capacity buffers that digits are returned in.
//!
//! The buffers are `tinyvec::ArrayVec`s of bytes. Verus cannot look inside
//! one, so what a buffer holds is given a name here, and the few operations
//! the library performs on a buffer are stated over that name and trusted.

use tinyvec::ArrayVec;
use vstd::prelude::*;

verus! {

#[verifier::external_type_specification]
#[verifier::external_body]
#[verifier::reject_recursive_types(A)]
pub struct ExArrayVec<A>(ArrayVec<A>);

/// The items that a buffer of capacity 4 holds, oldest first: the first
/// `len()` slots of its backing array.
pub uninterp spec fn held_by_4(v: ArrayVec<[u8; 4]>) -> Seq<u8>;

/// The items that a buffer of capacity 8 holds, oldest first.
pub uninterp spec fn held_by_8(v: ArrayVec<[u8; 8]>) -> Seq<u8>;

/// The items that a buffer of capacity 16 holds, oldest first.
pub uninterp spec fn held_by_16(v: ArrayVec<[u8; 16]>) -> Seq<u8>;

/// The items that a buffer of capacity 32 holds, oldest first.
pub uninterp spec fn held_by_32(v: ArrayVec<[u8; 32]>) -> Seq<u8>;

/// The items that a buffer of capacity 64 holds, oldest first.
pub uninterp spec fn held_by_64(v: ArrayVec<[u8; 64]>) -> Seq<u8>;

/// A buffer of bytes, seen as the sequence of the items it holds.
pub trait Contents {
    /// The items held, oldest first.
    spec fn contents(&self) -> Seq<u8>;

    /// The number of items that a buffer of this type has room for.
    spec fn capacity() -> nat;
}

impl Contents for ArrayVec<[u8; 4]> {
    open spec fn contents(&self) -> Seq<u8> {
        held_by_4(*self)
    }

    open spec fn capacity() -> nat {
        4
    }
}

impl Contents for ArrayVec<[u8; 8]> {
    open spec fn contents(&self) -> Seq<u8> {
        held_by_8(*self)
    }

    open spec fn capacity() -> nat {
        8
    }
}

impl Contents for ArrayVec<[u8; 16]> {
    open spec fn contents(&self) -> Seq<u8> {
        held_by_16(*self)
    }

    open spec fn capacity() -> nat {
        16
    }
}

impl Contents for ArrayVec<[u8; 32]> {
    open spec fn contents(&self) -> Seq<u8> {
        held_by_32(*self)
    }

    open spec fn capacity() -> nat {
        32
    }
}

impl Contents for ArrayVec<[u8; 64]> {
    open spec fn contents(&self) -> Seq<u8> {
        held_by_64(*self)
    }

    open spec fn capacity() -> nat {
        64
    }
}

/// `ArrayVec::new` for capacity 4. Trusted: the new buffer holds nothing.
#[verifier::external_body]
pub(crate) fn empty_4() -> (v: ArrayVec<[u8; 4]>)
    ensures
        held_by_4(v) == Seq::<u8>::empty(),
{
    ArrayVec::new()
}

/// `ArrayVec::new` for capacity 8. Trusted: the new buffer holds nothing.
#[verifier::external_body]
pub(crate) fn empty_8() -> (v: ArrayVec<[u8; 8]>)
    ensures
        held_by_8(v) == Seq::<u8>::empty(),
{
    ArrayVec::new()
}

/// `ArrayVec::new` for capacity 16. Trusted: the new buffer holds nothing.
#[verifier::external_body]
pub(crate) fn empty_16() -> (v: ArrayVec<[u8; 16]>)
    ensures
        held_by_16(v) == Seq::<u8>::empty(),
{
    ArrayVec::new()
}

/// `ArrayVec::new` for capacity 32. Trusted: the new buffer holds nothing.
#[verifier::external_body]
pub(crate) fn empty_32() -> (v: ArrayVec<[u8; 32]>)
    ensures
        held_by_32(v) == Seq::<u8>::empty(),
{
    ArrayVec::new()
}

/// `ArrayVec::new` for capacity 64. Trusted: the new buffer holds nothing.
#[verifier::external_body]
pub(crate) fn empty_64() -> (v: ArrayVec<[u8; 64]>)
    ensures
        held_by_64(v) == Seq::<u8>::empty(),
{
    ArrayVec::new()
}

/// `ArrayVec::push`. Trusted: the item is added behind those already held.
/// `push` panics when the backing array is full, and keeps its length in a
/// `u16`; both are ruled out by `requires`.
#[verifier::external_body]
pub(crate) fn push<const N: usize>(v: &mut ArrayVec<[u8; N]>, item: u8)
    where ArrayVec<[u8; N]>: Contents
    requires
        old(v).contents().len() < N,
        N <= u16::MAX,
    ensures
        final(v).contents() == old(v).contents().push(item),
{
    v.push(item)
}

/// `ArrayVec`'s `Extend::extend`, which pushes each item in turn. Trusted:
/// the items of `items` are added, in order, behind those already held.
/// It panics as `push` does, so there must be room for all of `items`.
#[verifier::external_body]
pub(crate) fn extend<const N: usize, const K: usize>(v: &mut ArrayVec<[u8; N]>, items: [u8; K])
    where ArrayVec<[u8; N]>: Contents
    requires
        old(v).contents().len() + K <= N,
        N <= u16::MAX,
    ensures
        final(v).contents() == old(v).contents() + items@,
{
    v.extend(items)
}

/// The slice method `reverse`, reached through `ArrayVec`'s `DerefMut`, which
/// hands out exactly the items held. Trusted: the items held are put in the
/// opposite order.
#[verifier::external_body]
pub(crate) fn reverse<const N: usize>(v: &mut ArrayVec<[u8; N]>)
    where ArrayVec<[u8; N]>: Contents
    ensures
        final(v).contents() == old(v).contents().reverse(),
{
    v.reverse()
}

} // verus!
