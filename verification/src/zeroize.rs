//! Clearing secrets from memory.
//!
//! The writes that clear memory are those of the `zeroize` crate, which the
//! compiler may not optimise away. Its trait cannot bound a type that Verus
//! reads, so that [`Zeroizable`] stands for it here: a type that holds secrets
//! implements it by handing the work to that crate.

use vstd::prelude::*;

verus! {

/// A value that can be cleared from memory.
pub trait Zeroizable {
    /// Whether the value has been cleared: whether it holds only zeros, or,
    /// for a collection, only elements that have been cleared.
    open spec fn is_zeroized(&self) -> bool {
        arbitrary()
    }

    /// Clears the value from memory.
    fn zeroize(&mut self)
        ensures
            final(self).is_zeroized(),
    ;
}

/// Calls `zeroize::Zeroize::zeroize` on a `u8`: a volatile write of the
/// default value of the type, which is 0.
#[verifier::external_body]
fn zeroize_u8(value: &mut u8)
    ensures
        *final(value) == 0,
{
    zeroize::Zeroize::zeroize(value);
}

/// Calls `zeroize::Zeroize::zeroize` on a `u16`: a volatile write of the
/// default value of the type, which is 0.
#[verifier::external_body]
fn zeroize_u16(value: &mut u16)
    ensures
        *final(value) == 0,
{
    zeroize::Zeroize::zeroize(value);
}

/// Calls `zeroize::Zeroize::zeroize` on a `u32`: a volatile write of the
/// default value of the type, which is 0.
#[verifier::external_body]
fn zeroize_u32(value: &mut u32)
    ensures
        *final(value) == 0,
{
    zeroize::Zeroize::zeroize(value);
}

/// Calls `zeroize::Zeroize::zeroize` on a `u64`: a volatile write of the
/// default value of the type, which is 0.
#[verifier::external_body]
fn zeroize_u64(value: &mut u64)
    ensures
        *final(value) == 0,
{
    zeroize::Zeroize::zeroize(value);
}

/// Calls `zeroize::Zeroize::zeroize` on an array of bytes, which clears each
/// byte in turn with a volatile write of 0.
#[verifier::external_body]
fn zeroize_array<const N: usize>(array: &mut [u8; N])
    ensures
        forall|i: int| 0 <= i < N ==> final(array)@[i] == 0,
{
    zeroize::Zeroize::zeroize(array);
}

/// Calls `zeroize::Zeroize::zeroize` on the spare capacity of `vec`, the part
/// of its allocation behind its last element, which fills that memory with
/// zeros. The elements and their number stay as they are.
#[verifier::external_body]
pub(crate) fn zeroize_spare_capacity<T>(vec: &mut Vec<T>)
    ensures
        final(vec)@ == old(vec)@,
{
    zeroize::Zeroize::zeroize(vec.spare_capacity_mut());
}

impl Zeroizable for u8 {
    open spec fn is_zeroized(&self) -> bool {
        *self == 0
    }

    fn zeroize(&mut self) {
        zeroize_u8(self);
    }
}

impl Zeroizable for u16 {
    open spec fn is_zeroized(&self) -> bool {
        *self == 0
    }

    fn zeroize(&mut self) {
        zeroize_u16(self);
    }
}

impl Zeroizable for u32 {
    open spec fn is_zeroized(&self) -> bool {
        *self == 0
    }

    fn zeroize(&mut self) {
        zeroize_u32(self);
    }
}

impl Zeroizable for u64 {
    open spec fn is_zeroized(&self) -> bool {
        *self == 0
    }

    fn zeroize(&mut self) {
        zeroize_u64(self);
    }
}

impl<const N: usize> Zeroizable for [u8; N] {
    open spec fn is_zeroized(&self) -> bool {
        forall|i: int| 0 <= i < N ==> self@[i] == 0
    }

    fn zeroize(&mut self) {
        zeroize_array(self);
    }
}

/// Clears each of `elements` in turn, and keeps them in place.
pub fn zeroize_elements<T: Zeroizable>(elements: &mut Vec<T>)
    ensures
        final(elements)@.len() == old(elements)@.len(),
        forall|i: int| 0 <= i < final(elements)@.len() ==> final(elements)@[i].is_zeroized(),
{
    let length: usize = elements.len();
    let mut index: usize = 0;
    while index < length
        invariant
            index <= length,
            elements@.len() == length,
            forall|i: int| 0 <= i < index ==> elements@[i].is_zeroized(),
        decreases length - index,
    {
        elements[index].zeroize();
        index = index + 1;
    }
}

/// Clears `elements` from memory: each element in turn, then the spare
/// capacity of the allocation, and leaves the vector empty. Returns, for
/// proofs, the elements as they were once cleared and before they left the
/// vector.
pub fn zeroize_vector<T: Zeroizable>(elements: &mut Vec<T>) -> (cleared: Ghost<Seq<T>>)
    ensures
        final(elements)@.len() == 0,
        cleared@.len() == old(elements)@.len(),
        forall|i: int| 0 <= i < cleared@.len() ==> cleared@[i].is_zeroized(),
{
    zeroize_elements(elements);
    let ghost cleared = elements@;
    zeroize_spare_capacity(elements);
    elements.clear();
    Ghost(cleared)
}

} // verus!
