//! Vectors for secrets: on the wire they are what the other vectors are, and
//! they are cleared from memory when they are dropped.

use vstd::prelude::*;
use vstd::std_specs::convert::FromSpecImpl;
use vstd::std_specs::iter::IteratorSpec;
use vstd::std_specs::slice::into_iter_elts;
use crate::codec::{
    announces_its_size, decodes_uniquely, encodes_nonempty, round_trips, round_trips_at,
    Deserialize, Serialize, TlsSize,
};
use crate::error::{Error, ErrorView};
use crate::laws::{
    lemma_vector_announces_its_size, lemma_vector_decodes_uniquely, lemma_vector_round_trips,
};
use crate::primitives::lemma_be_bytes_len;
use crate::vector::{
    deserialize_secret_vector, serialize_vector, spec_deserialize_vector, spec_elements_len,
    spec_retained, spec_serialize_vector, spec_slice_holds, spec_vector_decodes_to, spec_vector_len,
    vector_serialized_len,
};
use crate::zeroize::{zeroize_elements, zeroize_spare_capacity, Zeroizable};

verus! {

/// A vector of secrets whose length field has one byte on the wire.
/// It is cleared from memory when it is dropped, and what was decoded of it
/// when its decoding fails.
#[derive(Clone, Debug, PartialEq, Eq, Hash)]
pub struct SecretTlsVecU8<T: Zeroizable> {
    vec: Vec<T>,
}

impl<T: Zeroizable> View for SecretTlsVecU8<T> {
    type V = Seq<T>;

    closed spec fn view(&self) -> Seq<T> {
        self.vec@
    }
}

impl<T: Zeroizable> SecretTlsVecU8<T> {
    /// Makes a vector of the elements of `vec`.
    pub fn new(vec: Vec<T>) -> (res: Self)
        ensures
            res@ == vec@,
    {
        Self { vec }
    }

    /// The number of elements.
    pub fn len(&self) -> (len: usize)
        ensures
            len == self@.len(),
    {
        self.vec.len()
    }

    /// The elements as a slice.
    pub fn as_slice(&self) -> (slice: &[T])
        ensures
            slice@ == self@,
    {
        self.vec.as_slice()
    }

    /// Whether the vector has no element.
    pub fn is_empty(&self) -> (empty: bool)
        ensures
            empty == (self@.len() == 0),
    {
        self.vec.len() == 0
    }

    /// Gives the elements up as a `Vec`.
    pub fn into_vec(self) -> (vec: Vec<T>)
        ensures
            vec@ == self@,
    {
        let mut this = self;
        let mut vec: Vec<T> = Vec::new();
        std::mem::swap(&mut vec, &mut this.vec);
        vec
    }

    /// Adds `value` as the last element.
    pub fn push(&mut self, value: T)
        ensures
            final(self)@ == old(self)@.push(value),
    {
        self.vec.push(value);
    }

    /// Takes the last element off, if there is one.
    pub fn pop(&mut self) -> (value: Option<T>)
        ensures
            match value {
                Some(last) => old(self)@.len() > 0 && last == old(self)@.last() && final(self)@
                    == old(self)@.drop_last(),
                None => old(self)@.len() == 0 && final(self)@ == old(self)@,
            },
    {
        self.vec.pop()
    }

    /// The element at `index`, if there is one.
    pub fn get(&self, index: usize) -> (element: Option<&T>)
        ensures
            match element {
                Some(found) => index < self@.len() && *found == self@[index as int],
                None => index >= self@.len(),
            },
    {
        if index < self.vec.len() {
            Some(&self.vec[index])
        } else {
            None
        }
    }

    /// An iterator over the elements, from the first to the last.
    pub fn iter(&self) -> (iter: std::slice::Iter<'_, T>)
        ensures
            into_iter_elts(iter) == self@,
            IteratorSpec::decrease(&iter) is Some,
            IteratorSpec::initial_value_relation(&iter, &iter),
    {
        self.vec.as_slice().iter()
    }

    /// Keeps the elements for which `keep_it` returns `true`, in their order,
    /// and drops the others. `keep_it` is asked once for each element, from
    /// the first to the last.
    ///
    /// The elements stay in the allocation they are in. An element that is
    /// dropped is cleared first, and so is, at the end, the spare capacity of
    /// the allocation, which holds what the moves left behind.
    pub fn retain<F: Fn(&T) -> bool>(&mut self, keep_it: F)
        requires
            forall|element: &T| call_requires(keep_it, (element,)),
        ensures
            exists|kept: Seq<bool>|
                {
                    &&& kept.len() == old(self)@.len()
                    &&& forall|i: int|
                        0 <= i < kept.len() ==> call_ensures(
                            keep_it,
                            (&old(self)@[i],),
                            #[trigger] kept[i],
                        )
                    &&& final(self)@ == spec_retained(old(self)@, kept)
                },
    {
        let ghost all = self.vec@;
        let ghost mut kept: Seq<bool> = Seq::empty();
        let mut index: usize = 0;
        assert(all.skip(0) =~= all);
        assert(all.take(0) =~= Seq::<T>::empty());
        while index < self.vec.len()
            invariant
                kept.len() <= all.len(),
                forall|i: int|
                    0 <= i < kept.len() ==> call_ensures(keep_it, (&all[i],), #[trigger] kept[i]),
                index == spec_retained(all.take(kept.len() as int), kept).len(),
                self.vec@ == spec_retained(all.take(kept.len() as int), kept) + all.skip(
                    kept.len() as int,
                ),
                forall|element: &T| call_requires(keep_it, (element,)),
            decreases all.len() - kept.len(),
        {
            let ghost count = kept.len() as int;
            let ghost front = spec_retained(all.take(count), kept);
            assert(self.vec@.len() == front.len() + (all.len() - count));
            assert(self.vec@[index as int] == all[count]);
            let keep: bool = keep_it(&self.vec[index]);
            proof {
                assert(all.take(count + 1).drop_last() =~= all.take(count));
                assert(kept.push(keep).drop_last() =~= kept);
                kept = kept.push(keep);
            }
            if keep {
                assert(self.vec@ =~= front.push(all[count]) + all.skip(count + 1));
                index = index + 1;
            } else {
                let mut dropped: T = self.vec.remove(index);
                dropped.zeroize();
                assert(self.vec@ =~= front + all.skip(count + 1));
            }
        }
        assert(all.take(kept.len() as int) =~= all);
        assert(self.vec@ =~= spec_retained(all, kept));
        zeroize_spare_capacity(&mut self.vec);
    }
    /// The number of bytes of the length field.
    pub fn len_len() -> (len_len: usize)
        ensures
            len_len == 1,
    {
        1
    }
}

impl<T: Zeroizable + Clone> SecretTlsVecU8<T> {
    /// Makes a vector of clones of the elements of `slice`.
    pub fn from_slice(slice: &[T]) -> (res: Self)
        ensures
            res@.len() == slice@.len(),
            forall|i: int| 0 <= i < slice@.len() ==> cloned(slice@[i], #[trigger] res@[i]),
    {
        let mut vec: Vec<T> = Vec::with_capacity(slice.len());
        vec.extend_from_slice(slice);
        Self { vec }
    }

    /// Clones of the elements as a `Vec`.
    pub fn to_vec(&self) -> (vec: Vec<T>)
        ensures
            vec@.len() == self@.len(),
            forall|i: int| 0 <= i < self@.len() ==> cloned(self@[i], #[trigger] vec@[i]),
    {
        self.vec.clone()
    }
}

impl<T: Zeroizable> Default for SecretTlsVecU8<T> {
    /// The vector without elements.
    fn default() -> (res: Self)
        ensures
            res@.len() == 0,
    {
        Self { vec: Vec::new() }
    }
}

impl<T: Zeroizable> From<Vec<T>> for SecretTlsVecU8<T> {
    fn from(vec: Vec<T>) -> (res: Self)
        ensures
            res@ == vec@,
    {
        Self { vec }
    }
}

impl<T: Zeroizable> FromSpecImpl<Vec<T>> for SecretTlsVecU8<T> {
    open spec fn obeys_from_spec() -> bool {
        true
    }

    closed spec fn from_spec(vec: Vec<T>) -> Self {
        SecretTlsVecU8 { vec }
    }
}

impl<T: Zeroizable + Clone> From<&[T]> for SecretTlsVecU8<T> {
    fn from(slice: &[T]) -> (res: Self)
        ensures
            res@.len() == slice@.len(),
            forall|i: int| 0 <= i < slice@.len() ==> cloned(slice@[i], #[trigger] res@[i]),
    {
        Self::from_slice(slice)
    }
}

impl<T: Zeroizable + Clone> FromSpecImpl<&[T]> for SecretTlsVecU8<T> {
    /// A clone need not equal what it was made of, so that no function of
    /// the slice gives the result.
    open spec fn obeys_from_spec() -> bool {
        false
    }

    open spec fn from_spec(slice: &[T]) -> Self {
        arbitrary()
    }
}

impl<T: Zeroizable> From<SecretTlsVecU8<T>> for Vec<T> {
    fn from(vector: SecretTlsVecU8<T>) -> (res: Self)
        ensures
            res@ == vector@,
    {
        vector.into_vec()
    }
}

impl<T: Zeroizable> FromSpecImpl<SecretTlsVecU8<T>> for Vec<T> {
    /// What is handed out may be another `Vec` than the one held, with the
    /// same elements.
    open spec fn obeys_from_spec() -> bool {
        false
    }

    open spec fn from_spec(vector: SecretTlsVecU8<T>) -> Self {
        arbitrary()
    }
}

impl<T: Zeroizable> std::ops::Index<usize> for SecretTlsVecU8<T> {
    type Output = T;

    fn index(&self, index: usize) -> (element: &T)
        ensures
            *element == self@[index as int],
    {
        &self.vec[index]
    }
}

impl<T: Zeroizable> vstd::std_specs::core::IndexSpecImpl<usize> for SecretTlsVecU8<T> {
    open spec fn index_req(&self, index: &usize) -> bool {
        *index < self@.len()
    }
}

impl<T: Zeroizable> std::borrow::Borrow<[T]> for SecretTlsVecU8<T> {
    /// The elements as a slice.
    fn borrow(&self) -> (slice: &[T])
        ensures
            spec_slice_holds(slice, self@),
    {
        self.vec.as_slice()
    }
}

impl<T: Zeroizable + TlsSize> TlsSize for SecretTlsVecU8<T> {
    open spec fn spec_serialized_len(&self) -> nat {
        spec_vector_len(1, self@)
    }

    fn serialized_len(&self) -> (len: usize) {
        vector_serialized_len(1, self.vec.as_slice())
    }
}

impl<T: Zeroizable + Serialize> Serialize for SecretTlsVecU8<T> {
    open spec fn spec_serialize(&self) -> Result<Seq<u8>, ErrorView> {
        spec_serialize_vector(1, self@)
    }

    fn tls_serialize(&self, writer: &mut Vec<u8>) -> (res: Result<usize, Error>) {
        serialize_vector(1, self.vec.as_slice(), writer)
    }
}

impl<T: Zeroizable + TlsSize> TlsSize for &SecretTlsVecU8<T> {
    open spec fn spec_serialized_len(&self) -> nat {
        spec_vector_len(1, self@)
    }

    fn serialized_len(&self) -> (len: usize) {
        vector_serialized_len(1, self.vec.as_slice())
    }
}

impl<T: Zeroizable + Serialize> Serialize for &SecretTlsVecU8<T> {
    open spec fn spec_serialize(&self) -> Result<Seq<u8>, ErrorView> {
        spec_serialize_vector(1, self@)
    }

    fn tls_serialize(&self, writer: &mut Vec<u8>) -> (res: Result<usize, Error>) {
        serialize_vector(1, self.vec.as_slice(), writer)
    }
}

impl<T: Zeroizable + Deserialize> Deserialize for SecretTlsVecU8<T> {
    open spec fn spec_deserialize(bytes: Seq<u8>) -> Result<nat, ErrorView> {
        spec_deserialize_vector::<T>(1, bytes)
    }

    open spec fn decodes_to(bytes: Seq<u8>, value: Self) -> bool {
        spec_vector_decodes_to(1, bytes, value@)
    }

    fn tls_deserialize(bytes: &mut &[u8]) -> (res: Result<Self, Error>) {
        match deserialize_secret_vector::<T>(1, bytes) {
            Ok(vec) => Ok(Self { vec }),
            Err(error) => Err(error),
        }
    }
}

/// Decoding a `SecretTlsVecU8` undoes encoding it, whatever bytes follow the
/// encoding, where decoding an element undoes encoding it and no element has
/// an empty encoding.
pub proof fn lemma_secret_tls_vec_u8_round_trips<T: Zeroizable + Serialize + Deserialize>()
    requires
        round_trips::<T>(),
        encodes_nonempty::<T>(),
    ensures
        round_trips::<SecretTlsVecU8<T>>(),
        encodes_nonempty::<SecretTlsVecU8<T>>(),
{
    assert forall|value: SecretTlsVecU8<T>, rest: Seq<u8>| #[trigger]
        round_trips_at(value, rest) by {
        if value.spec_serialize() is Ok {
            lemma_vector_round_trips(1, value@, rest);
        }
    }
    assert forall|value: SecretTlsVecU8<T>| #[trigger]
        value.spec_serialize() matches Ok(bytes) ==> bytes.len() > 0 by {
        lemma_be_bytes_len(spec_elements_len(value@), 1);
    }
}

/// A `SecretTlsVecU8` of elements that announce the sizes of their encodings
/// announces the size of its own.
pub proof fn lemma_secret_tls_vec_u8_announces_its_size<T: Zeroizable + Serialize>()
    requires
        announces_its_size::<T>(),
    ensures
        announces_its_size::<SecretTlsVecU8<T>>(),
{
    assert forall|value: SecretTlsVecU8<T>| #[trigger]
        value.spec_serialize() matches Ok(bytes) ==> bytes.len()
            == value.spec_serialized_len() by {
        lemma_vector_announces_its_size(1, value@);
    }
}

/// The same bytes never decode to two `SecretTlsVecU8` with different elements,
/// where they never decode to two different elements.
pub proof fn lemma_secret_tls_vec_u8_decodes_uniquely<T: Zeroizable + Deserialize>(
    bytes: Seq<u8>,
    one: SecretTlsVecU8<T>,
    other: SecretTlsVecU8<T>,
)
    requires
        decodes_uniquely::<T>(),
        SecretTlsVecU8::<T>::decodes_to(bytes, one),
        SecretTlsVecU8::<T>::decodes_to(bytes, other),
    ensures
        one@ == other@,
{
    lemma_vector_decodes_uniquely(1, bytes, one@, other@);
}

impl<T: Zeroizable> Zeroizable for SecretTlsVecU8<T> {
    /// Whether every element has been cleared.
    open spec fn is_zeroized(&self) -> bool {
        forall|i: int| 0 <= i < self@.len() ==> self@[i].is_zeroized()
    }

    /// Clears each element in turn, where it is, and the spare capacity of
    /// the allocation. The cleared elements stay in the vector.
    fn zeroize(&mut self)
        ensures
            final(self)@.len() == old(self)@.len(),
    {
        zeroize_elements(&mut self.vec);
        zeroize_spare_capacity(&mut self.vec);
    }
}

impl<T: Zeroizable> Drop for SecretTlsVecU8<T> {
    /// Clears the vector from memory at the end of its life, as
    /// [`Zeroizable::zeroize`] does. Verus asks of a destructor that it opens
    /// no invariant and never unwinds. Of the call of `zeroize` it can show
    /// neither: to Verus the call might unwind and might open invariants. So
    /// it takes both on trust and does not read the body. Both hold as long
    /// as clearing an element does not panic.
    #[verifier::external_body]
    fn drop(&mut self)
        opens_invariants none
        no_unwind
    {
        self.zeroize();
    }
}

/// A vector of secrets whose length field has two bytes on the wire.
/// It is cleared from memory when it is dropped, and what was decoded of it
/// when its decoding fails.
#[derive(Clone, Debug, PartialEq, Eq, Hash)]
pub struct SecretTlsVecU16<T: Zeroizable> {
    vec: Vec<T>,
}

impl<T: Zeroizable> View for SecretTlsVecU16<T> {
    type V = Seq<T>;

    closed spec fn view(&self) -> Seq<T> {
        self.vec@
    }
}

impl<T: Zeroizable> SecretTlsVecU16<T> {
    /// Makes a vector of the elements of `vec`.
    pub fn new(vec: Vec<T>) -> (res: Self)
        ensures
            res@ == vec@,
    {
        Self { vec }
    }

    /// The number of elements.
    pub fn len(&self) -> (len: usize)
        ensures
            len == self@.len(),
    {
        self.vec.len()
    }

    /// The elements as a slice.
    pub fn as_slice(&self) -> (slice: &[T])
        ensures
            slice@ == self@,
    {
        self.vec.as_slice()
    }

    /// Whether the vector has no element.
    pub fn is_empty(&self) -> (empty: bool)
        ensures
            empty == (self@.len() == 0),
    {
        self.vec.len() == 0
    }

    /// Gives the elements up as a `Vec`.
    pub fn into_vec(self) -> (vec: Vec<T>)
        ensures
            vec@ == self@,
    {
        let mut this = self;
        let mut vec: Vec<T> = Vec::new();
        std::mem::swap(&mut vec, &mut this.vec);
        vec
    }

    /// Adds `value` as the last element.
    pub fn push(&mut self, value: T)
        ensures
            final(self)@ == old(self)@.push(value),
    {
        self.vec.push(value);
    }

    /// Takes the last element off, if there is one.
    pub fn pop(&mut self) -> (value: Option<T>)
        ensures
            match value {
                Some(last) => old(self)@.len() > 0 && last == old(self)@.last() && final(self)@
                    == old(self)@.drop_last(),
                None => old(self)@.len() == 0 && final(self)@ == old(self)@,
            },
    {
        self.vec.pop()
    }

    /// The element at `index`, if there is one.
    pub fn get(&self, index: usize) -> (element: Option<&T>)
        ensures
            match element {
                Some(found) => index < self@.len() && *found == self@[index as int],
                None => index >= self@.len(),
            },
    {
        if index < self.vec.len() {
            Some(&self.vec[index])
        } else {
            None
        }
    }

    /// An iterator over the elements, from the first to the last.
    pub fn iter(&self) -> (iter: std::slice::Iter<'_, T>)
        ensures
            into_iter_elts(iter) == self@,
            IteratorSpec::decrease(&iter) is Some,
            IteratorSpec::initial_value_relation(&iter, &iter),
    {
        self.vec.as_slice().iter()
    }

    /// Keeps the elements for which `keep_it` returns `true`, in their order,
    /// and drops the others. `keep_it` is asked once for each element, from
    /// the first to the last.
    ///
    /// The elements stay in the allocation they are in. An element that is
    /// dropped is cleared first, and so is, at the end, the spare capacity of
    /// the allocation, which holds what the moves left behind.
    pub fn retain<F: Fn(&T) -> bool>(&mut self, keep_it: F)
        requires
            forall|element: &T| call_requires(keep_it, (element,)),
        ensures
            exists|kept: Seq<bool>|
                {
                    &&& kept.len() == old(self)@.len()
                    &&& forall|i: int|
                        0 <= i < kept.len() ==> call_ensures(
                            keep_it,
                            (&old(self)@[i],),
                            #[trigger] kept[i],
                        )
                    &&& final(self)@ == spec_retained(old(self)@, kept)
                },
    {
        let ghost all = self.vec@;
        let ghost mut kept: Seq<bool> = Seq::empty();
        let mut index: usize = 0;
        assert(all.skip(0) =~= all);
        assert(all.take(0) =~= Seq::<T>::empty());
        while index < self.vec.len()
            invariant
                kept.len() <= all.len(),
                forall|i: int|
                    0 <= i < kept.len() ==> call_ensures(keep_it, (&all[i],), #[trigger] kept[i]),
                index == spec_retained(all.take(kept.len() as int), kept).len(),
                self.vec@ == spec_retained(all.take(kept.len() as int), kept) + all.skip(
                    kept.len() as int,
                ),
                forall|element: &T| call_requires(keep_it, (element,)),
            decreases all.len() - kept.len(),
        {
            let ghost count = kept.len() as int;
            let ghost front = spec_retained(all.take(count), kept);
            assert(self.vec@.len() == front.len() + (all.len() - count));
            assert(self.vec@[index as int] == all[count]);
            let keep: bool = keep_it(&self.vec[index]);
            proof {
                assert(all.take(count + 1).drop_last() =~= all.take(count));
                assert(kept.push(keep).drop_last() =~= kept);
                kept = kept.push(keep);
            }
            if keep {
                assert(self.vec@ =~= front.push(all[count]) + all.skip(count + 1));
                index = index + 1;
            } else {
                let mut dropped: T = self.vec.remove(index);
                dropped.zeroize();
                assert(self.vec@ =~= front + all.skip(count + 1));
            }
        }
        assert(all.take(kept.len() as int) =~= all);
        assert(self.vec@ =~= spec_retained(all, kept));
        zeroize_spare_capacity(&mut self.vec);
    }
    /// The number of bytes of the length field.
    pub fn len_len() -> (len_len: usize)
        ensures
            len_len == 2,
    {
        2
    }
}

impl<T: Zeroizable + Clone> SecretTlsVecU16<T> {
    /// Makes a vector of clones of the elements of `slice`.
    pub fn from_slice(slice: &[T]) -> (res: Self)
        ensures
            res@.len() == slice@.len(),
            forall|i: int| 0 <= i < slice@.len() ==> cloned(slice@[i], #[trigger] res@[i]),
    {
        let mut vec: Vec<T> = Vec::with_capacity(slice.len());
        vec.extend_from_slice(slice);
        Self { vec }
    }

    /// Clones of the elements as a `Vec`.
    pub fn to_vec(&self) -> (vec: Vec<T>)
        ensures
            vec@.len() == self@.len(),
            forall|i: int| 0 <= i < self@.len() ==> cloned(self@[i], #[trigger] vec@[i]),
    {
        self.vec.clone()
    }
}

impl<T: Zeroizable> Default for SecretTlsVecU16<T> {
    /// The vector without elements.
    fn default() -> (res: Self)
        ensures
            res@.len() == 0,
    {
        Self { vec: Vec::new() }
    }
}

impl<T: Zeroizable> From<Vec<T>> for SecretTlsVecU16<T> {
    fn from(vec: Vec<T>) -> (res: Self)
        ensures
            res@ == vec@,
    {
        Self { vec }
    }
}

impl<T: Zeroizable> FromSpecImpl<Vec<T>> for SecretTlsVecU16<T> {
    open spec fn obeys_from_spec() -> bool {
        true
    }

    closed spec fn from_spec(vec: Vec<T>) -> Self {
        SecretTlsVecU16 { vec }
    }
}

impl<T: Zeroizable + Clone> From<&[T]> for SecretTlsVecU16<T> {
    fn from(slice: &[T]) -> (res: Self)
        ensures
            res@.len() == slice@.len(),
            forall|i: int| 0 <= i < slice@.len() ==> cloned(slice@[i], #[trigger] res@[i]),
    {
        Self::from_slice(slice)
    }
}

impl<T: Zeroizable + Clone> FromSpecImpl<&[T]> for SecretTlsVecU16<T> {
    /// A clone need not equal what it was made of, so that no function of
    /// the slice gives the result.
    open spec fn obeys_from_spec() -> bool {
        false
    }

    open spec fn from_spec(slice: &[T]) -> Self {
        arbitrary()
    }
}

impl<T: Zeroizable> From<SecretTlsVecU16<T>> for Vec<T> {
    fn from(vector: SecretTlsVecU16<T>) -> (res: Self)
        ensures
            res@ == vector@,
    {
        vector.into_vec()
    }
}

impl<T: Zeroizable> FromSpecImpl<SecretTlsVecU16<T>> for Vec<T> {
    /// What is handed out may be another `Vec` than the one held, with the
    /// same elements.
    open spec fn obeys_from_spec() -> bool {
        false
    }

    open spec fn from_spec(vector: SecretTlsVecU16<T>) -> Self {
        arbitrary()
    }
}

impl<T: Zeroizable> std::ops::Index<usize> for SecretTlsVecU16<T> {
    type Output = T;

    fn index(&self, index: usize) -> (element: &T)
        ensures
            *element == self@[index as int],
    {
        &self.vec[index]
    }
}

impl<T: Zeroizable> vstd::std_specs::core::IndexSpecImpl<usize> for SecretTlsVecU16<T> {
    open spec fn index_req(&self, index: &usize) -> bool {
        *index < self@.len()
    }
}

impl<T: Zeroizable> std::borrow::Borrow<[T]> for SecretTlsVecU16<T> {
    /// The elements as a slice.
    fn borrow(&self) -> (slice: &[T])
        ensures
            spec_slice_holds(slice, self@),
    {
        self.vec.as_slice()
    }
}

impl<T: Zeroizable + TlsSize> TlsSize for SecretTlsVecU16<T> {
    open spec fn spec_serialized_len(&self) -> nat {
        spec_vector_len(2, self@)
    }

    fn serialized_len(&self) -> (len: usize) {
        vector_serialized_len(2, self.vec.as_slice())
    }
}

impl<T: Zeroizable + Serialize> Serialize for SecretTlsVecU16<T> {
    open spec fn spec_serialize(&self) -> Result<Seq<u8>, ErrorView> {
        spec_serialize_vector(2, self@)
    }

    fn tls_serialize(&self, writer: &mut Vec<u8>) -> (res: Result<usize, Error>) {
        serialize_vector(2, self.vec.as_slice(), writer)
    }
}

impl<T: Zeroizable + TlsSize> TlsSize for &SecretTlsVecU16<T> {
    open spec fn spec_serialized_len(&self) -> nat {
        spec_vector_len(2, self@)
    }

    fn serialized_len(&self) -> (len: usize) {
        vector_serialized_len(2, self.vec.as_slice())
    }
}

impl<T: Zeroizable + Serialize> Serialize for &SecretTlsVecU16<T> {
    open spec fn spec_serialize(&self) -> Result<Seq<u8>, ErrorView> {
        spec_serialize_vector(2, self@)
    }

    fn tls_serialize(&self, writer: &mut Vec<u8>) -> (res: Result<usize, Error>) {
        serialize_vector(2, self.vec.as_slice(), writer)
    }
}

impl<T: Zeroizable + Deserialize> Deserialize for SecretTlsVecU16<T> {
    open spec fn spec_deserialize(bytes: Seq<u8>) -> Result<nat, ErrorView> {
        spec_deserialize_vector::<T>(2, bytes)
    }

    open spec fn decodes_to(bytes: Seq<u8>, value: Self) -> bool {
        spec_vector_decodes_to(2, bytes, value@)
    }

    fn tls_deserialize(bytes: &mut &[u8]) -> (res: Result<Self, Error>) {
        match deserialize_secret_vector::<T>(2, bytes) {
            Ok(vec) => Ok(Self { vec }),
            Err(error) => Err(error),
        }
    }
}

/// Decoding a `SecretTlsVecU16` undoes encoding it, whatever bytes follow the
/// encoding, where decoding an element undoes encoding it and no element has
/// an empty encoding.
pub proof fn lemma_secret_tls_vec_u16_round_trips<T: Zeroizable + Serialize + Deserialize>()
    requires
        round_trips::<T>(),
        encodes_nonempty::<T>(),
    ensures
        round_trips::<SecretTlsVecU16<T>>(),
        encodes_nonempty::<SecretTlsVecU16<T>>(),
{
    assert forall|value: SecretTlsVecU16<T>, rest: Seq<u8>| #[trigger]
        round_trips_at(value, rest) by {
        if value.spec_serialize() is Ok {
            lemma_vector_round_trips(2, value@, rest);
        }
    }
    assert forall|value: SecretTlsVecU16<T>| #[trigger]
        value.spec_serialize() matches Ok(bytes) ==> bytes.len() > 0 by {
        lemma_be_bytes_len(spec_elements_len(value@), 2);
    }
}

/// A `SecretTlsVecU16` of elements that announce the sizes of their encodings
/// announces the size of its own.
pub proof fn lemma_secret_tls_vec_u16_announces_its_size<T: Zeroizable + Serialize>()
    requires
        announces_its_size::<T>(),
    ensures
        announces_its_size::<SecretTlsVecU16<T>>(),
{
    assert forall|value: SecretTlsVecU16<T>| #[trigger]
        value.spec_serialize() matches Ok(bytes) ==> bytes.len()
            == value.spec_serialized_len() by {
        lemma_vector_announces_its_size(2, value@);
    }
}

/// The same bytes never decode to two `SecretTlsVecU16` with different elements,
/// where they never decode to two different elements.
pub proof fn lemma_secret_tls_vec_u16_decodes_uniquely<T: Zeroizable + Deserialize>(
    bytes: Seq<u8>,
    one: SecretTlsVecU16<T>,
    other: SecretTlsVecU16<T>,
)
    requires
        decodes_uniquely::<T>(),
        SecretTlsVecU16::<T>::decodes_to(bytes, one),
        SecretTlsVecU16::<T>::decodes_to(bytes, other),
    ensures
        one@ == other@,
{
    lemma_vector_decodes_uniquely(2, bytes, one@, other@);
}

impl<T: Zeroizable> Zeroizable for SecretTlsVecU16<T> {
    /// Whether every element has been cleared.
    open spec fn is_zeroized(&self) -> bool {
        forall|i: int| 0 <= i < self@.len() ==> self@[i].is_zeroized()
    }

    /// Clears each element in turn, where it is, and the spare capacity of
    /// the allocation. The cleared elements stay in the vector.
    fn zeroize(&mut self)
        ensures
            final(self)@.len() == old(self)@.len(),
    {
        zeroize_elements(&mut self.vec);
        zeroize_spare_capacity(&mut self.vec);
    }
}

impl<T: Zeroizable> Drop for SecretTlsVecU16<T> {
    /// Clears the vector from memory at the end of its life, as
    /// [`Zeroizable::zeroize`] does. Verus asks of a destructor that it opens
    /// no invariant and never unwinds. Of the call of `zeroize` it can show
    /// neither: to Verus the call might unwind and might open invariants. So
    /// it takes both on trust and does not read the body. Both hold as long
    /// as clearing an element does not panic.
    #[verifier::external_body]
    fn drop(&mut self)
        opens_invariants none
        no_unwind
    {
        self.zeroize();
    }
}

/// A vector of secrets whose length field has four bytes on the wire.
/// It is cleared from memory when it is dropped, and what was decoded of it
/// when its decoding fails.
#[derive(Clone, Debug, PartialEq, Eq, Hash)]
pub struct SecretTlsVecU32<T: Zeroizable> {
    vec: Vec<T>,
}

impl<T: Zeroizable> View for SecretTlsVecU32<T> {
    type V = Seq<T>;

    closed spec fn view(&self) -> Seq<T> {
        self.vec@
    }
}

impl<T: Zeroizable> SecretTlsVecU32<T> {
    /// Makes a vector of the elements of `vec`.
    pub fn new(vec: Vec<T>) -> (res: Self)
        ensures
            res@ == vec@,
    {
        Self { vec }
    }

    /// The number of elements.
    pub fn len(&self) -> (len: usize)
        ensures
            len == self@.len(),
    {
        self.vec.len()
    }

    /// The elements as a slice.
    pub fn as_slice(&self) -> (slice: &[T])
        ensures
            slice@ == self@,
    {
        self.vec.as_slice()
    }

    /// Whether the vector has no element.
    pub fn is_empty(&self) -> (empty: bool)
        ensures
            empty == (self@.len() == 0),
    {
        self.vec.len() == 0
    }

    /// Gives the elements up as a `Vec`.
    pub fn into_vec(self) -> (vec: Vec<T>)
        ensures
            vec@ == self@,
    {
        let mut this = self;
        let mut vec: Vec<T> = Vec::new();
        std::mem::swap(&mut vec, &mut this.vec);
        vec
    }

    /// Adds `value` as the last element.
    pub fn push(&mut self, value: T)
        ensures
            final(self)@ == old(self)@.push(value),
    {
        self.vec.push(value);
    }

    /// Takes the last element off, if there is one.
    pub fn pop(&mut self) -> (value: Option<T>)
        ensures
            match value {
                Some(last) => old(self)@.len() > 0 && last == old(self)@.last() && final(self)@
                    == old(self)@.drop_last(),
                None => old(self)@.len() == 0 && final(self)@ == old(self)@,
            },
    {
        self.vec.pop()
    }

    /// The element at `index`, if there is one.
    pub fn get(&self, index: usize) -> (element: Option<&T>)
        ensures
            match element {
                Some(found) => index < self@.len() && *found == self@[index as int],
                None => index >= self@.len(),
            },
    {
        if index < self.vec.len() {
            Some(&self.vec[index])
        } else {
            None
        }
    }

    /// An iterator over the elements, from the first to the last.
    pub fn iter(&self) -> (iter: std::slice::Iter<'_, T>)
        ensures
            into_iter_elts(iter) == self@,
            IteratorSpec::decrease(&iter) is Some,
            IteratorSpec::initial_value_relation(&iter, &iter),
    {
        self.vec.as_slice().iter()
    }

    /// Keeps the elements for which `keep_it` returns `true`, in their order,
    /// and drops the others. `keep_it` is asked once for each element, from
    /// the first to the last.
    ///
    /// The elements stay in the allocation they are in. An element that is
    /// dropped is cleared first, and so is, at the end, the spare capacity of
    /// the allocation, which holds what the moves left behind.
    pub fn retain<F: Fn(&T) -> bool>(&mut self, keep_it: F)
        requires
            forall|element: &T| call_requires(keep_it, (element,)),
        ensures
            exists|kept: Seq<bool>|
                {
                    &&& kept.len() == old(self)@.len()
                    &&& forall|i: int|
                        0 <= i < kept.len() ==> call_ensures(
                            keep_it,
                            (&old(self)@[i],),
                            #[trigger] kept[i],
                        )
                    &&& final(self)@ == spec_retained(old(self)@, kept)
                },
    {
        let ghost all = self.vec@;
        let ghost mut kept: Seq<bool> = Seq::empty();
        let mut index: usize = 0;
        assert(all.skip(0) =~= all);
        assert(all.take(0) =~= Seq::<T>::empty());
        while index < self.vec.len()
            invariant
                kept.len() <= all.len(),
                forall|i: int|
                    0 <= i < kept.len() ==> call_ensures(keep_it, (&all[i],), #[trigger] kept[i]),
                index == spec_retained(all.take(kept.len() as int), kept).len(),
                self.vec@ == spec_retained(all.take(kept.len() as int), kept) + all.skip(
                    kept.len() as int,
                ),
                forall|element: &T| call_requires(keep_it, (element,)),
            decreases all.len() - kept.len(),
        {
            let ghost count = kept.len() as int;
            let ghost front = spec_retained(all.take(count), kept);
            assert(self.vec@.len() == front.len() + (all.len() - count));
            assert(self.vec@[index as int] == all[count]);
            let keep: bool = keep_it(&self.vec[index]);
            proof {
                assert(all.take(count + 1).drop_last() =~= all.take(count));
                assert(kept.push(keep).drop_last() =~= kept);
                kept = kept.push(keep);
            }
            if keep {
                assert(self.vec@ =~= front.push(all[count]) + all.skip(count + 1));
                index = index + 1;
            } else {
                let mut dropped: T = self.vec.remove(index);
                dropped.zeroize();
                assert(self.vec@ =~= front + all.skip(count + 1));
            }
        }
        assert(all.take(kept.len() as int) =~= all);
        assert(self.vec@ =~= spec_retained(all, kept));
        zeroize_spare_capacity(&mut self.vec);
    }
    /// The number of bytes of the length field.
    pub fn len_len() -> (len_len: usize)
        ensures
            len_len == 4,
    {
        4
    }
}

impl<T: Zeroizable + Clone> SecretTlsVecU32<T> {
    /// Makes a vector of clones of the elements of `slice`.
    pub fn from_slice(slice: &[T]) -> (res: Self)
        ensures
            res@.len() == slice@.len(),
            forall|i: int| 0 <= i < slice@.len() ==> cloned(slice@[i], #[trigger] res@[i]),
    {
        let mut vec: Vec<T> = Vec::with_capacity(slice.len());
        vec.extend_from_slice(slice);
        Self { vec }
    }

    /// Clones of the elements as a `Vec`.
    pub fn to_vec(&self) -> (vec: Vec<T>)
        ensures
            vec@.len() == self@.len(),
            forall|i: int| 0 <= i < self@.len() ==> cloned(self@[i], #[trigger] vec@[i]),
    {
        self.vec.clone()
    }
}

impl<T: Zeroizable> Default for SecretTlsVecU32<T> {
    /// The vector without elements.
    fn default() -> (res: Self)
        ensures
            res@.len() == 0,
    {
        Self { vec: Vec::new() }
    }
}

impl<T: Zeroizable> From<Vec<T>> for SecretTlsVecU32<T> {
    fn from(vec: Vec<T>) -> (res: Self)
        ensures
            res@ == vec@,
    {
        Self { vec }
    }
}

impl<T: Zeroizable> FromSpecImpl<Vec<T>> for SecretTlsVecU32<T> {
    open spec fn obeys_from_spec() -> bool {
        true
    }

    closed spec fn from_spec(vec: Vec<T>) -> Self {
        SecretTlsVecU32 { vec }
    }
}

impl<T: Zeroizable + Clone> From<&[T]> for SecretTlsVecU32<T> {
    fn from(slice: &[T]) -> (res: Self)
        ensures
            res@.len() == slice@.len(),
            forall|i: int| 0 <= i < slice@.len() ==> cloned(slice@[i], #[trigger] res@[i]),
    {
        Self::from_slice(slice)
    }
}

impl<T: Zeroizable + Clone> FromSpecImpl<&[T]> for SecretTlsVecU32<T> {
    /// A clone need not equal what it was made of, so that no function of
    /// the slice gives the result.
    open spec fn obeys_from_spec() -> bool {
        false
    }

    open spec fn from_spec(slice: &[T]) -> Self {
        arbitrary()
    }
}

impl<T: Zeroizable> From<SecretTlsVecU32<T>> for Vec<T> {
    fn from(vector: SecretTlsVecU32<T>) -> (res: Self)
        ensures
            res@ == vector@,
    {
        vector.into_vec()
    }
}

impl<T: Zeroizable> FromSpecImpl<SecretTlsVecU32<T>> for Vec<T> {
    /// What is handed out may be another `Vec` than the one held, with the
    /// same elements.
    open spec fn obeys_from_spec() -> bool {
        false
    }

    open spec fn from_spec(vector: SecretTlsVecU32<T>) -> Self {
        arbitrary()
    }
}

impl<T: Zeroizable> std::ops::Index<usize> for SecretTlsVecU32<T> {
    type Output = T;

    fn index(&self, index: usize) -> (element: &T)
        ensures
            *element == self@[index as int],
    {
        &self.vec[index]
    }
}

impl<T: Zeroizable> vstd::std_specs::core::IndexSpecImpl<usize> for SecretTlsVecU32<T> {
    open spec fn index_req(&self, index: &usize) -> bool {
        *index < self@.len()
    }
}

impl<T: Zeroizable> std::borrow::Borrow<[T]> for SecretTlsVecU32<T> {
    /// The elements as a slice.
    fn borrow(&self) -> (slice: &[T])
        ensures
            spec_slice_holds(slice, self@),
    {
        self.vec.as_slice()
    }
}

impl<T: Zeroizable + TlsSize> TlsSize for SecretTlsVecU32<T> {
    open spec fn spec_serialized_len(&self) -> nat {
        spec_vector_len(4, self@)
    }

    fn serialized_len(&self) -> (len: usize) {
        vector_serialized_len(4, self.vec.as_slice())
    }
}

impl<T: Zeroizable + Serialize> Serialize for SecretTlsVecU32<T> {
    open spec fn spec_serialize(&self) -> Result<Seq<u8>, ErrorView> {
        spec_serialize_vector(4, self@)
    }

    fn tls_serialize(&self, writer: &mut Vec<u8>) -> (res: Result<usize, Error>) {
        serialize_vector(4, self.vec.as_slice(), writer)
    }
}

impl<T: Zeroizable + TlsSize> TlsSize for &SecretTlsVecU32<T> {
    open spec fn spec_serialized_len(&self) -> nat {
        spec_vector_len(4, self@)
    }

    fn serialized_len(&self) -> (len: usize) {
        vector_serialized_len(4, self.vec.as_slice())
    }
}

impl<T: Zeroizable + Serialize> Serialize for &SecretTlsVecU32<T> {
    open spec fn spec_serialize(&self) -> Result<Seq<u8>, ErrorView> {
        spec_serialize_vector(4, self@)
    }

    fn tls_serialize(&self, writer: &mut Vec<u8>) -> (res: Result<usize, Error>) {
        serialize_vector(4, self.vec.as_slice(), writer)
    }
}

impl<T: Zeroizable + Deserialize> Deserialize for SecretTlsVecU32<T> {
    open spec fn spec_deserialize(bytes: Seq<u8>) -> Result<nat, ErrorView> {
        spec_deserialize_vector::<T>(4, bytes)
    }

    open spec fn decodes_to(bytes: Seq<u8>, value: Self) -> bool {
        spec_vector_decodes_to(4, bytes, value@)
    }

    fn tls_deserialize(bytes: &mut &[u8]) -> (res: Result<Self, Error>) {
        match deserialize_secret_vector::<T>(4, bytes) {
            Ok(vec) => Ok(Self { vec }),
            Err(error) => Err(error),
        }
    }
}

/// Decoding a `SecretTlsVecU32` undoes encoding it, whatever bytes follow the
/// encoding, where decoding an element undoes encoding it and no element has
/// an empty encoding.
pub proof fn lemma_secret_tls_vec_u32_round_trips<T: Zeroizable + Serialize + Deserialize>()
    requires
        round_trips::<T>(),
        encodes_nonempty::<T>(),
    ensures
        round_trips::<SecretTlsVecU32<T>>(),
        encodes_nonempty::<SecretTlsVecU32<T>>(),
{
    assert forall|value: SecretTlsVecU32<T>, rest: Seq<u8>| #[trigger]
        round_trips_at(value, rest) by {
        if value.spec_serialize() is Ok {
            lemma_vector_round_trips(4, value@, rest);
        }
    }
    assert forall|value: SecretTlsVecU32<T>| #[trigger]
        value.spec_serialize() matches Ok(bytes) ==> bytes.len() > 0 by {
        lemma_be_bytes_len(spec_elements_len(value@), 4);
    }
}

/// A `SecretTlsVecU32` of elements that announce the sizes of their encodings
/// announces the size of its own.
pub proof fn lemma_secret_tls_vec_u32_announces_its_size<T: Zeroizable + Serialize>()
    requires
        announces_its_size::<T>(),
    ensures
        announces_its_size::<SecretTlsVecU32<T>>(),
{
    assert forall|value: SecretTlsVecU32<T>| #[trigger]
        value.spec_serialize() matches Ok(bytes) ==> bytes.len()
            == value.spec_serialized_len() by {
        lemma_vector_announces_its_size(4, value@);
    }
}

/// The same bytes never decode to two `SecretTlsVecU32` with different elements,
/// where they never decode to two different elements.
pub proof fn lemma_secret_tls_vec_u32_decodes_uniquely<T: Zeroizable + Deserialize>(
    bytes: Seq<u8>,
    one: SecretTlsVecU32<T>,
    other: SecretTlsVecU32<T>,
)
    requires
        decodes_uniquely::<T>(),
        SecretTlsVecU32::<T>::decodes_to(bytes, one),
        SecretTlsVecU32::<T>::decodes_to(bytes, other),
    ensures
        one@ == other@,
{
    lemma_vector_decodes_uniquely(4, bytes, one@, other@);
}

impl<T: Zeroizable> Zeroizable for SecretTlsVecU32<T> {
    /// Whether every element has been cleared.
    open spec fn is_zeroized(&self) -> bool {
        forall|i: int| 0 <= i < self@.len() ==> self@[i].is_zeroized()
    }

    /// Clears each element in turn, where it is, and the spare capacity of
    /// the allocation. The cleared elements stay in the vector.
    fn zeroize(&mut self)
        ensures
            final(self)@.len() == old(self)@.len(),
    {
        zeroize_elements(&mut self.vec);
        zeroize_spare_capacity(&mut self.vec);
    }
}

impl<T: Zeroizable> Drop for SecretTlsVecU32<T> {
    /// Clears the vector from memory at the end of its life, as
    /// [`Zeroizable::zeroize`] does. Verus asks of a destructor that it opens
    /// no invariant and never unwinds. Of the call of `zeroize` it can show
    /// neither: to Verus the call might unwind and might open invariants. So
    /// it takes both on trust and does not read the body. Both hold as long
    /// as clearing an element does not panic.
    #[verifier::external_body]
    fn drop(&mut self)
        opens_invariants none
        no_unwind
    {
        self.zeroize();
    }
}

} // verus!
