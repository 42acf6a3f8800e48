//! Byte strings that go on the wire behind a length field of one, two or
//! four bytes: vectors whose payload is written and read in one piece. On the
//! wire they are what the vectors of `u8` are.

use vstd::prelude::*;
use vstd::std_specs::convert::FromSpecImpl;
use vstd::std_specs::iter::IteratorSpec;
use vstd::std_specs::slice::into_iter_elts;
use crate::codec::{
    announces_its_size, encodes_nonempty, round_trips, round_trips_at, Deserialize, Serialize,
    TlsSize,
};
use crate::error::{Error, ErrorView};
use crate::laws::lemma_bytes_round_trip;
use crate::primitives::lemma_be_bytes_len;
use crate::vector::{
    deserialize_bytes, serialize_bytes, spec_bytes_decode_to, spec_deserialize_bytes,
    spec_retained, spec_serialize_bytes, spec_slice_holds,
};

verus! {

/// A vector, the codec of which is that of a byte string, whose length field has one byte on the wire.
#[derive(Clone, Debug, PartialEq, Eq, Hash)]
pub struct TlsByteVecU8<T> {
    vec: Vec<T>,
}

impl<T> View for TlsByteVecU8<T> {
    type V = Seq<T>;

    closed spec fn view(&self) -> Seq<T> {
        self.vec@
    }
}

impl<T> TlsByteVecU8<T> {
    /// Makes a vector of the elements of `vec`.
    pub fn new(vec: Vec<T>) -> (res: Self)
        ensures
            res@ == vec@,
    {
        Self { vec }
    }

    /// The number of elements.
    pub fn len(&self) -> (len: usize)
        ensures
            len == self@.len(),
    {
        self.vec.len()
    }

    /// The elements as a slice.
    pub fn as_slice(&self) -> (slice: &[T])
        ensures
            slice@ == self@,
    {
        self.vec.as_slice()
    }

    /// Whether the vector has no element.
    pub fn is_empty(&self) -> (empty: bool)
        ensures
            empty == (self@.len() == 0),
    {
        self.vec.len() == 0
    }

    /// Gives the elements up as a `Vec`.
    pub fn into_vec(self) -> (vec: Vec<T>)
        ensures
            vec@ == self@,
    {
        self.vec
    }

    /// Adds `value` as the last element.
    pub fn push(&mut self, value: T)
        ensures
            final(self)@ == old(self)@.push(value),
    {
        self.vec.push(value);
    }

    /// Takes the last element off, if there is one.
    pub fn pop(&mut self) -> (value: Option<T>)
        ensures
            match value {
                Some(last) => old(self)@.len() > 0 && last == old(self)@.last() && final(self)@
                    == old(self)@.drop_last(),
                None => old(self)@.len() == 0 && final(self)@ == old(self)@,
            },
    {
        self.vec.pop()
    }

    /// The element at `index`, if there is one.
    pub fn get(&self, index: usize) -> (element: Option<&T>)
        ensures
            match element {
                Some(found) => index < self@.len() && *found == self@[index as int],
                None => index >= self@.len(),
            },
    {
        if index < self.vec.len() {
            Some(&self.vec[index])
        } else {
            None
        }
    }

    /// An iterator over the elements, from the first to the last.
    pub fn iter(&self) -> (iter: std::slice::Iter<'_, T>)
        ensures
            into_iter_elts(iter) == self@,
            IteratorSpec::decrease(&iter) is Some,
            IteratorSpec::initial_value_relation(&iter, &iter),
    {
        self.vec.as_slice().iter()
    }

    /// Keeps the elements for which `keep_it` returns `true`, in their order,
    /// and drops the others. `keep_it` is asked once for each element, from
    /// the first to the last.
    pub fn retain<F: Fn(&T) -> bool>(&mut self, keep_it: F)
        requires
            forall|element: &T| call_requires(keep_it, (element,)),
        ensures
            exists|kept: Seq<bool>|
                {
                    &&& kept.len() == old(self)@.len()
                    &&& forall|i: int|
                        0 <= i < kept.len() ==> call_ensures(
                            keep_it,
                            (&old(self)@[i],),
                            #[trigger] kept[i],
                        )
                    &&& final(self)@ == spec_retained(old(self)@, kept)
                },
    {
        let mut source: Vec<T> = Vec::new();
        std::mem::swap(&mut source, &mut self.vec);
        let ghost all = source@;
        let ghost mut kept: Seq<bool> = Seq::empty();
        for element in it: source
            invariant
                it.seq() == all,
                kept.len() == it.index(),
                forall|i: int|
                    0 <= i < kept.len() ==> call_ensures(keep_it, (&all[i],), #[trigger] kept[i]),
                self.vec@ == spec_retained(all.take(kept.len() as int), kept),
                forall|element: &T| call_requires(keep_it, (element,)),
        {
            let keep: bool = keep_it(&element);
            proof {
                let count = kept.len() as int;
                assert(all.take(count + 1).drop_last() =~= all.take(count));
                assert(kept.push(keep).drop_last() =~= kept);
                kept = kept.push(keep);
            }
            if keep {
                self.vec.push(element);
            }
        }
        assert(all.take(kept.len() as int) =~= all);
    }
    /// The number of bytes of the length field.
    pub fn len_len() -> (len_len: usize)
        ensures
            len_len == 1,
    {
        1
    }
}

impl<T: Clone> TlsByteVecU8<T> {
    /// Makes a vector of clones of the elements of `slice`.
    pub fn from_slice(slice: &[T]) -> (res: Self)
        ensures
            res@.len() == slice@.len(),
            forall|i: int| 0 <= i < slice@.len() ==> cloned(slice@[i], #[trigger] res@[i]),
    {
        let mut vec: Vec<T> = Vec::with_capacity(slice.len());
        vec.extend_from_slice(slice);
        Self { vec }
    }

    /// Clones of the elements as a `Vec`.
    pub fn to_vec(&self) -> (vec: Vec<T>)
        ensures
            vec@.len() == self@.len(),
            forall|i: int| 0 <= i < self@.len() ==> cloned(self@[i], #[trigger] vec@[i]),
    {
        self.vec.clone()
    }
}

impl<T> Default for TlsByteVecU8<T> {
    /// The vector without elements.
    fn default() -> (res: Self)
        ensures
            res@.len() == 0,
    {
        Self { vec: Vec::new() }
    }
}

impl<T> From<Vec<T>> for TlsByteVecU8<T> {
    fn from(vec: Vec<T>) -> (res: Self)
        ensures
            res@ == vec@,
    {
        Self { vec }
    }
}

impl<T> FromSpecImpl<Vec<T>> for TlsByteVecU8<T> {
    open spec fn obeys_from_spec() -> bool {
        true
    }

    closed spec fn from_spec(vec: Vec<T>) -> Self {
        TlsByteVecU8 { vec }
    }
}

impl<T: Clone> From<&[T]> for TlsByteVecU8<T> {
    fn from(slice: &[T]) -> (res: Self)
        ensures
            res@.len() == slice@.len(),
            forall|i: int| 0 <= i < slice@.len() ==> cloned(slice@[i], #[trigger] res@[i]),
    {
        Self::from_slice(slice)
    }
}

impl<T: Clone> FromSpecImpl<&[T]> for TlsByteVecU8<T> {
    /// A clone need not equal what it was made of, so that no function of
    /// the slice gives the result.
    open spec fn obeys_from_spec() -> bool {
        false
    }

    open spec fn from_spec(slice: &[T]) -> Self {
        arbitrary()
    }
}

impl<T> From<TlsByteVecU8<T>> for Vec<T> {
    fn from(vector: TlsByteVecU8<T>) -> (res: Self)
        ensures
            res@ == vector@,
    {
        vector.into_vec()
    }
}

impl<T> FromSpecImpl<TlsByteVecU8<T>> for Vec<T> {
    /// What is handed out may be another `Vec` than the one held, with the
    /// same elements.
    open spec fn obeys_from_spec() -> bool {
        false
    }

    open spec fn from_spec(vector: TlsByteVecU8<T>) -> Self {
        arbitrary()
    }
}

impl<T> std::ops::Index<usize> for TlsByteVecU8<T> {
    type Output = T;

    fn index(&self, index: usize) -> (element: &T)
        ensures
            *element == self@[index as int],
    {
        &self.vec[index]
    }
}

impl<T> vstd::std_specs::core::IndexSpecImpl<usize> for TlsByteVecU8<T> {
    open spec fn index_req(&self, index: &usize) -> bool {
        *index < self@.len()
    }
}

impl<T> std::borrow::Borrow<[T]> for TlsByteVecU8<T> {
    /// The elements as a slice.
    fn borrow(&self) -> (slice: &[T])
        ensures
            spec_slice_holds(slice, self@),
    {
        self.vec.as_slice()
    }
}

impl TlsSize for TlsByteVecU8<u8> {
    open spec fn spec_serialized_len(&self) -> nat {
        1 + self@.len()
    }

    fn serialized_len(&self) -> (len: usize) {
        self.vec.len() + 1
    }
}

impl Serialize for TlsByteVecU8<u8> {
    open spec fn spec_serialize(&self) -> Result<Seq<u8>, ErrorView> {
        spec_serialize_bytes(1, self@)
    }

    fn tls_serialize(&self, writer: &mut Vec<u8>) -> (res: Result<usize, Error>) {
        serialize_bytes(1, self.vec.as_slice(), writer)
    }
}

impl TlsSize for &TlsByteVecU8<u8> {
    open spec fn spec_serialized_len(&self) -> nat {
        1 + self@.len()
    }

    fn serialized_len(&self) -> (len: usize) {
        self.vec.len() + 1
    }
}

impl Serialize for &TlsByteVecU8<u8> {
    open spec fn spec_serialize(&self) -> Result<Seq<u8>, ErrorView> {
        spec_serialize_bytes(1, self@)
    }

    fn tls_serialize(&self, writer: &mut Vec<u8>) -> (res: Result<usize, Error>) {
        serialize_bytes(1, self.vec.as_slice(), writer)
    }
}

impl Deserialize for TlsByteVecU8<u8> {
    open spec fn spec_deserialize(bytes: Seq<u8>) -> Result<nat, ErrorView> {
        spec_deserialize_bytes(1, bytes)
    }

    open spec fn decodes_to(bytes: Seq<u8>, value: Self) -> bool {
        spec_bytes_decode_to(1, bytes, value@)
    }

    fn tls_deserialize(bytes: &mut &[u8]) -> (res: Result<Self, Error>) {
        match deserialize_bytes(1, bytes) {
            Ok(vec) => Ok(Self { vec }),
            Err(error) => Err(error),
        }
    }
}

/// Decoding a `TlsByteVecU8` of bytes undoes encoding it, whatever bytes follow
/// the encoding; its encoding is as long as its size announces; and the same
/// bytes never decode to two with different content.
pub proof fn lemma_tls_byte_vec_u8_round_trips()
    ensures
        round_trips::<TlsByteVecU8<u8>>(),
        encodes_nonempty::<TlsByteVecU8<u8>>(),
        announces_its_size::<TlsByteVecU8<u8>>(),
        forall|bytes: Seq<u8>, one: TlsByteVecU8<u8>, other: TlsByteVecU8<u8>|
            TlsByteVecU8::<u8>::decodes_to(bytes, one) && TlsByteVecU8::<u8>::decodes_to(bytes, other)
                ==> one@ == other@,
{
    assert forall|value: TlsByteVecU8<u8>, rest: Seq<u8>| #[trigger]
        round_trips_at(value, rest) by {
        if value.spec_serialize() is Ok {
            lemma_bytes_round_trip(1, value@, rest);
        }
    }
    assert forall|value: TlsByteVecU8<u8>| #[trigger]
        value.spec_serialize() matches Ok(bytes) ==> bytes.len() > 0 && bytes.len()
            == value.spec_serialized_len() by {
        lemma_be_bytes_len(value@.len(), 1);
    }
}

/// A vector, the codec of which is that of a byte string, whose length field has two bytes on the wire.
#[derive(Clone, Debug, PartialEq, Eq, Hash)]
pub struct TlsByteVecU16<T> {
    vec: Vec<T>,
}

impl<T> View for TlsByteVecU16<T> {
    type V = Seq<T>;

    closed spec fn view(&self) -> Seq<T> {
        self.vec@
    }
}

impl<T> TlsByteVecU16<T> {
    /// Makes a vector of the elements of `vec`.
    pub fn new(vec: Vec<T>) -> (res: Self)
        ensures
            res@ == vec@,
    {
        Self { vec }
    }

    /// The number of elements.
    pub fn len(&self) -> (len: usize)
        ensures
            len == self@.len(),
    {
        self.vec.len()
    }

    /// The elements as a slice.
    pub fn as_slice(&self) -> (slice: &[T])
        ensures
            slice@ == self@,
    {
        self.vec.as_slice()
    }

    /// Whether the vector has no element.
    pub fn is_empty(&self) -> (empty: bool)
        ensures
            empty == (self@.len() == 0),
    {
        self.vec.len() == 0
    }

    /// Gives the elements up as a `Vec`.
    pub fn into_vec(self) -> (vec: Vec<T>)
        ensures
            vec@ == self@,
    {
        self.vec
    }

    /// Adds `value` as the last element.
    pub fn push(&mut self, value: T)
        ensures
            final(self)@ == old(self)@.push(value),
    {
        self.vec.push(value);
    }

    /// Takes the last element off, if there is one.
    pub fn pop(&mut self) -> (value: Option<T>)
        ensures
            match value {
                Some(last) => old(self)@.len() > 0 && last == old(self)@.last() && final(self)@
                    == old(self)@.drop_last(),
                None => old(self)@.len() == 0 && final(self)@ == old(self)@,
            },
    {
        self.vec.pop()
    }

    /// The element at `index`, if there is one.
    pub fn get(&self, index: usize) -> (element: Option<&T>)
        ensures
            match element {
                Some(found) => index < self@.len() && *found == self@[index as int],
                None => index >= self@.len(),
            },
    {
        if index < self.vec.len() {
            Some(&self.vec[index])
        } else {
            None
        }
    }

    /// An iterator over the elements, from the first to the last.
    pub fn iter(&self) -> (iter: std::slice::Iter<'_, T>)
        ensures
            into_iter_elts(iter) == self@,
            IteratorSpec::decrease(&iter) is Some,
            IteratorSpec::initial_value_relation(&iter, &iter),
    {
        self.vec.as_slice().iter()
    }

    /// Keeps the elements for which `keep_it` returns `true`, in their order,
    /// and drops the others. `keep_it` is asked once for each element, from
    /// the first to the last.
    pub fn retain<F: Fn(&T) -> bool>(&mut self, keep_it: F)
        requires
            forall|element: &T| call_requires(keep_it, (element,)),
        ensures
            exists|kept: Seq<bool>|
                {
                    &&& kept.len() == old(self)@.len()
                    &&& forall|i: int|
                        0 <= i < kept.len() ==> call_ensures(
                            keep_it,
                            (&old(self)@[i],),
                            #[trigger] kept[i],
                        )
                    &&& final(self)@ == spec_retained(old(self)@, kept)
                },
    {
        let mut source: Vec<T> = Vec::new();
        std::mem::swap(&mut source, &mut self.vec);
        let ghost all = source@;
        let ghost mut kept: Seq<bool> = Seq::empty();
        for element in it: source
            invariant
                it.seq() == all,
                kept.len() == it.index(),
                forall|i: int|
                    0 <= i < kept.len() ==> call_ensures(keep_it, (&all[i],), #[trigger] kept[i]),
                self.vec@ == spec_retained(all.take(kept.len() as int), kept),
                forall|element: &T| call_requires(keep_it, (element,)),
        {
            let keep: bool = keep_it(&element);
            proof {
                let count = kept.len() as int;
                assert(all.take(count + 1).drop_last() =~= all.take(count));
                assert(kept.push(keep).drop_last() =~= kept);
                kept = kept.push(keep);
            }
            if keep {
                self.vec.push(element);
            }
        }
        assert(all.take(kept.len() as int) =~= all);
    }
    /// The number of bytes of the length field.
    pub fn len_len() -> (len_len: usize)
        ensures
            len_len == 2,
    {
        2
    }
}

impl<T: Clone> TlsByteVecU16<T> {
    /// Makes a vector of clones of the elements of `slice`.
    pub fn from_slice(slice: &[T]) -> (res: Self)
        ensures
            res@.len() == slice@.len(),
            forall|i: int| 0 <= i < slice@.len() ==> cloned(slice@[i], #[trigger] res@[i]),
    {
        let mut vec: Vec<T> = Vec::with_capacity(slice.len());
        vec.extend_from_slice(slice);
        Self { vec }
    }

    /// Clones of the elements as a `Vec`.
    pub fn to_vec(&self) -> (vec: Vec<T>)
        ensures
            vec@.len() == self@.len(),
            forall|i: int| 0 <= i < self@.len() ==> cloned(self@[i], #[trigger] vec@[i]),
    {
        self.vec.clone()
    }
}

impl<T> Default for TlsByteVecU16<T> {
    /// The vector without elements.
    fn default() -> (res: Self)
        ensures
            res@.len() == 0,
    {
        Self { vec: Vec::new() }
    }
}

impl<T> From<Vec<T>> for TlsByteVecU16<T> {
    fn from(vec: Vec<T>) -> (res: Self)
        ensures
            res@ == vec@,
    {
        Self { vec }
    }
}

impl<T> FromSpecImpl<Vec<T>> for TlsByteVecU16<T> {
    open spec fn obeys_from_spec() -> bool {
        true
    }

    closed spec fn from_spec(vec: Vec<T>) -> Self {
        TlsByteVecU16 { vec }
    }
}

impl<T: Clone> From<&[T]> for TlsByteVecU16<T> {
    fn from(slice: &[T]) -> (res: Self)
        ensures
            res@.len() == slice@.len(),
            forall|i: int| 0 <= i < slice@.len() ==> cloned(slice@[i], #[trigger] res@[i]),
    {
        Self::from_slice(slice)
    }
}

impl<T: Clone> FromSpecImpl<&[T]> for TlsByteVecU16<T> {
    /// A clone need not equal what it was made of, so that no function of
    /// the slice gives the result.
    open spec fn obeys_from_spec() -> bool {
        false
    }

    open spec fn from_spec(slice: &[T]) -> Self {
        arbitrary()
    }
}

impl<T> From<TlsByteVecU16<T>> for Vec<T> {
    fn from(vector: TlsByteVecU16<T>) -> (res: Self)
        ensures
            res@ == vector@,
    {
        vector.into_vec()
    }
}

impl<T> FromSpecImpl<TlsByteVecU16<T>> for Vec<T> {
    /// What is handed out may be another `Vec` than the one held, with the
    /// same elements.
    open spec fn obeys_from_spec() -> bool {
        false
    }

    open spec fn from_spec(vector: TlsByteVecU16<T>) -> Self {
        arbitrary()
    }
}

impl<T> std::ops::Index<usize> for TlsByteVecU16<T> {
    type Output = T;

    fn index(&self, index: usize) -> (element: &T)
        ensures
            *element == self@[index as int],
    {
        &self.vec[index]
    }
}

impl<T> vstd::std_specs::core::IndexSpecImpl<usize> for TlsByteVecU16<T> {
    open spec fn index_req(&self, index: &usize) -> bool {
        *index < self@.len()
    }
}

impl<T> std::borrow::Borrow<[T]> for TlsByteVecU16<T> {
    /// The elements as a slice.
    fn borrow(&self) -> (slice: &[T])
        ensures
            spec_slice_holds(slice, self@),
    {
        self.vec.as_slice()
    }
}

impl TlsSize for TlsByteVecU16<u8> {
    open spec fn spec_serialized_len(&self) -> nat {
        2 + self@.len()
    }

    fn serialized_len(&self) -> (len: usize) {
        self.vec.len() + 2
    }
}

impl Serialize for TlsByteVecU16<u8> {
    open spec fn spec_serialize(&self) -> Result<Seq<u8>, ErrorView> {
        spec_serialize_bytes(2, self@)
    }

    fn tls_serialize(&self, writer: &mut Vec<u8>) -> (res: Result<usize, Error>) {
        serialize_bytes(2, self.vec.as_slice(), writer)
    }
}

impl TlsSize for &TlsByteVecU16<u8> {
    open spec fn spec_serialized_len(&self) -> nat {
        2 + self@.len()
    }

    fn serialized_len(&self) -> (len: usize) {
        self.vec.len() + 2
    }
}

impl Serialize for &TlsByteVecU16<u8> {
    open spec fn spec_serialize(&self) -> Result<Seq<u8>, ErrorView> {
        spec_serialize_bytes(2, self@)
    }

    fn tls_serialize(&self, writer: &mut Vec<u8>) -> (res: Result<usize, Error>) {
        serialize_bytes(2, self.vec.as_slice(), writer)
    }
}

impl Deserialize for TlsByteVecU16<u8> {
    open spec fn spec_deserialize(bytes: Seq<u8>) -> Result<nat, ErrorView> {
        spec_deserialize_bytes(2, bytes)
    }

    open spec fn decodes_to(bytes: Seq<u8>, value: Self) -> bool {
        spec_bytes_decode_to(2, bytes, value@)
    }

    fn tls_deserialize(bytes: &mut &[u8]) -> (res: Result<Self, Error>) {
        match deserialize_bytes(2, bytes) {
            Ok(vec) => Ok(Self { vec }),
            Err(error) => Err(error),
        }
    }
}

/// Decoding a `TlsByteVecU16` of bytes undoes encoding it, whatever bytes follow
/// the encoding; its encoding is as long as its size announces; and the same
/// bytes never decode to two with different content.
pub proof fn lemma_tls_byte_vec_u16_round_trips()
    ensures
        round_trips::<TlsByteVecU16<u8>>(),
        encodes_nonempty::<TlsByteVecU16<u8>>(),
        announces_its_size::<TlsByteVecU16<u8>>(),
        forall|bytes: Seq<u8>, one: TlsByteVecU16<u8>, other: TlsByteVecU16<u8>|
            TlsByteVecU16::<u8>::decodes_to(bytes, one) && TlsByteVecU16::<u8>::decodes_to(bytes, other)
                ==> one@ == other@,
{
    assert forall|value: TlsByteVecU16<u8>, rest: Seq<u8>| #[trigger]
        round_trips_at(value, rest) by {
        if value.spec_serialize() is Ok {
            lemma_bytes_round_trip(2, value@, rest);
        }
    }
    assert forall|value: TlsByteVecU16<u8>| #[trigger]
        value.spec_serialize() matches Ok(bytes) ==> bytes.len() > 0 && bytes.len()
            == value.spec_serialized_len() by {
        lemma_be_bytes_len(value@.len(), 2);
    }
}

/// A vector, the codec of which is that of a byte string, whose length field has four bytes on the wire.
#[derive(Clone, Debug, PartialEq, Eq, Hash)]
pub struct TlsByteVecU32<T> {
    vec: Vec<T>,
}

impl<T> View for TlsByteVecU32<T> {
    type V = Seq<T>;

    closed spec fn view(&self) -> Seq<T> {
        self.vec@
    }
}

impl<T> TlsByteVecU32<T> {
    /// Makes a vector of the elements of `vec`.
    pub fn new(vec: Vec<T>) -> (res: Self)
        ensures
            res@ == vec@,
    {
        Self { vec }
    }

    /// The number of elements.
    pub fn len(&self) -> (len: usize)
        ensures
            len == self@.len(),
    {
        self.vec.len()
    }

    /// The elements as a slice.
    pub fn as_slice(&self) -> (slice: &[T])
        ensures
            slice@ == self@,
    {
        self.vec.as_slice()
    }

    /// Whether the vector has no element.
    pub fn is_empty(&self) -> (empty: bool)
        ensures
            empty == (self@.len() == 0),
    {
        self.vec.len() == 0
    }

    /// Gives the elements up as a `Vec`.
    pub fn into_vec(self) -> (vec: Vec<T>)
        ensures
            vec@ == self@,
    {
        self.vec
    }

    /// Adds `value` as the last element.
    pub fn push(&mut self, value: T)
        ensures
            final(self)@ == old(self)@.push(value),
    {
        self.vec.push(value);
    }

    /// Takes the last element off, if there is one.
    pub fn pop(&mut self) -> (value: Option<T>)
        ensures
            match value {
                Some(last) => old(self)@.len() > 0 && last == old(self)@.last() && final(self)@
                    == old(self)@.drop_last(),
                None => old(self)@.len() == 0 && final(self)@ == old(self)@,
            },
    {
        self.vec.pop()
    }

    /// The element at `index`, if there is one.
    pub fn get(&self, index: usize) -> (element: Option<&T>)
        ensures
            match element {
                Some(found) => index < self@.len() && *found == self@[index as int],
                None => index >= self@.len(),
            },
    {
        if index < self.vec.len() {
            Some(&self.vec[index])
        } else {
            None
        }
    }

    /// An iterator over the elements, from the first to the last.
    pub fn iter(&self) -> (iter: std::slice::Iter<'_, T>)
        ensures
            into_iter_elts(iter) == self@,
            IteratorSpec::decrease(&iter) is Some,
            IteratorSpec::initial_value_relation(&iter, &iter),
    {
        self.vec.as_slice().iter()
    }

    /// Keeps the elements for which `keep_it` returns `true`, in their order,
    /// and drops the others. `keep_it` is asked once for each element, from
    /// the first to the last.
    pub fn retain<F: Fn(&T) -> bool>(&mut self, keep_it: F)
        requires
            forall|element: &T| call_requires(keep_it, (element,)),
        ensures
            exists|kept: Seq<bool>|
                {
                    &&& kept.len() == old(self)@.len()
                    &&& forall|i: int|
                        0 <= i < kept.len() ==> call_ensures(
                            keep_it,
                            (&old(self)@[i],),
                            #[trigger] kept[i],
                        )
                    &&& final(self)@ == spec_retained(old(self)@, kept)
                },
    {
        let mut source: Vec<T> = Vec::new();
        std::mem::swap(&mut source, &mut self.vec);
        let ghost all = source@;
        let ghost mut kept: Seq<bool> = Seq::empty();
        for element in it: source
            invariant
                it.seq() == all,
                kept.len() == it.index(),
                forall|i: int|
                    0 <= i < kept.len() ==> call_ensures(keep_it, (&all[i],), #[trigger] kept[i]),
                self.vec@ == spec_retained(all.take(kept.len() as int), kept),
                forall|element: &T| call_requires(keep_it, (element,)),
        {
            let keep: bool = keep_it(&element);
            proof {
                let count = kept.len() as int;
                assert(all.take(count + 1).drop_last() =~= all.take(count));
                assert(kept.push(keep).drop_last() =~= kept);
                kept = kept.push(keep);
            }
            if keep {
                self.vec.push(element);
            }
        }
        assert(all.take(kept.len() as int) =~= all);
    }
    /// The number of bytes of the length field.
    pub fn len_len() -> (len_len: usize)
        ensures
            len_len == 4,
    {
        4
    }
}

impl<T: Clone> TlsByteVecU32<T> {
    /// Makes a vector of clones of the elements of `slice`.
    pub fn from_slice(slice: &[T]) -> (res: Self)
        ensures
            res@.len() == slice@.len(),
            forall|i: int| 0 <= i < slice@.len() ==> cloned(slice@[i], #[trigger] res@[i]),
    {
        let mut vec: Vec<T> = Vec::with_capacity(slice.len());
        vec.extend_from_slice(slice);
        Self { vec }
    }

    /// Clones of the elements as a `Vec`.
    pub fn to_vec(&self) -> (vec: Vec<T>)
        ensures
            vec@.len() == self@.len(),
            forall|i: int| 0 <= i < self@.len() ==> cloned(self@[i], #[trigger] vec@[i]),
    {
        self.vec.clone()
    }
}

impl<T> Default for TlsByteVecU32<T> {
    /// The vector without elements.
    fn default() -> (res: Self)
        ensures
            res@.len() == 0,
    {
        Self { vec: Vec::new() }
    }
}

impl<T> From<Vec<T>> for TlsByteVecU32<T> {
    fn from(vec: Vec<T>) -> (res: Self)
        ensures
            res@ == vec@,
    {
        Self { vec }
    }
}

impl<T> FromSpecImpl<Vec<T>> for TlsByteVecU32<T> {
    open spec fn obeys_from_spec() -> bool {
        true
    }

    closed spec fn from_spec(vec: Vec<T>) -> Self {
        TlsByteVecU32 { vec }
    }
}

impl<T: Clone> From<&[T]> for TlsByteVecU32<T> {
    fn from(slice: &[T]) -> (res: Self)
        ensures
            res@.len() == slice@.len(),
            forall|i: int| 0 <= i < slice@.len() ==> cloned(slice@[i], #[trigger] res@[i]),
    {
        Self::from_slice(slice)
    }
}

impl<T: Clone> FromSpecImpl<&[T]> for TlsByteVecU32<T> {
    /// A clone need not equal what it was made of, so that no function of
    /// the slice gives the result.
    open spec fn obeys_from_spec() -> bool {
        false
    }

    open spec fn from_spec(slice: &[T]) -> Self {
        arbitrary()
    }
}

impl<T> From<TlsByteVecU32<T>> for Vec<T> {
    fn from(vector: TlsByteVecU32<T>) -> (res: Self)
        ensures
            res@ == vector@,
    {
        vector.into_vec()
    }
}

impl<T> FromSpecImpl<TlsByteVecU32<T>> for Vec<T> {
    /// What is handed out may be another `Vec` than the one held, with the
    /// same elements.
    open spec fn obeys_from_spec() -> bool {
        false
    }

    open spec fn from_spec(vector: TlsByteVecU32<T>) -> Self {
        arbitrary()
    }
}

impl<T> std::ops::Index<usize> for TlsByteVecU32<T> {
    type Output = T;

    fn index(&self, index: usize) -> (element: &T)
        ensures
            *element == self@[index as int],
    {
        &self.vec[index]
    }
}

impl<T> vstd::std_specs::core::IndexSpecImpl<usize> for TlsByteVecU32<T> {
    open spec fn index_req(&self, index: &usize) -> bool {
        *index < self@.len()
    }
}

impl<T> std::borrow::Borrow<[T]> for TlsByteVecU32<T> {
    /// The elements as a slice.
    fn borrow(&self) -> (slice: &[T])
        ensures
            spec_slice_holds(slice, self@),
    {
        self.vec.as_slice()
    }
}

impl TlsSize for TlsByteVecU32<u8> {
    open spec fn spec_serialized_len(&self) -> nat {
        4 + self@.len()
    }

    fn serialized_len(&self) -> (len: usize) {
        self.vec.len() + 4
    }
}

impl Serialize for TlsByteVecU32<u8> {
    open spec fn spec_serialize(&self) -> Result<Seq<u8>, ErrorView> {
        spec_serialize_bytes(4, self@)
    }

    fn tls_serialize(&self, writer: &mut Vec<u8>) -> (res: Result<usize, Error>) {
        serialize_bytes(4, self.vec.as_slice(), writer)
    }
}

impl TlsSize for &TlsByteVecU32<u8> {
    open spec fn spec_serialized_len(&self) -> nat {
        4 + self@.len()
    }

    fn serialized_len(&self) -> (len: usize) {
        self.vec.len() + 4
    }
}

impl Serialize for &TlsByteVecU32<u8> {
    open spec fn spec_serialize(&self) -> Result<Seq<u8>, ErrorView> {
        spec_serialize_bytes(4, self@)
    }

    fn tls_serialize(&self, writer: &mut Vec<u8>) -> (res: Result<usize, Error>) {
        serialize_bytes(4, self.vec.as_slice(), writer)
    }
}

impl Deserialize for TlsByteVecU32<u8> {
    open spec fn spec_deserialize(bytes: Seq<u8>) -> Result<nat, ErrorView> {
        spec_deserialize_bytes(4, bytes)
    }

    open spec fn decodes_to(bytes: Seq<u8>, value: Self) -> bool {
        spec_bytes_decode_to(4, bytes, value@)
    }

    fn tls_deserialize(bytes: &mut &[u8]) -> (res: Result<Self, Error>) {
        match deserialize_bytes(4, bytes) {
            Ok(vec) => Ok(Self { vec }),
            Err(error) => Err(error),
        }
    }
}

/// Decoding a `TlsByteVecU32` of bytes undoes encoding it, whatever bytes follow
/// the encoding; its encoding is as long as its size announces; and the same
/// bytes never decode to two with different content.
pub proof fn lemma_tls_byte_vec_u32_round_trips()
    ensures
        round_trips::<TlsByteVecU32<u8>>(),
        encodes_nonempty::<TlsByteVecU32<u8>>(),
        announces_its_size::<TlsByteVecU32<u8>>(),
        forall|bytes: Seq<u8>, one: TlsByteVecU32<u8>, other: TlsByteVecU32<u8>|
            TlsByteVecU32::<u8>::decodes_to(bytes, one) && TlsByteVecU32::<u8>::decodes_to(bytes, other)
                ==> one@ == other@,
{
    assert forall|value: TlsByteVecU32<u8>, rest: Seq<u8>| #[trigger]
        round_trips_at(value, rest) by {
        if value.spec_serialize() is Ok {
            lemma_bytes_round_trip(4, value@, rest);
        }
    }
    assert forall|value: TlsByteVecU32<u8>| #[trigger]
        value.spec_serialize() matches Ok(bytes) ==> bytes.len() > 0 && bytes.len()
            == value.spec_serialized_len() by {
        lemma_be_bytes_len(value@.len(), 4);
    }
}

} // verus!
