//! Vectors that own their elements and go on the wire behind a length field
//! of one, two or four bytes.

use vstd::prelude::*;
use vstd::std_specs::convert::FromSpecImpl;
use vstd::std_specs::iter::IteratorSpec;
use vstd::std_specs::slice::into_iter_elts;
use crate::codec::{
    announces_its_size, decodes_uniquely, encodes_nonempty, round_trips, round_trips_at,
    Deserialize, Serialize, TlsSize,
};
use crate::error::{Error, ErrorView};
use crate::laws::{
    lemma_vector_announces_its_size, lemma_vector_decodes_uniquely, lemma_vector_round_trips,
};
use crate::primitives::lemma_be_bytes_len;
use crate::vector::{
    deserialize_vector, serialize_vector, spec_deserialize_vector, spec_elements_len,
    spec_retained, spec_serialize_vector, spec_slice_holds, spec_vector_decodes_to, spec_vector_len,
    vector_serialized_len,
};

verus! {

/// A vector of `T` whose length field has one byte on the wire.
#[derive(Clone, Debug, PartialEq, Eq, Hash)]
pub struct TlsVecU8<T> {
    vec: Vec<T>,
}

impl<T> View for TlsVecU8<T> {
    type V = Seq<T>;

    closed spec fn view(&self) -> Seq<T> {
        self.vec@
    }
}

impl<T> TlsVecU8<T> {
    /// Makes a vector of the elements of `vec`.
    pub fn new(vec: Vec<T>) -> (res: Self)
        ensures
            res@ == vec@,
    {
        Self { vec }
    }

    /// The number of elements.
    pub fn len(&self) -> (len: usize)
        ensures
            len == self@.len(),
    {
        self.vec.len()
    }

    /// The elements as a slice.
    pub fn as_slice(&self) -> (slice: &[T])
        ensures
            slice@ == self@,
    {
        self.vec.as_slice()
    }

    /// Whether the vector has no element.
    pub fn is_empty(&self) -> (empty: bool)
        ensures
            empty == (self@.len() == 0),
    {
        self.vec.len() == 0
    }

    /// Gives the elements up as a `Vec`.
    pub fn into_vec(self) -> (vec: Vec<T>)
        ensures
            vec@ == self@,
    {
        self.vec
    }

    /// Adds `value` as the last element.
    pub fn push(&mut self, value: T)
        ensures
            final(self)@ == old(self)@.push(value),
    {
        self.vec.push(value);
    }

    /// Takes the last element off, if there is one.
    pub fn pop(&mut self) -> (value: Option<T>)
        ensures
            match value {
                Some(last) => old(self)@.len() > 0 && last == old(self)@.last() && final(self)@
                    == old(self)@.drop_last(),
                None => old(self)@.len() == 0 && final(self)@ == old(self)@,
            },
    {
        self.vec.pop()
    }

    /// The element at `index`, if there is one.
    pub fn get(&self, index: usize) -> (element: Option<&T>)
        ensures
            match element {
                Some(found) => index < self@.len() && *found == self@[index as int],
                None => index >= self@.len(),
            },
    {
        if index < self.vec.len() {
            Some(&self.vec[index])
        } else {
            None
        }
    }

    /// An iterator over the elements, from the first to the last.
    pub fn iter(&self) -> (iter: std::slice::Iter<'_, T>)
        ensures
            into_iter_elts(iter) == self@,
            IteratorSpec::decrease(&iter) is Some,
            IteratorSpec::initial_value_relation(&iter, &iter),
    {
        self.vec.as_slice().iter()
    }

    /// Keeps the elements for which `keep_it` returns `true`, in their order,
    /// and drops the others. `keep_it` is asked once for each element, from
    /// the first to the last.
    pub fn retain<F: Fn(&T) -> bool>(&mut self, keep_it: F)
        requires
            forall|element: &T| call_requires(keep_it, (element,)),
        ensures
            exists|kept: Seq<bool>|
                {
                    &&& kept.len() == old(self)@.len()
                    &&& forall|i: int|
                        0 <= i < kept.len() ==> call_ensures(
                            keep_it,
                            (&old(self)@[i],),
                            #[trigger] kept[i],
                        )
                    &&& final(self)@ == spec_retained(old(self)@, kept)
                },
    {
        let mut source: Vec<T> = Vec::new();
        std::mem::swap(&mut source, &mut self.vec);
        let ghost all = source@;
        let ghost mut kept: Seq<bool> = Seq::empty();
        for element in it: source
            invariant
                it.seq() == all,
                kept.len() == it.index(),
                forall|i: int|
                    0 <= i < kept.len() ==> call_ensures(keep_it, (&all[i],), #[trigger] kept[i]),
                self.vec@ == spec_retained(all.take(kept.len() as int), kept),
                forall|element: &T| call_requires(keep_it, (element,)),
        {
            let keep: bool = keep_it(&element);
            proof {
                let count = kept.len() as int;
                assert(all.take(count + 1).drop_last() =~= all.take(count));
                assert(kept.push(keep).drop_last() =~= kept);
                kept = kept.push(keep);
            }
            if keep {
                self.vec.push(element);
            }
        }
        assert(all.take(kept.len() as int) =~= all);
    }
    /// The number of bytes of the length field.
    pub fn len_len() -> (len_len: usize)
        ensures
            len_len == 1,
    {
        1
    }
}

impl<T: Clone> TlsVecU8<T> {
    /// Makes a vector of clones of the elements of `slice`.
    pub fn from_slice(slice: &[T]) -> (res: Self)
        ensures
            res@.len() == slice@.len(),
            forall|i: int| 0 <= i < slice@.len() ==> cloned(slice@[i], #[trigger] res@[i]),
    {
        let mut vec: Vec<T> = Vec::with_capacity(slice.len());
        vec.extend_from_slice(slice);
        Self { vec }
    }

    /// Clones of the elements as a `Vec`.
    pub fn to_vec(&self) -> (vec: Vec<T>)
        ensures
            vec@.len() == self@.len(),
            forall|i: int| 0 <= i < self@.len() ==> cloned(self@[i], #[trigger] vec@[i]),
    {
        self.vec.clone()
    }
}

impl<T> Default for TlsVecU8<T> {
    /// The vector without elements.
    fn default() -> (res: Self)
        ensures
            res@.len() == 0,
    {
        Self { vec: Vec::new() }
    }
}

impl<T> From<Vec<T>> for TlsVecU8<T> {
    fn from(vec: Vec<T>) -> (res: Self)
        ensures
            res@ == vec@,
    {
        Self { vec }
    }
}

impl<T> FromSpecImpl<Vec<T>> for TlsVecU8<T> {
    open spec fn obeys_from_spec() -> bool {
        true
    }

    closed spec fn from_spec(vec: Vec<T>) -> Self {
        TlsVecU8 { vec }
    }
}

impl<T: Clone> From<&[T]> for TlsVecU8<T> {
    fn from(slice: &[T]) -> (res: Self)
        ensures
            res@.len() == slice@.len(),
            forall|i: int| 0 <= i < slice@.len() ==> cloned(slice@[i], #[trigger] res@[i]),
    {
        Self::from_slice(slice)
    }
}

impl<T: Clone> FromSpecImpl<&[T]> for TlsVecU8<T> {
    /// A clone need not equal what it was made of, so that no function of
    /// the slice gives the result.
    open spec fn obeys_from_spec() -> bool {
        false
    }

    open spec fn from_spec(slice: &[T]) -> Self {
        arbitrary()
    }
}

impl<T> From<TlsVecU8<T>> for Vec<T> {
    fn from(vector: TlsVecU8<T>) -> (res: Self)
        ensures
            res@ == vector@,
    {
        vector.into_vec()
    }
}

impl<T> FromSpecImpl<TlsVecU8<T>> for Vec<T> {
    /// What is handed out may be another `Vec` than the one held, with the
    /// same elements.
    open spec fn obeys_from_spec() -> bool {
        false
    }

    open spec fn from_spec(vector: TlsVecU8<T>) -> Self {
        arbitrary()
    }
}

impl<T> std::ops::Index<usize> for TlsVecU8<T> {
    type Output = T;

    fn index(&self, index: usize) -> (element: &T)
        ensures
            *element == self@[index as int],
    {
        &self.vec[index]
    }
}

impl<T> vstd::std_specs::core::IndexSpecImpl<usize> for TlsVecU8<T> {
    open spec fn index_req(&self, index: &usize) -> bool {
        *index < self@.len()
    }
}

impl<T> std::borrow::Borrow<[T]> for TlsVecU8<T> {
    /// The elements as a slice.
    fn borrow(&self) -> (slice: &[T])
        ensures
            spec_slice_holds(slice, self@),
    {
        self.vec.as_slice()
    }
}

impl<T: TlsSize> TlsSize for TlsVecU8<T> {
    open spec fn spec_serialized_len(&self) -> nat {
        spec_vector_len(1, self@)
    }

    fn serialized_len(&self) -> (len: usize) {
        vector_serialized_len(1, self.vec.as_slice())
    }
}

impl<T: Serialize> Serialize for TlsVecU8<T> {
    open spec fn spec_serialize(&self) -> Result<Seq<u8>, ErrorView> {
        spec_serialize_vector(1, self@)
    }

    fn tls_serialize(&self, writer: &mut Vec<u8>) -> (res: Result<usize, Error>) {
        serialize_vector(1, self.vec.as_slice(), writer)
    }
}

impl<T: TlsSize> TlsSize for &TlsVecU8<T> {
    open spec fn spec_serialized_len(&self) -> nat {
        spec_vector_len(1, self@)
    }

    fn serialized_len(&self) -> (len: usize) {
        vector_serialized_len(1, self.vec.as_slice())
    }
}

impl<T: Serialize> Serialize for &TlsVecU8<T> {
    open spec fn spec_serialize(&self) -> Result<Seq<u8>, ErrorView> {
        spec_serialize_vector(1, self@)
    }

    fn tls_serialize(&self, writer: &mut Vec<u8>) -> (res: Result<usize, Error>) {
        serialize_vector(1, self.vec.as_slice(), writer)
    }
}

impl<T: Deserialize> Deserialize for TlsVecU8<T> {
    open spec fn spec_deserialize(bytes: Seq<u8>) -> Result<nat, ErrorView> {
        spec_deserialize_vector::<T>(1, bytes)
    }

    open spec fn decodes_to(bytes: Seq<u8>, value: Self) -> bool {
        spec_vector_decodes_to(1, bytes, value@)
    }

    fn tls_deserialize(bytes: &mut &[u8]) -> (res: Result<Self, Error>) {
        match deserialize_vector::<T>(1, bytes) {
            Ok(vec) => Ok(Self { vec }),
            Err(error) => Err(error),
        }
    }
}

/// Decoding a `TlsVecU8` undoes encoding it, whatever bytes follow the
/// encoding, where decoding an element undoes encoding it and no element has
/// an empty encoding.
pub proof fn lemma_tls_vec_u8_round_trips<T: Serialize + Deserialize>()
    requires
        round_trips::<T>(),
        encodes_nonempty::<T>(),
    ensures
        round_trips::<TlsVecU8<T>>(),
        encodes_nonempty::<TlsVecU8<T>>(),
{
    assert forall|value: TlsVecU8<T>, rest: Seq<u8>| #[trigger]
        round_trips_at(value, rest) by {
        if value.spec_serialize() is Ok {
            lemma_vector_round_trips(1, value@, rest);
        }
    }
    assert forall|value: TlsVecU8<T>| #[trigger]
        value.spec_serialize() matches Ok(bytes) ==> bytes.len() > 0 by {
        lemma_be_bytes_len(spec_elements_len(value@), 1);
    }
}

/// A `TlsVecU8` of elements that announce the sizes of their encodings
/// announces the size of its own.
pub proof fn lemma_tls_vec_u8_announces_its_size<T: Serialize>()
    requires
        announces_its_size::<T>(),
    ensures
        announces_its_size::<TlsVecU8<T>>(),
{
    assert forall|value: TlsVecU8<T>| #[trigger]
        value.spec_serialize() matches Ok(bytes) ==> bytes.len()
            == value.spec_serialized_len() by {
        lemma_vector_announces_its_size(1, value@);
    }
}

/// The same bytes never decode to two `TlsVecU8` with different elements,
/// where they never decode to two different elements.
pub proof fn lemma_tls_vec_u8_decodes_uniquely<T: Deserialize>(
    bytes: Seq<u8>,
    one: TlsVecU8<T>,
    other: TlsVecU8<T>,
)
    requires
        decodes_uniquely::<T>(),
        TlsVecU8::<T>::decodes_to(bytes, one),
        TlsVecU8::<T>::decodes_to(bytes, other),
    ensures
        one@ == other@,
{
    lemma_vector_decodes_uniquely(1, bytes, one@, other@);
}

/// A vector of `T` whose length field has two bytes on the wire.
#[derive(Clone, Debug, PartialEq, Eq, Hash)]
pub struct TlsVecU16<T> {
    vec: Vec<T>,
}

impl<T> View for TlsVecU16<T> {
    type V = Seq<T>;

    closed spec fn view(&self) -> Seq<T> {
        self.vec@
    }
}

impl<T> TlsVecU16<T> {
    /// Makes a vector of the elements of `vec`.
    pub fn new(vec: Vec<T>) -> (res: Self)
        ensures
            res@ == vec@,
    {
        Self { vec }
    }

    /// The number of elements.
    pub fn len(&self) -> (len: usize)
        ensures
            len == self@.len(),
    {
        self.vec.len()
    }

    /// The elements as a slice.
    pub fn as_slice(&self) -> (slice: &[T])
        ensures
            slice@ == self@,
    {
        self.vec.as_slice()
    }

    /// Whether the vector has no element.
    pub fn is_empty(&self) -> (empty: bool)
        ensures
            empty == (self@.len() == 0),
    {
        self.vec.len() == 0
    }

    /// Gives the elements up as a `Vec`.
    pub fn into_vec(self) -> (vec: Vec<T>)
        ensures
            vec@ == self@,
    {
        self.vec
    }

    /// Adds `value` as the last element.
    pub fn push(&mut self, value: T)
        ensures
            final(self)@ == old(self)@.push(value),
    {
        self.vec.push(value);
    }

    /// Takes the last element off, if there is one.
    pub fn pop(&mut self) -> (value: Option<T>)
        ensures
            match value {
                Some(last) => old(self)@.len() > 0 && last == old(self)@.last() && final(self)@
                    == old(self)@.drop_last(),
                None => old(self)@.len() == 0 && final(self)@ == old(self)@,
            },
    {
        self.vec.pop()
    }

    /// The element at `index`, if there is one.
    pub fn get(&self, index: usize) -> (element: Option<&T>)
        ensures
            match element {
                Some(found) => index < self@.len() && *found == self@[index as int],
                None => index >= self@.len(),
            },
    {
        if index < self.vec.len() {
            Some(&self.vec[index])
        } else {
            None
        }
    }

    /// An iterator over the elements, from the first to the last.
    pub fn iter(&self) -> (iter: std::slice::Iter<'_, T>)
        ensures
            into_iter_elts(iter) == self@,
            IteratorSpec::decrease(&iter) is Some,
            IteratorSpec::initial_value_relation(&iter, &iter),
    {
        self.vec.as_slice().iter()
    }

    /// Keeps the elements for which `keep_it` returns `true`, in their order,
    /// and drops the others. `keep_it` is asked once for each element, from
    /// the first to the last.
    pub fn retain<F: Fn(&T) -> bool>(&mut self, keep_it: F)
        requires
            forall|element: &T| call_requires(keep_it, (element,)),
        ensures
            exists|kept: Seq<bool>|
                {
                    &&& kept.len() == old(self)@.len()
                    &&& forall|i: int|
                        0 <= i < kept.len() ==> call_ensures(
                            keep_it,
                            (&old(self)@[i],),
                            #[trigger] kept[i],
                        )
                    &&& final(self)@ == spec_retained(old(self)@, kept)
                },
    {
        let mut source: Vec<T> = Vec::new();
        std::mem::swap(&mut source, &mut self.vec);
        let ghost all = source@;
        let ghost mut kept: Seq<bool> = Seq::empty();
        for element in it: source
            invariant
                it.seq() == all,
                kept.len() == it.index(),
                forall|i: int|
                    0 <= i < kept.len() ==> call_ensures(keep_it, (&all[i],), #[trigger] kept[i]),
                self.vec@ == spec_retained(all.take(kept.len() as int), kept),
                forall|element: &T| call_requires(keep_it, (element,)),
        {
            let keep: bool = keep_it(&element);
            proof {
                let count = kept.len() as int;
                assert(all.take(count + 1).drop_last() =~= all.take(count));
                assert(kept.push(keep).drop_last() =~= kept);
                kept = kept.push(keep);
            }
            if keep {
                self.vec.push(element);
            }
        }
        assert(all.take(kept.len() as int) =~= all);
    }
    /// The number of bytes of the length field.
    pub fn len_len() -> (len_len: usize)
        ensures
            len_len == 2,
    {
        2
    }
}

impl<T: Clone> TlsVecU16<T> {
    /// Makes a vector of clones of the elements of `slice`.
    pub fn from_slice(slice: &[T]) -> (res: Self)
        ensures
            res@.len() == slice@.len(),
            forall|i: int| 0 <= i < slice@.len() ==> cloned(slice@[i], #[trigger] res@[i]),
    {
        let mut vec: Vec<T> = Vec::with_capacity(slice.len());
        vec.extend_from_slice(slice);
        Self { vec }
    }

    /// Clones of the elements as a `Vec`.
    pub fn to_vec(&self) -> (vec: Vec<T>)
        ensures
            vec@.len() == self@.len(),
            forall|i: int| 0 <= i < self@.len() ==> cloned(self@[i], #[trigger] vec@[i]),
    {
        self.vec.clone()
    }
}

impl<T> Default for TlsVecU16<T> {
    /// The vector without elements.
    fn default() -> (res: Self)
        ensures
            res@.len() == 0,
    {
        Self { vec: Vec::new() }
    }
}

impl<T> From<Vec<T>> for TlsVecU16<T> {
    fn from(vec: Vec<T>) -> (res: Self)
        ensures
            res@ == vec@,
    {
        Self { vec }
    }
}

impl<T> FromSpecImpl<Vec<T>> for TlsVecU16<T> {
    open spec fn obeys_from_spec() -> bool {
        true
    }

    closed spec fn from_spec(vec: Vec<T>) -> Self {
        TlsVecU16 { vec }
    }
}

impl<T: Clone> From<&[T]> for TlsVecU16<T> {
    fn from(slice: &[T]) -> (res: Self)
        ensures
            res@.len() == slice@.len(),
            forall|i: int| 0 <= i < slice@.len() ==> cloned(slice@[i], #[trigger] res@[i]),
    {
        Self::from_slice(slice)
    }
}

impl<T: Clone> FromSpecImpl<&[T]> for TlsVecU16<T> {
    /// A clone need not equal what it was made of, so that no function of
    /// the slice gives the result.
    open spec fn obeys_from_spec() -> bool {
        false
    }

    open spec fn from_spec(slice: &[T]) -> Self {
        arbitrary()
    }
}

impl<T> From<TlsVecU16<T>> for Vec<T> {
    fn from(vector: TlsVecU16<T>) -> (res: Self)
        ensures
            res@ == vector@,
    {
        vector.into_vec()
    }
}

impl<T> FromSpecImpl<TlsVecU16<T>> for Vec<T> {
    /// What is handed out may be another `Vec` than the one held, with the
    /// same elements.
    open spec fn obeys_from_spec() -> bool {
        false
    }

    open spec fn from_spec(vector: TlsVecU16<T>) -> Self {
        arbitrary()
    }
}

impl<T> std::ops::Index<usize> for TlsVecU16<T> {
    type Output = T;

    fn index(&self, index: usize) -> (element: &T)
        ensures
            *element == self@[index as int],
    {
        &self.vec[index]
    }
}

impl<T> vstd::std_specs::core::IndexSpecImpl<usize> for TlsVecU16<T> {
    open spec fn index_req(&self, index: &usize) -> bool {
        *index < self@.len()
    }
}

impl<T> std::borrow::Borrow<[T]> for TlsVecU16<T> {
    /// The elements as a slice.
    fn borrow(&self) -> (slice: &[T])
        ensures
            spec_slice_holds(slice, self@),
    {
        self.vec.as_slice()
    }
}

impl<T: TlsSize> TlsSize for TlsVecU16<T> {
    open spec fn spec_serialized_len(&self) -> nat {
        spec_vector_len(2, self@)
    }

    fn serialized_len(&self) -> (len: usize) {
        vector_serialized_len(2, self.vec.as_slice())
    }
}

impl<T: Serialize> Serialize for TlsVecU16<T> {
    open spec fn spec_serialize(&self) -> Result<Seq<u8>, ErrorView> {
        spec_serialize_vector(2, self@)
    }

    fn tls_serialize(&self, writer: &mut Vec<u8>) -> (res: Result<usize, Error>) {
        serialize_vector(2, self.vec.as_slice(), writer)
    }
}

impl<T: TlsSize> TlsSize for &TlsVecU16<T> {
    open spec fn spec_serialized_len(&self) -> nat {
        spec_vector_len(2, self@)
    }

    fn serialized_len(&self) -> (len: usize) {
        vector_serialized_len(2, self.vec.as_slice())
    }
}

impl<T: Serialize> Serialize for &TlsVecU16<T> {
    open spec fn spec_serialize(&self) -> Result<Seq<u8>, ErrorView> {
        spec_serialize_vector(2, self@)
    }

    fn tls_serialize(&self, writer: &mut Vec<u8>) -> (res: Result<usize, Error>) {
        serialize_vector(2, self.vec.as_slice(), writer)
    }
}

impl<T: Deserialize> Deserialize for TlsVecU16<T> {
    open spec fn spec_deserialize(bytes: Seq<u8>) -> Result<nat, ErrorView> {
        spec_deserialize_vector::<T>(2, bytes)
    }

    open spec fn decodes_to(bytes: Seq<u8>, value: Self) -> bool {
        spec_vector_decodes_to(2, bytes, value@)
    }

    fn tls_deserialize(bytes: &mut &[u8]) -> (res: Result<Self, Error>) {
        match deserialize_vector::<T>(2, bytes) {
            Ok(vec) => Ok(Self { vec }),
            Err(error) => Err(error),
        }
    }
}

/// Decoding a `TlsVecU16` undoes encoding it, whatever bytes follow the
/// encoding, where decoding an element undoes encoding it and no element has
/// an empty encoding.
pub proof fn lemma_tls_vec_u16_round_trips<T: Serialize + Deserialize>()
    requires
        round_trips::<T>(),
        encodes_nonempty::<T>(),
    ensures
        round_trips::<TlsVecU16<T>>(),
        encodes_nonempty::<TlsVecU16<T>>(),
{
    assert forall|value: TlsVecU16<T>, rest: Seq<u8>| #[trigger]
        round_trips_at(value, rest) by {
        if value.spec_serialize() is Ok {
            lemma_vector_round_trips(2, value@, rest);
        }
    }
    assert forall|value: TlsVecU16<T>| #[trigger]
        value.spec_serialize() matches Ok(bytes) ==> bytes.len() > 0 by {
        lemma_be_bytes_len(spec_elements_len(value@), 2);
    }
}

/// A `TlsVecU16` of elements that announce the sizes of their encodings
/// announces the size of its own.
pub proof fn lemma_tls_vec_u16_announces_its_size<T: Serialize>()
    requires
        announces_its_size::<T>(),
    ensures
        announces_its_size::<TlsVecU16<T>>(),
{
    assert forall|value: TlsVecU16<T>| #[trigger]
        value.spec_serialize() matches Ok(bytes) ==> bytes.len()
            == value.spec_serialized_len() by {
        lemma_vector_announces_its_size(2, value@);
    }
}

/// The same bytes never decode to two `TlsVecU16` with different elements,
/// where they never decode to two different elements.
pub proof fn lemma_tls_vec_u16_decodes_uniquely<T: Deserialize>(
    bytes: Seq<u8>,
    one: TlsVecU16<T>,
    other: TlsVecU16<T>,
)
    requires
        decodes_uniquely::<T>(),
        TlsVecU16::<T>::decodes_to(bytes, one),
        TlsVecU16::<T>::decodes_to(bytes, other),
    ensures
        one@ == other@,
{
    lemma_vector_decodes_uniquely(2, bytes, one@, other@);
}

/// A vector of `T` whose length field has four bytes on the wire.
#[derive(Clone, Debug, PartialEq, Eq, Hash)]
pub struct TlsVecU32<T> {
    vec: Vec<T>,
}

impl<T> View for TlsVecU32<T> {
    type V = Seq<T>;

    closed spec fn view(&self) -> Seq<T> {
        self.vec@
    }
}

impl<T> TlsVecU32<T> {
    /// Makes a vector of the elements of `vec`.
    pub fn new(vec: Vec<T>) -> (res: Self)
        ensures
            res@ == vec@,
    {
        Self { vec }
    }

    /// The number of elements.
    pub fn len(&self) -> (len: usize)
        ensures
            len == self@.len(),
    {
        self.vec.len()
    }

    /// The elements as a slice.
    pub fn as_slice(&self) -> (slice: &[T])
        ensures
            slice@ == self@,
    {
        self.vec.as_slice()
    }

    /// Whether the vector has no element.
    pub fn is_empty(&self) -> (empty: bool)
        ensures
            empty == (self@.len() == 0),
    {
        self.vec.len() == 0
    }

    /// Gives the elements up as a `Vec`.
    pub fn into_vec(self) -> (vec: Vec<T>)
        ensures
            vec@ == self@,
    {
        self.vec
    }

    /// Adds `value` as the last element.
    pub fn push(&mut self, value: T)
        ensures
            final(self)@ == old(self)@.push(value),
    {
        self.vec.push(value);
    }

    /// Takes the last element off, if there is one.
    pub fn pop(&mut self) -> (value: Option<T>)
        ensures
            match value {
                Some(last) => old(self)@.len() > 0 && last == old(self)@.last() && final(self)@
                    == old(self)@.drop_last(),
                None => old(self)@.len() == 0 && final(self)@ == old(self)@,
            },
    {
        self.vec.pop()
    }

    /// The element at `index`, if there is one.
    pub fn get(&self, index: usize) -> (element: Option<&T>)
        ensures
            match element {
                Some(found) => index < self@.len() && *found == self@[index as int],
                None => index >= self@.len(),
            },
    {
        if index < self.vec.len() {
            Some(&self.vec[index])
        } else {
            None
        }
    }

    /// An iterator over the elements, from the first to the last.
    pub fn iter(&self) -> (iter: std::slice::Iter<'_, T>)
        ensures
            into_iter_elts(iter) == self@,
            IteratorSpec::decrease(&iter) is Some,
            IteratorSpec::initial_value_relation(&iter, &iter),
    {
        self.vec.as_slice().iter()
    }

    /// Keeps the elements for which `keep_it` returns `true`, in their order,
    /// and drops the others. `keep_it` is asked once for each element, from
    /// the first to the last.
    pub fn retain<F: Fn(&T) -> bool>(&mut self, keep_it: F)
        requires
            forall|element: &T| call_requires(keep_it, (element,)),
        ensures
            exists|kept: Seq<bool>|
                {
                    &&& kept.len() == old(self)@.len()
                    &&& forall|i: int|
                        0 <= i < kept.len() ==> call_ensures(
                            keep_it,
                            (&old(self)@[i],),
                            #[trigger] kept[i],
                        )
                    &&& final(self)@ == spec_retained(old(self)@, kept)
                },
    {
        let mut source: Vec<T> = Vec::new();
        std::mem::swap(&mut source, &mut self.vec);
        let ghost all = source@;
        let ghost mut kept: Seq<bool> = Seq::empty();
        for element in it: source
            invariant
                it.seq() == all,
                kept.len() == it.index(),
                forall|i: int|
                    0 <= i < kept.len() ==> call_ensures(keep_it, (&all[i],), #[trigger] kept[i]),
                self.vec@ == spec_retained(all.take(kept.len() as int), kept),
                forall|element: &T| call_requires(keep_it, (element,)),
        {
            let keep: bool = keep_it(&element);
            proof {
                let count = kept.len() as int;
                assert(all.take(count + 1).drop_last() =~= all.take(count));
                assert(kept.push(keep).drop_last() =~= kept);
                kept = kept.push(keep);
            }
            if keep {
                self.vec.push(element);
            }
        }
        assert(all.take(kept.len() as int) =~= all);
    }
    /// The number of bytes of the length field.
    pub fn len_len() -> (len_len: usize)
        ensures
            len_len == 4,
    {
        4
    }
}

impl<T: Clone> TlsVecU32<T> {
    /// Makes a vector of clones of the elements of `slice`.
    pub fn from_slice(slice: &[T]) -> (res: Self)
        ensures
            res@.len() == slice@.len(),
            forall|i: int| 0 <= i < slice@.len() ==> cloned(slice@[i], #[trigger] res@[i]),
    {
        let mut vec: Vec<T> = Vec::with_capacity(slice.len());
        vec.extend_from_slice(slice);
        Self { vec }
    }

    /// Clones of the elements as a `Vec`.
    pub fn to_vec(&self) -> (vec: Vec<T>)
        ensures
            vec@.len() == self@.len(),
            forall|i: int| 0 <= i < self@.len() ==> cloned(self@[i], #[trigger] vec@[i]),
    {
        self.vec.clone()
    }
}

impl<T> Default for TlsVecU32<T> {
    /// The vector without elements.
    fn default() -> (res: Self)
        ensures
            res@.len() == 0,
    {
        Self { vec: Vec::new() }
    }
}

impl<T> From<Vec<T>> for TlsVecU32<T> {
    fn from(vec: Vec<T>) -> (res: Self)
        ensures
            res@ == vec@,
    {
        Self { vec }
    }
}

impl<T> FromSpecImpl<Vec<T>> for TlsVecU32<T> {
    open spec fn obeys_from_spec() -> bool {
        true
    }

    closed spec fn from_spec(vec: Vec<T>) -> Self {
        TlsVecU32 { vec }
    }
}

impl<T: Clone> From<&[T]> for TlsVecU32<T> {
    fn from(slice: &[T]) -> (res: Self)
        ensures
            res@.len() == slice@.len(),
            forall|i: int| 0 <= i < slice@.len() ==> cloned(slice@[i], #[trigger] res@[i]),
    {
        Self::from_slice(slice)
    }
}

impl<T: Clone> FromSpecImpl<&[T]> for TlsVecU32<T> {
    /// A clone need not equal what it was made of, so that no function of
    /// the slice gives the result.
    open spec fn obeys_from_spec() -> bool {
        false
    }

    open spec fn from_spec(slice: &[T]) -> Self {
        arbitrary()
    }
}

impl<T> From<TlsVecU32<T>> for Vec<T> {
    fn from(vector: TlsVecU32<T>) -> (res: Self)
        ensures
            res@ == vector@,
    {
        vector.into_vec()
    }
}

impl<T> FromSpecImpl<TlsVecU32<T>> for Vec<T> {
    /// What is handed out may be another `Vec` than the one held, with the
    /// same elements.
    open spec fn obeys_from_spec() -> bool {
        false
    }

    open spec fn from_spec(vector: TlsVecU32<T>) -> Self {
        arbitrary()
    }
}

impl<T> std::ops::Index<usize> for TlsVecU32<T> {
    type Output = T;

    fn index(&self, index: usize) -> (element: &T)
        ensures
            *element == self@[index as int],
    {
        &self.vec[index]
    }
}

impl<T> vstd::std_specs::core::IndexSpecImpl<usize> for TlsVecU32<T> {
    open spec fn index_req(&self, index: &usize) -> bool {
        *index < self@.len()
    }
}

impl<T> std::borrow::Borrow<[T]> for TlsVecU32<T> {
    /// The elements as a slice.
    fn borrow(&self) -> (slice: &[T])
        ensures
            spec_slice_holds(slice, self@),
    {
        self.vec.as_slice()
    }
}

impl<T: TlsSize> TlsSize for TlsVecU32<T> {
    open spec fn spec_serialized_len(&self) -> nat {
        spec_vector_len(4, self@)
    }

    fn serialized_len(&self) -> (len: usize) {
        vector_serialized_len(4, self.vec.as_slice())
    }
}

impl<T: Serialize> Serialize for TlsVecU32<T> {
    open spec fn spec_serialize(&self) -> Result<Seq<u8>, ErrorView> {
        spec_serialize_vector(4, self@)
    }

    fn tls_serialize(&self, writer: &mut Vec<u8>) -> (res: Result<usize, Error>) {
        serialize_vector(4, self.vec.as_slice(), writer)
    }
}

impl<T: TlsSize> TlsSize for &TlsVecU32<T> {
    open spec fn spec_serialized_len(&self) -> nat {
        spec_vector_len(4, self@)
    }

    fn serialized_len(&self) -> (len: usize) {
        vector_serialized_len(4, self.vec.as_slice())
    }
}

impl<T: Serialize> Serialize for &TlsVecU32<T> {
    open spec fn spec_serialize(&self) -> Result<Seq<u8>, ErrorView> {
        spec_serialize_vector(4, self@)
    }

    fn tls_serialize(&self, writer: &mut Vec<u8>) -> (res: Result<usize, Error>) {
        serialize_vector(4, self.vec.as_slice(), writer)
    }
}

impl<T: Deserialize> Deserialize for TlsVecU32<T> {
    open spec fn spec_deserialize(bytes: Seq<u8>) -> Result<nat, ErrorView> {
        spec_deserialize_vector::<T>(4, bytes)
    }

    open spec fn decodes_to(bytes: Seq<u8>, value: Self) -> bool {
        spec_vector_decodes_to(4, bytes, value@)
    }

    fn tls_deserialize(bytes: &mut &[u8]) -> (res: Result<Self, Error>) {
        match deserialize_vector::<T>(4, bytes) {
            Ok(vec) => Ok(Self { vec }),
            Err(error) => Err(error),
        }
    }
}

/// Decoding a `TlsVecU32` undoes encoding it, whatever bytes follow the
/// encoding, where decoding an element undoes encoding it and no element has
/// an empty encoding.
pub proof fn lemma_tls_vec_u32_round_trips<T: Serialize + Deserialize>()
    requires
        round_trips::<T>(),
        encodes_nonempty::<T>(),
    ensures
        round_trips::<TlsVecU32<T>>(),
        encodes_nonempty::<TlsVecU32<T>>(),
{
    assert forall|value: TlsVecU32<T>, rest: Seq<u8>| #[trigger]
        round_trips_at(value, rest) by {
        if value.spec_serialize() is Ok {
            lemma_vector_round_trips(4, value@, rest);
        }
    }
    assert forall|value: TlsVecU32<T>| #[trigger]
        value.spec_serialize() matches Ok(bytes) ==> bytes.len() > 0 by {
        lemma_be_bytes_len(spec_elements_len(value@), 4);
    }
}

/// A `TlsVecU32` of elements that announce the sizes of their encodings
/// announces the size of its own.
pub proof fn lemma_tls_vec_u32_announces_its_size<T: Serialize>()
    requires
        announces_its_size::<T>(),
    ensures
        announces_its_size::<TlsVecU32<T>>(),
{
    assert forall|value: TlsVecU32<T>| #[trigger]
        value.spec_serialize() matches Ok(bytes) ==> bytes.len()
            == value.spec_serialized_len() by {
        lemma_vector_announces_its_size(4, value@);
    }
}

/// The same bytes never decode to two `TlsVecU32` with different elements,
/// where they never decode to two different elements.
pub proof fn lemma_tls_vec_u32_decodes_uniquely<T: Deserialize>(
    bytes: Seq<u8>,
    one: TlsVecU32<T>,
    other: TlsVecU32<T>,
)
    requires
        decodes_uniquely::<T>(),
        TlsVecU32::<T>::decodes_to(bytes, one),
        TlsVecU32::<T>::decodes_to(bytes, other),
    ensures
        one@ == other@,
{
    lemma_vector_decodes_uniquely(4, bytes, one@, other@);
}

} // verus!
