//! What holds of the vector codec for every input: decoding undoes encoding,
//! decoding is a function, and a byte string is a vector of `u8`.

use vstd::prelude::*;
use crate::codec::{
    announces_its_size, decodes_uniquely, encodes_nonempty, round_trips, round_trips_at,
    Deserialize, Serialize,
};
use crate::error::ErrorView;
use crate::primitives::{
    lemma_be_bytes_len, lemma_be_value_of_bytes, lemma_range_grows, lemma_u8_round_trips,
    spec_be_bytes, spec_be_value,
};
use crate::vector::{
    spec_bytes_decode_to, spec_deserialize_bytes, spec_deserialize_vector, spec_elements_end,
    spec_elements_len, spec_max_len, spec_payload_failure, spec_serialize_bytes,
    spec_serialize_elements, spec_serialize_vector, spec_vector_decodes_to, spec_vector_len,
};

verus! {

/// The encoding of some elements is that of the first and then that of the
/// others.
pub proof fn lemma_serialize_elements_front<T: Serialize>(elements: Seq<T>)
    requires
        elements.len() > 0,
        spec_serialize_elements(elements) is Ok,
    ensures
        elements[0].spec_serialize() is Ok,
        spec_serialize_elements(elements.skip(1)) is Ok,
        spec_serialize_elements(elements)->Ok_0 == elements[0].spec_serialize()->Ok_0
            + spec_serialize_elements(elements.skip(1))->Ok_0,
    decreases elements.len(),
{
    let last = elements.last().spec_serialize()->Ok_0;
    if elements.len() == 1 {
        assert(elements.drop_last() =~= Seq::<T>::empty());
        assert(elements.skip(1) =~= Seq::<T>::empty());
        assert(Seq::<u8>::empty() + last =~= last + Seq::<u8>::empty());
    } else {
        let front = elements.drop_last();
        lemma_serialize_elements_front(front);
        assert(elements.skip(1).drop_last() =~= front.skip(1));
        let first = elements[0].spec_serialize()->Ok_0;
        let middle = spec_serialize_elements(front.skip(1))->Ok_0;
        assert((first + middle) + last =~= first + (middle + last));
    }
}

/// The encodings of elements that decoding finds again, followed by any
/// bytes, decode to those elements one after another, ending where the
/// encodings do.
pub proof fn lemma_elements_end_of_encoding<T: Serialize + Deserialize>(
    elements: Seq<T>,
    tail: Seq<u8>,
)
    requires
        round_trips::<T>(),
        encodes_nonempty::<T>(),
        spec_serialize_elements(elements) is Ok,
    ensures
        spec_elements_end(spec_serialize_elements(elements)->Ok_0 + tail, elements) == Some(
            spec_serialize_elements(elements)->Ok_0.len(),
        ),
    decreases elements.len(),
{
    if elements.len() > 0 {
        let payload = spec_serialize_elements(elements)->Ok_0;
        let front = spec_serialize_elements(elements.drop_last())->Ok_0;
        let last = elements.last().spec_serialize()->Ok_0;
        lemma_elements_end_of_encoding(elements.drop_last(), last + tail);
        assert(front + (last + tail) =~= payload + tail);
        assert(round_trips_at(elements.last(), tail));
        assert((payload + tail).skip(front.len() as int) =~= last + tail);
        assert((payload + tail).subrange(front.len() as int, (front.len() + last.len()) as int)
            =~= last);
    }
}

/// The encodings of elements that decoding finds again decode without
/// failure when nothing follows them.
pub proof fn lemma_payload_of_encoding<T: Serialize + Deserialize>(
    elements: Seq<T>,
    read: nat,
    declared: nat,
)
    requires
        round_trips::<T>(),
        encodes_nonempty::<T>(),
        spec_serialize_elements(elements) is Ok,
    ensures
        spec_payload_failure::<T>(spec_serialize_elements(elements)->Ok_0, read, declared) is None,
    decreases elements.len(),
{
    if elements.len() > 0 {
        lemma_serialize_elements_front(elements);
        let payload = spec_serialize_elements(elements)->Ok_0;
        let first = elements[0].spec_serialize()->Ok_0;
        let others = spec_serialize_elements(elements.skip(1))->Ok_0;
        assert(round_trips_at(elements[0], others));
        assert(payload.skip(first.len() as int) =~= others);
        lemma_payload_of_encoding(elements.skip(1), read + first.len(), declared);
    }
}

/// Decoding a vector undoes encoding it, whatever bytes follow the encoding,
/// where decoding an element undoes encoding it and no element has an empty
/// encoding.
pub proof fn lemma_vector_round_trips<T: Serialize + Deserialize>(
    len_len: nat,
    elements: Seq<T>,
    rest: Seq<u8>,
)
    requires
        round_trips::<T>(),
        encodes_nonempty::<T>(),
        spec_serialize_vector(len_len, elements) is Ok,
    ensures
        spec_deserialize_vector::<T>(len_len, spec_serialize_vector(len_len, elements)->Ok_0 + rest)
            == Ok::<nat, ErrorView>(spec_serialize_vector(len_len, elements)->Ok_0.len()),
        spec_vector_decodes_to(len_len, spec_serialize_vector(len_len, elements)->Ok_0, elements),
{
    let bytes = spec_serialize_vector(len_len, elements)->Ok_0;
    let payload = spec_serialize_elements(elements)->Ok_0;
    let header = spec_be_bytes(payload.len(), len_len);
    lemma_be_bytes_len(payload.len(), len_len);
    lemma_range_grows(0, len_len);
    lemma_be_value_of_bytes(payload.len(), len_len);
    assert((bytes + rest).take(len_len as int) =~= header);
    assert((bytes + rest).subrange(len_len as int, (len_len + payload.len()) as int) =~= payload);
    lemma_payload_of_encoding(elements, 0, payload.len());
    lemma_elements_end_of_encoding(elements, Seq::<u8>::empty());
    assert(payload + Seq::<u8>::empty() =~= payload);
    assert(bytes.skip(len_len as int) =~= payload);
}

/// Where a run of elements decodes, every shorter run of them does, and ends
/// earlier.
pub proof fn lemma_elements_end_of_prefix<T: Deserialize>(
    payload: Seq<u8>,
    elements: Seq<T>,
    count: int,
)
    requires
        0 <= count <= elements.len(),
        spec_elements_end(payload, elements) is Some,
    ensures
        spec_elements_end(payload, elements.take(count)) is Some,
        spec_elements_end(payload, elements.take(count))->Some_0 + (elements.len() - count)
            <= spec_elements_end(payload, elements)->Some_0,
    decreases elements.len(),
{
    if count == elements.len() {
        assert(elements.take(count) =~= elements);
    } else {
        assert(elements.drop_last().take(count) =~= elements.take(count));
        lemma_elements_end_of_prefix(payload, elements.drop_last(), count);
    }
}

/// Of two runs of elements that the same payload decodes to, the shorter is
/// the beginning of the longer, where no bytes decode to two elements.
pub proof fn lemma_elements_agree<T: Deserialize>(payload: Seq<u8>, one: Seq<T>, other: Seq<T>)
    requires
        decodes_uniquely::<T>(),
        spec_elements_end(payload, one) is Some,
        spec_elements_end(payload, other) is Some,
        one.len() <= other.len(),
    ensures
        one == other.take(one.len() as int),
        spec_elements_end(payload, other.take(one.len() as int)) == spec_elements_end(payload, one),
    decreases one.len(),
{
    if one.len() == 0 {
        assert(one =~= other.take(0));
    } else {
        let count = one.len() as int;
        lemma_elements_agree(payload, one.drop_last(), other);
        lemma_elements_end_of_prefix(payload, other, count);
        assert(other.take(count).drop_last() =~= other.take(count - 1));
        assert(one =~= other.take(count));
    }
}

/// The same bytes never decode to two different vectors, where they never
/// decode to two different elements.
pub proof fn lemma_vector_decodes_uniquely<T: Deserialize>(
    len_len: nat,
    bytes: Seq<u8>,
    one: Seq<T>,
    other: Seq<T>,
)
    requires
        decodes_uniquely::<T>(),
        spec_vector_decodes_to(len_len, bytes, one),
        spec_vector_decodes_to(len_len, bytes, other),
    ensures
        one == other,
{
    let payload = bytes.skip(len_len as int);
    if one.len() <= other.len() {
        lemma_elements_agree(payload, one, other);
        lemma_elements_end_of_prefix(payload, other, one.len() as int);
        assert(other.take(one.len() as int) =~= other);
    } else {
        lemma_elements_agree(payload, other, one);
        lemma_elements_end_of_prefix(payload, one, other.len() as int);
        assert(one.take(other.len() as int) =~= one);
    }
}

/// Bytes taken as elements announce one byte each and encode to themselves.
pub proof fn lemma_bytes_as_elements(content: Seq<u8>)
    ensures
        spec_elements_len(content) == content.len(),
        spec_serialize_elements(content) == Ok::<Seq<u8>, ErrorView>(content),
    decreases content.len(),
{
    reveal_with_fuel(spec_be_bytes, 2);
    if content.len() == 0 {
        assert(content =~= Seq::<u8>::empty());
    } else {
        lemma_bytes_as_elements(content.drop_last());
        assert(spec_be_bytes(content.last() as nat, 1) =~= seq![content.last()]);
        assert(content.drop_last() + seq![content.last()] =~= content);
    }
}

/// A payload decodes to its own first bytes as elements, one byte each.
pub proof fn lemma_bytes_elements_end(payload: Seq<u8>, count: int)
    requires
        0 <= count <= payload.len(),
    ensures
        spec_elements_end(payload, payload.take(count)) == Some(count as nat),
    decreases count,
{
    reveal_with_fuel(spec_be_value, 2);
    if count > 0 {
        lemma_bytes_elements_end(payload, count - 1);
        assert(payload.take(count).drop_last() =~= payload.take(count - 1));
        let byte = payload.subrange(count - 1, count);
        assert(byte.drop_last() =~= Seq::<u8>::empty());
        assert(byte.last() == payload[count - 1]);
    }
}

/// Decoding bytes as elements never fails.
pub proof fn lemma_bytes_payload(rest: Seq<u8>, read: nat, declared: nat)
    ensures
        spec_payload_failure::<u8>(rest, read, declared) is None,
    decreases rest.len(),
{
    if rest.len() > 0 {
        lemma_bytes_payload(rest.skip(1), read + 1, declared);
    }
}

/// A byte string goes on the wire as the vector of its bytes does: the two
/// have the same encoding or the same failure, the same size, and the same
/// decoding.
pub proof fn lemma_bytes_as_vector(len_len: nat, content: Seq<u8>, bytes: Seq<u8>)
    ensures
        spec_serialize_bytes(len_len, content) == spec_serialize_vector(len_len, content),
        spec_deserialize_bytes(len_len, bytes) == spec_deserialize_vector::<u8>(len_len, bytes),
        spec_bytes_decode_to(len_len, bytes, content) == spec_vector_decodes_to(
            len_len,
            bytes,
            content,
        ),
{
    lemma_bytes_as_elements(content);
    if bytes.len() >= len_len {
        let declared = spec_be_value(bytes.take(len_len as int));
        if bytes.len() >= len_len + declared {
            lemma_bytes_payload(
                bytes.subrange(len_len as int, (len_len + declared) as int),
                0,
                declared,
            );
        }
        let payload = bytes.skip(len_len as int);
        lemma_bytes_elements_end(payload, payload.len() as int);
        assert(payload.take(payload.len() as int) =~= payload);
        if spec_vector_decodes_to(len_len, bytes, content) {
            lemma_u8_round_trips();
            lemma_vector_decodes_uniquely(len_len, bytes, content, payload);
        }
    }
}

/// A byte string survives encoding and decoding, whatever bytes follow its
/// encoding.
pub proof fn lemma_bytes_round_trip(len_len: nat, content: Seq<u8>, rest: Seq<u8>)
    requires
        spec_serialize_bytes(len_len, content) is Ok,
    ensures
        spec_deserialize_bytes(len_len, spec_serialize_bytes(len_len, content)->Ok_0 + rest)
            == Ok::<nat, ErrorView>(spec_serialize_bytes(len_len, content)->Ok_0.len()),
        spec_bytes_decode_to(len_len, spec_serialize_bytes(len_len, content)->Ok_0, content),
{
    let bytes = spec_serialize_bytes(len_len, content)->Ok_0;
    let header = spec_be_bytes(content.len(), len_len);
    lemma_be_bytes_len(content.len(), len_len);
    lemma_range_grows(0, len_len);
    lemma_be_value_of_bytes(content.len(), len_len);
    assert((bytes + rest).take(len_len as int) =~= header);
    assert(bytes.skip(len_len as int) =~= content);
}

/// The encodings of elements that announce their sizes are together as long
/// as the sizes add up to.
pub proof fn lemma_elements_announce_their_size<T: Serialize>(elements: Seq<T>)
    requires
        announces_its_size::<T>(),
        spec_serialize_elements(elements) is Ok,
    ensures
        spec_serialize_elements(elements)->Ok_0.len() == spec_elements_len(elements),
    decreases elements.len(),
{
    if elements.len() > 0 {
        lemma_elements_announce_their_size(elements.drop_last());
        let last = elements.last();
        assert(last.spec_serialize() matches Ok(bytes) ==> bytes.len()
            == last.spec_serialized_len());
    }
}

/// A vector of elements that announce their sizes announces its own: its
/// encoding is as long as announced, and encoding it fails only where the
/// payload is too long for the length field or an element cannot be encoded,
/// never for a length that was announced and not written.
pub proof fn lemma_vector_announces_its_size<T: Serialize>(len_len: nat, elements: Seq<T>)
    requires
        announces_its_size::<T>(),
    ensures
        match spec_serialize_vector(len_len, elements) {
            Ok(bytes) => bytes.len() == spec_vector_len(len_len, elements),
            Err(failure) => {
                ||| failure == ErrorView::InvalidVectorLength && spec_elements_len(elements)
                    > spec_max_len(len_len)
                ||| spec_serialize_elements(elements) == Err::<Seq<u8>, ErrorView>(failure)
            },
        },
{
    if spec_serialize_elements(elements) is Ok {
        lemma_elements_announce_their_size(elements);
        lemma_be_bytes_len(spec_elements_len(elements), len_len);
    }
}

/// A vector whose elements announce more bytes than the length field can
/// declare is not encoded, whatever the elements are.
pub proof fn lemma_vector_length_bound<T: Serialize>(len_len: nat, elements: Seq<T>)
    requires
        spec_elements_len(elements) > spec_max_len(len_len),
    ensures
        spec_serialize_vector(len_len, elements) == Err::<Seq<u8>, ErrorView>(
            ErrorView::InvalidVectorLength,
        ),
{
}

/// An input that ends before the declared length of a vector does not decode:
/// the stream has ended early, whatever the elements are.
pub proof fn lemma_vector_truncated<T: Deserialize>(len_len: nat, bytes: Seq<u8>)
    requires
        bytes.len() < len_len || bytes.len() < len_len + spec_be_value(
            bytes.take(len_len as int),
        ),
    ensures
        spec_deserialize_vector::<T>(len_len, bytes) == Err::<nat, ErrorView>(
            ErrorView::EndOfStream,
        ),
        spec_deserialize_bytes(len_len, bytes) == Err::<nat, ErrorView>(ErrorView::EndOfStream),
{
}

} // verus!
