//! The codec of length-prefixed vectors, for every width of the length field.
//!
//! On the wire a vector is a length field of one, two or four bytes in network
//! byte order and then the encodings of its elements, one after another. The
//! length field counts the bytes of those encodings, not the elements.
//!
//! Decoding bounds the input to the declared number of bytes and decodes
//! elements until that payload is used up. An element that does not fit in
//! what is left of the payload, or that takes no byte at all, is a decoding
//! error: the elements must end exactly where the payload does.

use vstd::prelude::*;
use vstd::slice::slice_subrange;
use crate::codec::{Deserialize, Serialize, TlsSize};
use crate::error::{
    read_length_message, read_length_text, written_length_message, written_length_text, Error,
    ErrorView,
};
use crate::primitives::{
    lemma_be_bytes_len, lemma_be_value_bound, lemma_ranges, read_unsigned, spec_be_bytes,
    spec_be_value, spec_range, write_be,
};
use crate::zeroize::{zeroize_vector, Zeroizable};

verus! {

/// Whether `len_len` is a width that a length field can have.
pub open spec fn spec_is_len_len(len_len: nat) -> bool {
    len_len == 1 || len_len == 2 || len_len == 4
}

/// The longest payload, in bytes, that a length field of `len_len` bytes can
/// declare.
pub open spec fn spec_max_len(len_len: nat) -> nat {
    (spec_range(len_len) - 1) as nat
}

/// The sizes that `elements` announce, added up.
pub open spec fn spec_elements_len<T: TlsSize>(elements: Seq<T>) -> nat
    decreases elements.len(),
{
    if elements.len() == 0 {
        0
    } else {
        spec_elements_len(elements.drop_last()) + elements.last().spec_serialized_len()
    }
}

/// The size that a vector of `elements` announces: the length field and the
/// sizes of the elements.
pub open spec fn spec_vector_len<T: TlsSize>(len_len: nat, elements: Seq<T>) -> nat {
    len_len + spec_elements_len(elements)
}

/// The encodings of `elements` one after another, or the failure of the first
/// element that cannot be encoded.
pub open spec fn spec_serialize_elements<T: Serialize>(elements: Seq<T>) -> Result<
    Seq<u8>,
    ErrorView,
>
    decreases elements.len(),
{
    if elements.len() == 0 {
        Ok(Seq::empty())
    } else {
        match spec_serialize_elements(elements.drop_last()) {
            Err(failure) => Err(failure),
            Ok(front) => match elements.last().spec_serialize() {
                Err(failure) => Err(failure),
                Ok(bytes) => Ok(front + bytes),
            },
        }
    }
}

/// The encoding of a vector of `elements` behind a length field of `len_len`
/// bytes.
///
/// The payload length is taken from the sizes that the elements announce. A
/// length that the field cannot hold is refused before anything is encoded.
/// Then the elements are encoded in order, and the first failure among them is
/// the vector's. Elements whose encodings are not as long as announced make
/// the vector fail too.
pub open spec fn spec_serialize_vector<T: Serialize>(len_len: nat, elements: Seq<T>) -> Result<
    Seq<u8>,
    ErrorView,
> {
    let byte_length = spec_elements_len(elements);
    if byte_length > spec_max_len(len_len) {
        Err(ErrorView::InvalidVectorLength)
    } else {
        match spec_serialize_elements(elements) {
            Err(failure) => Err(failure),
            Ok(payload) => if payload.len() == byte_length {
                Ok(spec_be_bytes(byte_length, len_len) + payload)
            } else {
                Err(
                    ErrorView::EncodingError(
                        written_length_text(len_len + byte_length, len_len + payload.len()),
                    ),
                )
            },
        }
    }
}

/// The failure, if any, of decoding elements of `T` one after another from
/// `rest` until nothing is left of it. `rest` is what remains of a payload of
/// `declared` bytes after `read` of them.
pub open spec fn spec_payload_failure<T: Deserialize>(
    rest: Seq<u8>,
    read: nat,
    declared: nat,
) -> Option<ErrorView>
    decreases rest.len(),
{
    if rest.len() == 0 {
        None
    } else {
        match T::spec_deserialize(rest) {
            Ok(taken) => if 0 < taken <= rest.len() {
                spec_payload_failure::<T>(rest.skip(taken as int), read + taken, declared)
            } else {
                Some(ErrorView::DecodingError(read_length_text(read, declared)))
            },
            Err(ErrorView::EndOfStream) => Some(
                ErrorView::DecodingError(read_length_text(read, declared)),
            ),
            Err(failure) => Some(failure),
        }
    }
}

/// What decoding a vector of `T` behind a length field of `len_len` bytes from
/// the front of `bytes` ends in.
///
/// The input must hold the length field and as many bytes as it declares, or
/// the stream has ended early. The declared bytes must then decode to
/// elements that end where the payload does.
pub open spec fn spec_deserialize_vector<T: Deserialize>(len_len: nat, bytes: Seq<u8>) -> Result<
    nat,
    ErrorView,
> {
    if bytes.len() < len_len {
        Err(ErrorView::EndOfStream)
    } else {
        let declared = spec_be_value(bytes.take(len_len as int));
        if bytes.len() < len_len + declared {
            Err(ErrorView::EndOfStream)
        } else {
            match spec_payload_failure::<T>(
                bytes.subrange(len_len as int, (len_len + declared) as int),
                0,
                declared,
            ) {
                Some(failure) => Err(failure),
                None => Ok(len_len + declared),
            }
        }
    }
}

/// Where in `payload` decoding `elements` one after another from its front
/// ends, if `payload` begins with encodings that decode to them; each element
/// takes at least one byte.
pub open spec fn spec_elements_end<T: Deserialize>(payload: Seq<u8>, elements: Seq<T>) -> Option<
    nat,
>
    decreases elements.len(),
{
    if elements.len() == 0 {
        Some(0)
    } else {
        match spec_elements_end(payload, elements.drop_last()) {
            None => None,
            Some(start) => if start <= payload.len() {
                match T::spec_deserialize(payload.skip(start as int)) {
                    Ok(taken) => if 0 < taken <= payload.len() - start && T::decodes_to(
                        payload.subrange(start as int, (start + taken) as int),
                        elements.last(),
                    ) {
                        Some(start + taken)
                    } else {
                        None
                    },
                    Err(_) => None,
                }
            } else {
                None
            },
        }
    }
}

/// Whether `bytes`, a length field of `len_len` bytes and a payload, decode to
/// the vector of `elements`: the elements decode one after another from the
/// payload and end where it does.
pub open spec fn spec_vector_decodes_to<T: Deserialize>(
    len_len: nat,
    bytes: Seq<u8>,
    elements: Seq<T>,
) -> bool {
    &&& bytes.len() >= len_len
    &&& spec_elements_end(bytes.skip(len_len as int), elements) == Some(
        (bytes.len() - len_len) as nat,
    )
}

/// The encoding of the byte string `content` behind a length field of
/// `len_len` bytes.
pub open spec fn spec_serialize_bytes(len_len: nat, content: Seq<u8>) -> Result<
    Seq<u8>,
    ErrorView,
> {
    if content.len() > spec_max_len(len_len) {
        Err(ErrorView::InvalidVectorLength)
    } else {
        Ok(spec_be_bytes(content.len(), len_len) + content)
    }
}

/// What decoding a byte string behind a length field of `len_len` bytes from
/// the front of `bytes` ends in.
pub open spec fn spec_deserialize_bytes(len_len: nat, bytes: Seq<u8>) -> Result<nat, ErrorView> {
    if bytes.len() < len_len {
        Err(ErrorView::EndOfStream)
    } else {
        let declared = spec_be_value(bytes.take(len_len as int));
        if bytes.len() < len_len + declared {
            Err(ErrorView::EndOfStream)
        } else {
            Ok(len_len + declared)
        }
    }
}

/// Whether `bytes`, a length field of `len_len` bytes and a payload, decode to
/// the byte string `content`.
pub open spec fn spec_bytes_decode_to(len_len: nat, bytes: Seq<u8>, content: Seq<u8>) -> bool {
    bytes.len() >= len_len && content == bytes.skip(len_len as int)
}

/// Whether `slice` holds `elements`, one after another.
pub open spec fn spec_slice_holds<T>(slice: &[T], elements: Seq<T>) -> bool {
    slice@ == elements
}

/// Those of `elements` whose place holds `true` in `kept`, in their order.
pub open spec fn spec_retained<T>(elements: Seq<T>, kept: Seq<bool>) -> Seq<T>
    decreases elements.len(),
{
    if elements.len() == 0 || kept.len() != elements.len() {
        Seq::empty()
    } else {
        let front = spec_retained(elements.drop_last(), kept.drop_last());
        if kept.last() {
            front.push(elements.last())
        } else {
            front
        }
    }
}

/// The sizes of the first elements add up to no more than the sizes of all.
pub proof fn lemma_elements_len_grows<T: TlsSize>(elements: Seq<T>, count: int)
    requires
        0 <= count <= elements.len(),
    ensures
        spec_elements_len(elements.take(count)) <= spec_elements_len(elements),
    decreases elements.len(),
{
    if count == elements.len() {
        assert(elements.take(count) =~= elements);
    } else {
        assert(elements.drop_last().take(count) =~= elements.take(count));
        lemma_elements_len_grows(elements.drop_last(), count);
    }
}

/// Taking one element more adds its size.
pub proof fn lemma_elements_len_step<T: TlsSize>(elements: Seq<T>, index: int)
    requires
        0 <= index < elements.len(),
    ensures
        spec_elements_len(elements.take(index + 1)) == spec_elements_len(elements.take(index))
            + elements[index].spec_serialized_len(),
{
    assert(elements.take(index + 1).drop_last() =~= elements.take(index));
}

/// Once an element fails to encode, the failure is that of every longer run
/// of elements.
pub proof fn lemma_serialize_elements_failure<T: Serialize>(elements: Seq<T>, count: int)
    requires
        0 <= count <= elements.len(),
        spec_serialize_elements(elements.take(count)) is Err,
    ensures
        spec_serialize_elements(elements) == spec_serialize_elements(elements.take(count)),
    decreases elements.len(),
{
    if count == elements.len() {
        assert(elements.take(count) =~= elements);
    } else {
        assert(elements.drop_last().take(count) =~= elements.take(count));
        lemma_serialize_elements_failure(elements.drop_last(), count);
    }
}

/// The largest payload length that a length field of `len_len` bytes can
/// declare.
pub fn max_len(len_len: usize) -> (max: usize)
    requires
        spec_is_len_len(len_len as nat),
    ensures
        max == spec_max_len(len_len as nat),
{
    proof {
        lemma_ranges();
    }
    if len_len == 1 {
        0xff
    } else if len_len == 2 {
        0xffff
    } else {
        0xffff_ffff
    }
}

/// The size that a vector of `elements` announces behind a length field of
/// `len_len` bytes.
pub fn vector_serialized_len<T: TlsSize>(len_len: usize, elements: &[T]) -> (len: usize)
    requires
        spec_vector_len(len_len as nat, elements@) <= usize::MAX,
    ensures
        len == spec_vector_len(len_len as nat, elements@),
{
    let mut len: usize = len_len;
    let mut index: usize = 0;
    while index < elements.len()
        invariant
            index <= elements@.len(),
            len == len_len + spec_elements_len(elements@.take(index as int)),
            spec_vector_len(len_len as nat, elements@) <= usize::MAX,
        decreases elements@.len() - index,
    {
        proof {
            lemma_elements_len_step(elements@, index as int);
            lemma_elements_len_grows(elements@, index + 1);
        }
        len = len + elements[index].serialized_len();
        index = index + 1;
    }
    assert(elements@.take(index as int) =~= elements@);
    len
}

/// Appends to `writer` the encoding of a vector of `elements` behind a length
/// field of `len_len` bytes, and returns the number of bytes appended.
///
/// A payload too long for the length field is refused before a byte is
/// written. After any other failure what was written of the vector is taken
/// off `writer` again.
#[verifier::loop_isolation(false)]
pub fn serialize_vector<T: Serialize>(len_len: usize, elements: &[T], writer: &mut Vec<u8>) -> (res:
    Result<usize, Error>)
    requires
        spec_is_len_len(len_len as nat),
        spec_vector_len(len_len as nat, elements@) <= usize::MAX,
    ensures
        match spec_serialize_vector(len_len as nat, elements@) {
            Ok(bytes) => {
                &&& res matches Ok(written)
                &&& written == bytes.len()
                &&& final(writer)@ == old(writer)@ + bytes
            },
            Err(failure) => {
                &&& res matches Err(error)
                &&& error@ == failure
                &&& final(writer)@ == old(writer)@
            },
        },
{
    let start: usize = writer.len();
    let serialized_len: usize = vector_serialized_len(len_len, elements);
    let byte_length: usize = serialized_len - len_len;
    if byte_length > max_len(len_len) {
        return Err(Error::InvalidVectorLength);
    }
    proof {
        lemma_ranges();
        lemma_be_bytes_len(byte_length as nat, len_len as nat);
    }
    write_be(byte_length as u64, len_len, writer);
    let ghost header = spec_be_bytes(byte_length as nat, len_len as nat);
    let mut written: usize = len_len;
    let mut index: usize = 0;
    while index < elements.len()
        invariant
            index <= elements@.len(),
            spec_vector_len(len_len as nat, elements@) <= usize::MAX,
            header.len() == len_len,
            spec_serialize_elements(elements@.take(index as int)) matches Ok(payload) && writer@
                == old(writer)@ + header + payload && written == len_len + payload.len(),
        decreases elements@.len() - index,
    {
        let ghost payload = spec_serialize_elements(elements@.take(index as int))->Ok_0;
        proof {
            lemma_elements_len_step(elements@, index as int);
            lemma_elements_len_grows(elements@, index + 1);
            assert(elements@.take(index + 1).drop_last() =~= elements@.take(index as int));
        }
        match elements[index].tls_serialize(writer) {
            Ok(count) => {
                proof {
                    let bytes = elements@[index as int].spec_serialize()->Ok_0;
                    assert(writer@ =~= old(writer)@ + header + (payload + bytes));
                    assert(writer@.len() == writer.len());
                }
                written = written + count;
            },
            Err(error) => {
                proof {
                    lemma_serialize_elements_failure(elements@, index + 1);
                }
                writer.truncate(start);
                assert(writer@ =~= old(writer)@);
                return Err(error);
            },
        }
        index = index + 1;
    }
    assert(elements@.take(index as int) =~= elements@);
    let ghost payload = spec_serialize_elements(elements@)->Ok_0;
    assert(writer@ =~= old(writer)@ + (header + payload));
    if written != serialized_len {
        writer.truncate(start);
        assert(writer@ =~= old(writer)@);
        return Err(Error::EncodingError(written_length_message(serialized_len, written)));
    }
    Ok(written)
}

/// Decoding from what is left of a payload goes on as decoding the payload
/// did, once an element has been taken from its front.
proof fn lemma_payload_failure_step<T: Deserialize>(rest: Seq<u8>, read: nat, declared: nat)
    requires
        rest.len() > 0,
        T::spec_deserialize(rest) matches Ok(taken) && 0 < taken <= rest.len(),
    ensures
        spec_payload_failure::<T>(rest, read, declared) == spec_payload_failure::<T>(
            rest.skip(T::spec_deserialize(rest)->Ok_0 as int),
            read + T::spec_deserialize(rest)->Ok_0,
            declared,
        ),
{
}

/// Decodes the elements of a vector of `T` behind a length field of `len_len`
/// bytes from the front of `bytes` into `elements`, and moves `bytes` past
/// the vector.
///
/// On failure `elements` holds what was decoded until then, for the caller to
/// dispose of.
#[verifier::loop_isolation(false)]
pub fn deserialize_elements<T: Deserialize>(
    len_len: usize,
    bytes: &mut &[u8],
    elements: &mut Vec<T>,
) -> (res: Result<(), Error>)
    requires
        spec_is_len_len(len_len as nat),
        old(elements)@.len() == 0,
    ensures
        match spec_deserialize_vector::<T>(len_len as nat, old(bytes)@) {
            Ok(taken) => {
                &&& taken <= old(bytes)@.len()
                &&& final(bytes)@ == old(bytes)@.skip(taken as int)
                &&& res is Ok
                &&& spec_vector_decodes_to(
                    len_len as nat,
                    old(bytes)@.take(taken as int),
                    final(elements)@,
                )
            },
            Err(failure) => res matches Err(error) && error@ == failure,
        },
{
    proof {
        lemma_ranges();
        if old(bytes)@.len() >= len_len {
            lemma_be_value_bound(old(bytes)@.take(len_len as int));
        }
    }
    let declared: usize = match read_unsigned(bytes, len_len) {
        Ok(value) => value as usize,
        Err(error) => {
            return Err(error);
        },
    };
    let length: usize = bytes.len();
    if length < declared {
        return Err(Error::EndOfStream);
    }
    let mut rest: &[u8] = slice_subrange(*bytes, 0, declared);
    *bytes = slice_subrange(*bytes, declared, length);
    let ghost payload = old(bytes)@.subrange(len_len as int, len_len + declared);
    assert(rest@ =~= payload);
    assert(payload.skip(0) =~= payload);
    assert(elements@ =~= Seq::<T>::empty());
    while rest.len() > 0
        invariant
            payload.len() == declared,
            rest@.len() <= declared,
            rest@ == payload.skip(declared - rest@.len()),
            spec_payload_failure::<T>(rest@, (declared - rest@.len()) as nat, declared as nat)
                == spec_payload_failure::<T>(payload, 0, declared as nat),
            spec_elements_end(payload, elements@) == Some((declared - rest@.len()) as nat),
        decreases rest@.len(),
    {
        let left: usize = rest.len();
        let ghost before = rest@;
        let ghost read = (declared - left) as nat;
        match T::tls_deserialize(&mut rest) {
            Ok(element) => {
                if rest.len() == left {
                    elements.push(element);
                    return Err(
                        Error::DecodingError(read_length_message(declared - left, declared)),
                    );
                }
                proof {
                    let taken = T::spec_deserialize(before)->Ok_0;
                    lemma_payload_failure_step::<T>(before, read, declared as nat);
                    assert(before.take(taken as int) =~= payload.subrange(
                        read as int,
                        (read + taken) as int,
                    ));
                    assert(rest@ =~= payload.skip(declared - rest@.len()));
                    assert(elements@.push(element).drop_last() =~= elements@);
                }
                elements.push(element);
            },
            Err(Error::EndOfStream) => {
                return Err(Error::DecodingError(read_length_message(declared - left, declared)));
            },
            Err(error) => {
                return Err(error);
            },
        }
    }
    proof {
        assert(old(bytes)@.take(len_len + declared).skip(len_len as int) =~= payload);
        assert(bytes@ =~= old(bytes)@.skip(len_len + declared));
    }
    Ok(())
}

/// Decodes a vector of `T` behind a length field of `len_len` bytes from the
/// front of `bytes`, and moves `bytes` past it.
pub fn deserialize_vector<T: Deserialize>(len_len: usize, bytes: &mut &[u8]) -> (res: Result<
    Vec<T>,
    Error,
>)
    requires
        spec_is_len_len(len_len as nat),
    ensures
        match spec_deserialize_vector::<T>(len_len as nat, old(bytes)@) {
            Ok(taken) => {
                &&& taken <= old(bytes)@.len()
                &&& final(bytes)@ == old(bytes)@.skip(taken as int)
                &&& res matches Ok(elements)
                &&& spec_vector_decodes_to(
                    len_len as nat,
                    old(bytes)@.take(taken as int),
                    elements@,
                )
            },
            Err(failure) => res matches Err(error) && error@ == failure,
        },
{
    let mut elements: Vec<T> = Vec::new();
    match deserialize_elements(len_len, bytes, &mut elements) {
        Ok(()) => Ok(elements),
        Err(error) => Err(error),
    }
}

/// Decodes a vector of secrets behind a length field of `len_len` bytes from
/// the front of `bytes`, and moves `bytes` past it.
///
/// Where decoding fails, the elements that were decoded until then are
/// cleared from memory before the failure is returned.
pub fn deserialize_secret_vector<T: Deserialize + Zeroizable>(
    len_len: usize,
    bytes: &mut &[u8],
) -> (res: Result<Vec<T>, Error>)
    requires
        spec_is_len_len(len_len as nat),
    ensures
        match spec_deserialize_vector::<T>(len_len as nat, old(bytes)@) {
            Ok(taken) => {
                &&& taken <= old(bytes)@.len()
                &&& final(bytes)@ == old(bytes)@.skip(taken as int)
                &&& res matches Ok(elements)
                &&& spec_vector_decodes_to(
                    len_len as nat,
                    old(bytes)@.take(taken as int),
                    elements@,
                )
            },
            Err(failure) => res matches Err(error) && error@ == failure,
        },
{
    let mut elements: Vec<T> = Vec::new();
    match deserialize_elements(len_len, bytes, &mut elements) {
        Ok(()) => Ok(elements),
        Err(error) => {
            let _ = zeroize_vector(&mut elements);
            Err(error)
        },
    }
}

/// Appends to `writer` the encoding of the byte string `content` behind a
/// length field of `len_len` bytes, and returns the number of bytes appended.
///
/// A byte string too long for the length field is refused before a byte is
/// written.
pub fn serialize_bytes(len_len: usize, content: &[u8], writer: &mut Vec<u8>) -> (res: Result<
    usize,
    Error,
>)
    requires
        spec_is_len_len(len_len as nat),
        len_len + content@.len() <= usize::MAX,
    ensures
        match spec_serialize_bytes(len_len as nat, content@) {
            Ok(bytes) => {
                &&& res matches Ok(written)
                &&& written == bytes.len()
                &&& final(writer)@ == old(writer)@ + bytes
            },
            Err(failure) => {
                &&& res matches Err(error)
                &&& error@ == failure
                &&& final(writer)@ == old(writer)@
            },
        },
{
    let byte_length: usize = content.len();
    if byte_length > max_len(len_len) {
        return Err(Error::InvalidVectorLength);
    }
    proof {
        lemma_ranges();
        lemma_be_bytes_len(byte_length as nat, len_len as nat);
    }
    write_be(byte_length as u64, len_len, writer);
    writer.extend_from_slice(content);
    assert(writer@ =~= old(writer)@ + (spec_be_bytes(byte_length as nat, len_len as nat)
        + content@));
    Ok(len_len + byte_length)
}

/// Decodes a byte string behind a length field of `len_len` bytes from the
/// front of `bytes`, and moves `bytes` past it.
pub fn deserialize_bytes(len_len: usize, bytes: &mut &[u8]) -> (res: Result<Vec<u8>, Error>)
    requires
        spec_is_len_len(len_len as nat),
    ensures
        match spec_deserialize_bytes(len_len as nat, old(bytes)@) {
            Ok(taken) => {
                &&& taken <= old(bytes)@.len()
                &&& final(bytes)@ == old(bytes)@.skip(taken as int)
                &&& res matches Ok(content)
                &&& spec_bytes_decode_to(len_len as nat, old(bytes)@.take(taken as int), content@)
            },
            Err(failure) => res matches Err(error) && error@ == failure,
        },
{
    proof {
        lemma_ranges();
        if old(bytes)@.len() >= len_len {
            lemma_be_value_bound(old(bytes)@.take(len_len as int));
        }
    }
    let declared: usize = match read_unsigned(bytes, len_len) {
        Ok(value) => value as usize,
        Err(error) => {
            return Err(error);
        },
    };
    let length: usize = bytes.len();
    if length < declared {
        return Err(Error::EndOfStream);
    }
    let mut content: Vec<u8> = Vec::with_capacity(declared);
    content.extend_from_slice(slice_subrange(*bytes, 0, declared));
    *bytes = slice_subrange(*bytes, declared, length);
    proof {
        assert(content@ =~= old(bytes)@.take(len_len + declared).skip(len_len as int));
        assert(bytes@ =~= old(bytes)@.skip(len_len + declared));
    }
    Ok(content)
}

} // verus!
