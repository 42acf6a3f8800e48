//! The three capabilities of a value on the wire: its size, its encoding and
//! its decoding.
//!
//! Each capability pairs an executable method with a specification function
//! that says, over sequences of bytes, what the method does. A type that
//! states no specification of its own has an unspecified one: nothing can
//! then be proved about it, and nothing false is assumed.

use vstd::prelude::*;
use crate::error::{held_length_message, Error, ErrorView};

verus! {

/// The size capability: how many bytes the encoding of a value takes,
/// computed without encoding it.
pub trait TlsSize {
    /// The number of bytes that this value announces for its encoding.
    open spec fn spec_serialized_len(&self) -> nat {
        arbitrary()
    }

    /// The number of bytes that this value announces for its encoding.
    fn serialized_len(&self) -> (len: usize)
        requires
            self.spec_serialized_len() <= usize::MAX,
        ensures
            len == self.spec_serialized_len(),
    ;
}

/// The encoding capability.
pub trait Serialize: TlsSize {
    /// The encoding of this value, or the failure that encoding it ends in.
    open spec fn spec_serialize(&self) -> Result<Seq<u8>, ErrorView> {
        arbitrary()
    }

    /// Appends the encoding of `self` to `writer` and returns the number of
    /// bytes appended. On failure `writer` is as it was: nothing of a value
    /// that cannot be encoded stays behind.
    fn tls_serialize(&self, writer: &mut Vec<u8>) -> (res: Result<usize, Error>)
        requires
            self.spec_serialized_len() <= usize::MAX,
        ensures
            match self.spec_serialize() {
                Ok(bytes) => {
                    &&& res matches Ok(written)
                    &&& written == bytes.len()
                    &&& final(writer)@ == old(writer)@ + bytes
                },
                Err(failure) => {
                    &&& res matches Err(error)
                    &&& error@ == failure
                    &&& final(writer)@ == old(writer)@
                },
            },
    ;

    /// Encodes `self` into a vector of its own.
    ///
    /// The count that [`Serialize::tls_serialize`] returns is compared with
    /// the number of bytes that the vector holds, and a difference is an
    /// encoding error. Of an impl that Verus has read the two are proved
    /// equal; the comparison is for the others.
    fn tls_serialize_detached(&self) -> (res: Result<Vec<u8>, Error>)
        requires
            self.spec_serialized_len() <= usize::MAX,
        ensures
            match self.spec_serialize() {
                Ok(bytes) => res matches Ok(buffer) && buffer@ == bytes,
                Err(failure) => res matches Err(error) && error@ == failure,
            },
    {
        let mut buffer: Vec<u8> = Vec::with_capacity(self.serialized_len());
        match self.tls_serialize(&mut buffer) {
            Ok(written) => {
                if written != buffer.len() {
                    Err(Error::EncodingError(held_length_message(written, buffer.len())))
                } else {
                    Ok(buffer)
                }
            },
            Err(error) => Err(error),
        }
    }
}

/// The decoding capability.
pub trait Deserialize: Sized {
    /// What decoding one value from the front of `bytes` ends in: the number
    /// of bytes that the value takes, or the failure.
    open spec fn spec_deserialize(bytes: Seq<u8>) -> Result<nat, ErrorView> {
        arbitrary()
    }

    /// Whether `value` is what `bytes`, the whole encoding of one value, decode
    /// to.
    open spec fn decodes_to(bytes: Seq<u8>, value: Self) -> bool {
        arbitrary()
    }

    /// Decodes one value from the front of `bytes` and moves `bytes` past it.
    /// On failure `bytes` is left somewhere in what it held.
    fn tls_deserialize(bytes: &mut &[u8]) -> (res: Result<Self, Error>)
        ensures
            match Self::spec_deserialize(old(bytes)@) {
                Ok(taken) => {
                    &&& taken <= old(bytes)@.len()
                    &&& final(bytes)@ == old(bytes)@.skip(taken as int)
                    &&& res matches Ok(value)
                    &&& Self::decodes_to(old(bytes)@.take(taken as int), value)
                },
                Err(failure) => res matches Err(error) && error@ == failure,
            },
    ;
}

/// Whether decoding finds `value` again in its own encoding, whatever bytes
/// come after it.
pub open spec fn round_trips_at<T: Serialize + Deserialize>(value: T, rest: Seq<u8>) -> bool {
    value.spec_serialize() matches Ok(bytes) ==> {
        &&& T::spec_deserialize(bytes + rest) == Ok::<nat, ErrorView>(bytes.len())
        &&& T::decodes_to(bytes, value)
    }
}

/// Whether decoding undoes encoding for every value of `T`.
pub open spec fn round_trips<T: Serialize + Deserialize>() -> bool {
    forall|value: T, rest: Seq<u8>| #[trigger] round_trips_at(value, rest)
}

/// Whether the same bytes never decode to two different values of `T`.
pub open spec fn decodes_uniquely<T: Deserialize>() -> bool {
    forall|bytes: Seq<u8>, one: T, other: T|
        T::decodes_to(bytes, one) && T::decodes_to(bytes, other) ==> one == other
}

/// Whether every value of `T` that can be encoded takes at least one byte.
pub open spec fn encodes_nonempty<T: Serialize>() -> bool {
    forall|value: T| #[trigger]
        value.spec_serialize() matches Ok(bytes) ==> bytes.len() > 0
}

/// Whether every value of `T` that can be encoded announces the size that its
/// encoding has.
pub open spec fn announces_its_size<T: Serialize>() -> bool {
    forall|value: T| #[trigger]
        value.spec_serialize() matches Ok(bytes) ==> bytes.len() == value.spec_serialized_len()
}

} // verus!
