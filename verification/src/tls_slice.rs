//! Borrowed elements and bytes that are written as vectors are, without a
//! copy of them being made first. They are only written: what is decoded is
//! owned.

use vstd::prelude::*;
use crate::codec::{Serialize, TlsSize};
use crate::error::{Error, ErrorView};
use crate::vector::{
    serialize_bytes, serialize_vector, spec_serialize_bytes, spec_serialize_vector,
    spec_vector_len, vector_serialized_len,
};

verus! {

/// Borrowed bytes that go on the wire as a byte string whose length field has
/// one byte, as a [`TlsByteVecU8`](crate::tls_byte_vec::TlsByteVecU8) of them would.
pub struct TlsByteSliceU8<'a>(pub &'a [u8]);

impl<'a> TlsByteSliceU8<'a> {
    /// The borrowed bytes.
    fn as_slice(&self) -> (slice: &[u8])
        ensures
            slice@ == self.0@,
    {
        self.0
    }
}

impl<'a> TlsSize for TlsByteSliceU8<'a> {
    open spec fn spec_serialized_len(&self) -> nat {
        1 + self.0@.len()
    }

    fn serialized_len(&self) -> (len: usize) {
        self.as_slice().len() + 1
    }
}

impl<'a> Serialize for TlsByteSliceU8<'a> {
    open spec fn spec_serialize(&self) -> Result<Seq<u8>, ErrorView> {
        spec_serialize_bytes(1, self.0@)
    }

    fn tls_serialize(&self, writer: &mut Vec<u8>) -> (res: Result<usize, Error>) {
        serialize_bytes(1, self.as_slice(), writer)
    }
}

impl<'a> TlsSize for &TlsByteSliceU8<'a> {
    open spec fn spec_serialized_len(&self) -> nat {
        1 + self.0@.len()
    }

    fn serialized_len(&self) -> (len: usize) {
        self.as_slice().len() + 1
    }
}

impl<'a> Serialize for &TlsByteSliceU8<'a> {
    open spec fn spec_serialize(&self) -> Result<Seq<u8>, ErrorView> {
        spec_serialize_bytes(1, self.0@)
    }

    fn tls_serialize(&self, writer: &mut Vec<u8>) -> (res: Result<usize, Error>) {
        serialize_bytes(1, self.as_slice(), writer)
    }
}

/// Borrowed bytes that go on the wire as a byte string whose length field has
/// two bytes, as a [`TlsByteVecU16`](crate::tls_byte_vec::TlsByteVecU16) of them would.
pub struct TlsByteSliceU16<'a>(pub &'a [u8]);

impl<'a> TlsByteSliceU16<'a> {
    /// The borrowed bytes.
    fn as_slice(&self) -> (slice: &[u8])
        ensures
            slice@ == self.0@,
    {
        self.0
    }
}

impl<'a> TlsSize for TlsByteSliceU16<'a> {
    open spec fn spec_serialized_len(&self) -> nat {
        2 + self.0@.len()
    }

    fn serialized_len(&self) -> (len: usize) {
        self.as_slice().len() + 2
    }
}

impl<'a> Serialize for TlsByteSliceU16<'a> {
    open spec fn spec_serialize(&self) -> Result<Seq<u8>, ErrorView> {
        spec_serialize_bytes(2, self.0@)
    }

    fn tls_serialize(&self, writer: &mut Vec<u8>) -> (res: Result<usize, Error>) {
        serialize_bytes(2, self.as_slice(), writer)
    }
}

impl<'a> TlsSize for &TlsByteSliceU16<'a> {
    open spec fn spec_serialized_len(&self) -> nat {
        2 + self.0@.len()
    }

    fn serialized_len(&self) -> (len: usize) {
        self.as_slice().len() + 2
    }
}

impl<'a> Serialize for &TlsByteSliceU16<'a> {
    open spec fn spec_serialize(&self) -> Result<Seq<u8>, ErrorView> {
        spec_serialize_bytes(2, self.0@)
    }

    fn tls_serialize(&self, writer: &mut Vec<u8>) -> (res: Result<usize, Error>) {
        serialize_bytes(2, self.as_slice(), writer)
    }
}

/// Borrowed bytes that go on the wire as a byte string whose length field has
/// four bytes, as a [`TlsByteVecU32`](crate::tls_byte_vec::TlsByteVecU32) of them would.
pub struct TlsByteSliceU32<'a>(pub &'a [u8]);

impl<'a> TlsByteSliceU32<'a> {
    /// The borrowed bytes.
    fn as_slice(&self) -> (slice: &[u8])
        ensures
            slice@ == self.0@,
    {
        self.0
    }
}

impl<'a> TlsSize for TlsByteSliceU32<'a> {
    open spec fn spec_serialized_len(&self) -> nat {
        4 + self.0@.len()
    }

    fn serialized_len(&self) -> (len: usize) {
        self.as_slice().len() + 4
    }
}

impl<'a> Serialize for TlsByteSliceU32<'a> {
    open spec fn spec_serialize(&self) -> Result<Seq<u8>, ErrorView> {
        spec_serialize_bytes(4, self.0@)
    }

    fn tls_serialize(&self, writer: &mut Vec<u8>) -> (res: Result<usize, Error>) {
        serialize_bytes(4, self.as_slice(), writer)
    }
}

impl<'a> TlsSize for &TlsByteSliceU32<'a> {
    open spec fn spec_serialized_len(&self) -> nat {
        4 + self.0@.len()
    }

    fn serialized_len(&self) -> (len: usize) {
        self.as_slice().len() + 4
    }
}

impl<'a> Serialize for &TlsByteSliceU32<'a> {
    open spec fn spec_serialize(&self) -> Result<Seq<u8>, ErrorView> {
        spec_serialize_bytes(4, self.0@)
    }

    fn tls_serialize(&self, writer: &mut Vec<u8>) -> (res: Result<usize, Error>) {
        serialize_bytes(4, self.as_slice(), writer)
    }
}

/// Borrowed elements that go on the wire as a vector whose length field has
/// one byte, as a [`TlsVecU8`](crate::tls_vec::TlsVecU8) of them would.
pub struct TlsSliceU8<'a, T>(pub &'a [T]);

impl<'a, T> TlsSliceU8<'a, T> {
    /// The borrowed elements.
    fn as_slice(&self) -> (slice: &[T])
        ensures
            slice@ == self.0@,
    {
        self.0
    }
}

impl<'a, T: TlsSize> TlsSize for TlsSliceU8<'a, T> {
    open spec fn spec_serialized_len(&self) -> nat {
        spec_vector_len(1, self.0@)
    }

    fn serialized_len(&self) -> (len: usize) {
        vector_serialized_len(1, self.as_slice())
    }
}

impl<'a, T: Serialize> Serialize for TlsSliceU8<'a, T> {
    open spec fn spec_serialize(&self) -> Result<Seq<u8>, ErrorView> {
        spec_serialize_vector(1, self.0@)
    }

    fn tls_serialize(&self, writer: &mut Vec<u8>) -> (res: Result<usize, Error>) {
        serialize_vector(1, self.as_slice(), writer)
    }
}

impl<'a, T: TlsSize> TlsSize for &TlsSliceU8<'a, T> {
    open spec fn spec_serialized_len(&self) -> nat {
        spec_vector_len(1, self.0@)
    }

    fn serialized_len(&self) -> (len: usize) {
        vector_serialized_len(1, self.as_slice())
    }
}

impl<'a, T: Serialize> Serialize for &TlsSliceU8<'a, T> {
    open spec fn spec_serialize(&self) -> Result<Seq<u8>, ErrorView> {
        spec_serialize_vector(1, self.0@)
    }

    fn tls_serialize(&self, writer: &mut Vec<u8>) -> (res: Result<usize, Error>) {
        serialize_vector(1, self.as_slice(), writer)
    }
}

/// Borrowed elements that go on the wire as a vector whose length field has
/// two bytes, as a [`TlsVecU16`](crate::tls_vec::TlsVecU16) of them would.
pub struct TlsSliceU16<'a, T>(pub &'a [T]);

impl<'a, T> TlsSliceU16<'a, T> {
    /// The borrowed elements.
    fn as_slice(&self) -> (slice: &[T])
        ensures
            slice@ == self.0@,
    {
        self.0
    }
}

impl<'a, T: TlsSize> TlsSize for TlsSliceU16<'a, T> {
    open spec fn spec_serialized_len(&self) -> nat {
        spec_vector_len(2, self.0@)
    }

    fn serialized_len(&self) -> (len: usize) {
        vector_serialized_len(2, self.as_slice())
    }
}

impl<'a, T: Serialize> Serialize for TlsSliceU16<'a, T> {
    open spec fn spec_serialize(&self) -> Result<Seq<u8>, ErrorView> {
        spec_serialize_vector(2, self.0@)
    }

    fn tls_serialize(&self, writer: &mut Vec<u8>) -> (res: Result<usize, Error>) {
        serialize_vector(2, self.as_slice(), writer)
    }
}

impl<'a, T: TlsSize> TlsSize for &TlsSliceU16<'a, T> {
    open spec fn spec_serialized_len(&self) -> nat {
        spec_vector_len(2, self.0@)
    }

    fn serialized_len(&self) -> (len: usize) {
        vector_serialized_len(2, self.as_slice())
    }
}

impl<'a, T: Serialize> Serialize for &TlsSliceU16<'a, T> {
    open spec fn spec_serialize(&self) -> Result<Seq<u8>, ErrorView> {
        spec_serialize_vector(2, self.0@)
    }

    fn tls_serialize(&self, writer: &mut Vec<u8>) -> (res: Result<usize, Error>) {
        serialize_vector(2, self.as_slice(), writer)
    }
}

/// Borrowed elements that go on the wire as a vector whose length field has
/// four bytes, as a [`TlsVecU32`](crate::tls_vec::TlsVecU32) of them would.
pub struct TlsSliceU32<'a, T>(pub &'a [T]);

impl<'a, T> TlsSliceU32<'a, T> {
    /// The borrowed elements.
    fn as_slice(&self) -> (slice: &[T])
        ensures
            slice@ == self.0@,
    {
        self.0
    }
}

impl<'a, T: TlsSize> TlsSize for TlsSliceU32<'a, T> {
    open spec fn spec_serialized_len(&self) -> nat {
        spec_vector_len(4, self.0@)
    }

    fn serialized_len(&self) -> (len: usize) {
        vector_serialized_len(4, self.as_slice())
    }
}

impl<'a, T: Serialize> Serialize for TlsSliceU32<'a, T> {
    open spec fn spec_serialize(&self) -> Result<Seq<u8>, ErrorView> {
        spec_serialize_vector(4, self.0@)
    }

    fn tls_serialize(&self, writer: &mut Vec<u8>) -> (res: Result<usize, Error>) {
        serialize_vector(4, self.as_slice(), writer)
    }
}

impl<'a, T: TlsSize> TlsSize for &TlsSliceU32<'a, T> {
    open spec fn spec_serialized_len(&self) -> nat {
        spec_vector_len(4, self.0@)
    }

    fn serialized_len(&self) -> (len: usize) {
        vector_serialized_len(4, self.as_slice())
    }
}

impl<'a, T: Serialize> Serialize for &TlsSliceU32<'a, T> {
    open spec fn spec_serialize(&self) -> Result<Seq<u8>, ErrorView> {
        spec_serialize_vector(4, self.0@)
    }

    fn tls_serialize(&self, writer: &mut Vec<u8>) -> (res: Result<usize, Error>) {
        serialize_vector(4, self.as_slice(), writer)
    }
}

} // verus!
