//! Byte arrays of fixed size: on the wire they are their bytes, with nothing
//! before or after them.

use vstd::prelude::*;
use vstd::array::array_fill_for_copy_types;
use vstd::slice::slice_subrange;
use crate::codec::{
    announces_its_size, decodes_uniquely, round_trips, round_trips_at, Deserialize, Serialize,
    TlsSize,
};
use crate::error::{Error, ErrorView};

verus! {

impl<const N: usize> TlsSize for [u8; N] {
    open spec fn spec_serialized_len(&self) -> nat {
        N as nat
    }

    fn serialized_len(&self) -> (len: usize) {
        N
    }
}

impl<const N: usize> Serialize for [u8; N] {
    open spec fn spec_serialize(&self) -> Result<Seq<u8>, ErrorView> {
        Ok(self@)
    }

    fn tls_serialize(&self, writer: &mut Vec<u8>) -> (res: Result<usize, Error>) {
        writer.extend_from_slice(self.as_slice());
        assert(writer@ =~= old(writer)@ + self@);
        Ok(N)
    }
}

impl<const N: usize> Deserialize for [u8; N] {
    open spec fn spec_deserialize(bytes: Seq<u8>) -> Result<nat, ErrorView> {
        if bytes.len() < N {
            Err(ErrorView::EndOfStream)
        } else {
            Ok(N as nat)
        }
    }

    open spec fn decodes_to(bytes: Seq<u8>, value: Self) -> bool {
        value@ == bytes
    }

    fn tls_deserialize(bytes: &mut &[u8]) -> (res: Result<Self, Error>) {
        let length: usize = bytes.len();
        if length < N {
            return Err(Error::EndOfStream);
        }
        let mut out: [u8; N] = array_fill_for_copy_types(0u8);
        let mut index: usize = 0;
        while index < N
            invariant
                index <= N <= bytes@.len(),
                forall|i: int| 0 <= i < index ==> out@[i] == bytes@[i],
            decreases N - index,
        {
            out[index] = bytes[index];
            index = index + 1;
        }
        assert(out@ =~= bytes@.take(N as int));
        *bytes = slice_subrange(*bytes, N, length);
        Ok(out)
    }
}

/// Decoding a byte array undoes encoding it, no bytes decode to two arrays,
/// and its encoding has as many bytes as its size announces.
pub proof fn lemma_array_round_trips<const N: usize>()
    ensures
        round_trips::<[u8; N]>(),
        decodes_uniquely::<[u8; N]>(),
        announces_its_size::<[u8; N]>(),
{
    assert forall|value: [u8; N], rest: Seq<u8>| #[trigger] round_trips_at(value, rest) by {
        assert(value@.len() == N);
    }
    assert forall|bytes: Seq<u8>, one: [u8; N], other: [u8; N]|
        <[u8; N]>::decodes_to(bytes, one) && <[u8; N]>::decodes_to(bytes, other) implies one
        == other by {
        assert(one@ =~= other@);
    }
    assert forall|value: [u8; N]| #[trigger]
        value.spec_serialize() matches Ok(bytes) ==> bytes.len()
            == value.spec_serialized_len() by {
        assert(value@.len() == N);
    }
}

} // verus!
