//! Optional values: a tag byte, 0 for an absent value and 1 for a present
//! one, and after the tag 1 the encoding of the value.

use vstd::prelude::*;
use vstd::slice::slice_subrange;
use crate::codec::{
    announces_its_size, decodes_uniquely, encodes_nonempty, round_trips, round_trips_at,
    Deserialize, Serialize, TlsSize,
};
use crate::error::{option_tag_message, option_tag_text, Error, ErrorView};

verus! {

impl<T: TlsSize> TlsSize for Option<T> {
    open spec fn spec_serialized_len(&self) -> nat {
        match self {
            Some(value) => 1 + value.spec_serialized_len(),
            None => 1,
        }
    }

    fn serialized_len(&self) -> (len: usize) {
        match self {
            Some(value) => 1 + value.serialized_len(),
            None => 1,
        }
    }
}

impl<T: Serialize> Serialize for Option<T> {
    open spec fn spec_serialize(&self) -> Result<Seq<u8>, ErrorView> {
        match self {
            Some(value) => match value.spec_serialize() {
                Ok(bytes) => Ok(seq![1u8] + bytes),
                Err(failure) => Err(failure),
            },
            None => Ok(seq![0u8]),
        }
    }

    fn tls_serialize(&self, writer: &mut Vec<u8>) -> (res: Result<usize, Error>) {
        match self {
            Some(value) => {
                let start: usize = writer.len();
                writer.push(1);
                match value.tls_serialize(writer) {
                    Ok(written) => {
                        assert(writer@ =~= old(writer)@ + (seq![1u8]
                            + value.spec_serialize()->Ok_0));
                        assert(writer@.len() == writer.len());
                        Ok(written + 1)
                    },
                    Err(error) => {
                        writer.truncate(start);
                        assert(writer@ =~= old(writer)@);
                        Err(error)
                    },
                }
            },
            None => {
                writer.push(0);
                assert(writer@ =~= old(writer)@ + seq![0u8]);
                Ok(1)
            },
        }
    }
}

impl<T: Deserialize> Deserialize for Option<T> {
    open spec fn spec_deserialize(bytes: Seq<u8>) -> Result<nat, ErrorView> {
        if bytes.len() < 1 {
            Err(ErrorView::EndOfStream)
        } else if bytes[0] == 0 {
            Ok(1)
        } else if bytes[0] == 1 {
            match T::spec_deserialize(bytes.skip(1)) {
                Ok(taken) => Ok(1 + taken),
                Err(failure) => Err(failure),
            }
        } else {
            Err(ErrorView::DecodingError(option_tag_text(bytes[0])))
        }
    }

    open spec fn decodes_to(bytes: Seq<u8>, value: Self) -> bool {
        &&& bytes.len() >= 1
        &&& match value {
            Some(inner) => bytes[0] == 1 && T::decodes_to(bytes.skip(1), inner),
            None => bytes[0] == 0 && bytes.len() == 1,
        }
    }

    fn tls_deserialize(bytes: &mut &[u8]) -> (res: Result<Self, Error>) {
        let length: usize = bytes.len();
        if length < 1 {
            return Err(Error::EndOfStream);
        }
        let tag: u8 = bytes[0];
        *bytes = slice_subrange(*bytes, 1, length);
        if tag == 0 {
            Ok(None)
        } else if tag == 1 {
            match T::tls_deserialize(bytes) {
                Ok(value) => {
                    proof {
                        let taken = T::spec_deserialize(old(bytes)@.skip(1))->Ok_0 as int;
                        assert(old(bytes)@.skip(1).take(taken as int) =~= old(bytes)@.take(
                            1 + taken,
                        ).skip(1));
                        assert(final(bytes)@ =~= old(bytes)@.skip(1 + taken));
                    }
                    Ok(Some(value))
                },
                Err(error) => Err(error),
            }
        } else {
            Err(Error::DecodingError(option_tag_message(tag)))
        }
    }
}

/// The wire format of an optional value: an absent value is the one byte 0;
/// a present value is the byte 1 and then its own encoding; and bytes that
/// begin with anything but 0 or 1 do not decode, the failure naming the byte.
pub proof fn lemma_option_wire_format<T: Serialize + Deserialize>(value: T, bytes: Seq<u8>)
    ensures
        None::<T>.spec_serialize() == Ok::<Seq<u8>, ErrorView>(seq![0u8]),
        value.spec_serialize() matches Ok(inner) ==> Some(value).spec_serialize() == Ok::<
            Seq<u8>,
            ErrorView,
        >(seq![1u8] + inner),
        bytes.len() >= 1 && bytes[0] != 0 && bytes[0] != 1 ==> Option::<T>::spec_deserialize(bytes)
            == Err::<nat, ErrorView>(ErrorView::DecodingError(option_tag_text(bytes[0]))),
{
}

/// Where decoding undoes encoding for `T`, it does so for an optional `T`.
pub proof fn lemma_option_round_trips<T: Serialize + Deserialize>()
    requires
        round_trips::<T>(),
    ensures
        round_trips::<Option<T>>(),
        encodes_nonempty::<Option<T>>(),
{
    assert forall|value: Option<T>, rest: Seq<u8>| #[trigger] round_trips_at(value, rest) by {
        match value {
            Some(inner) => {
                assert(round_trips_at(inner, rest));
                if let Ok(bytes) = inner.spec_serialize() {
                    let whole = seq![1u8] + bytes;
                    assert((whole + rest).skip(1) =~= bytes + rest);
                    assert(whole.skip(1) =~= bytes);
                }
            },
            None => {},
        }
    }
}

/// Where no bytes decode to two values of `T`, none decode to two optional
/// values of `T`.
pub proof fn lemma_option_decodes_uniquely<T: Deserialize>()
    requires
        decodes_uniquely::<T>(),
    ensures
        decodes_uniquely::<Option<T>>(),
{
}

/// Where every `T` announces the size of its encoding, every optional `T`
/// does.
pub proof fn lemma_option_announces_its_size<T: Serialize>()
    requires
        announces_its_size::<T>(),
    ensures
        announces_its_size::<Option<T>>(),
{
    assert forall|value: Option<T>| #[trigger]
        value.spec_serialize() matches Ok(bytes) ==> bytes.len()
            == value.spec_serialized_len() by {
        if let Some(inner) = value {
            assert(inner.spec_serialize() matches Ok(bytes) ==> bytes.len()
                == inner.spec_serialized_len());
        }
    }
}

} // verus!
