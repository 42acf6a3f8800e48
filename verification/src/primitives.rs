//! Unsigned integers in network byte order.

use vstd::prelude::*;
use vstd::slice::slice_subrange;
use crate::codec::{
    announces_its_size, decodes_uniquely, encodes_nonempty, round_trips, round_trips_at,
    Deserialize, Serialize, TlsSize,
};
use crate::error::{Error, ErrorView};

verus! {

/// The number of values that `width` bytes can hold: 256 to the power `width`.
pub open spec fn spec_range(width: nat) -> nat
    decreases width,
{
    if width == 0 {
        1
    } else {
        256 * spec_range((width - 1) as nat)
    }
}

/// The `width` bytes that stand for `value` in network byte order, the most
/// significant byte first.
pub open spec fn spec_be_bytes(value: nat, width: nat) -> Seq<u8>
    decreases width,
{
    if width == 0 {
        Seq::empty()
    } else {
        spec_be_bytes(value / 256, (width - 1) as nat).push((value % 256) as u8)
    }
}

/// The number that `bytes` stand for in network byte order.
pub open spec fn spec_be_value(bytes: Seq<u8>) -> nat
    decreases bytes.len(),
{
    if bytes.len() == 0 {
        0
    } else {
        spec_be_value(bytes.drop_last()) * 256 + bytes.last() as nat
    }
}

/// The ranges of the widths in use.
pub proof fn lemma_ranges()
    ensures
        spec_range(0) == 1,
        spec_range(1) == 0x100,
        spec_range(2) == 0x1_0000,
        spec_range(3) == 0x100_0000,
        spec_range(4) == 0x1_0000_0000,
        spec_range(8) == 0x1_0000_0000_0000_0000,
{
    reveal_with_fuel(spec_range, 9);
}

/// A wider field holds at least what a narrower one does.
pub proof fn lemma_range_grows(narrow: nat, wide: nat)
    requires
        narrow <= wide,
    ensures
        spec_range(narrow) <= spec_range(wide),
    decreases wide,
{
    if narrow < wide {
        lemma_range_grows(narrow, (wide - 1) as nat);
    }
}

/// An encoding in network byte order is as long as its width.
pub proof fn lemma_be_bytes_len(value: nat, width: nat)
    ensures
        spec_be_bytes(value, width).len() == width,
    decreases width,
{
    if width > 0 {
        lemma_be_bytes_len(value / 256, (width - 1) as nat);
    }
}

/// Bytes in network byte order stand for a number within the range of their
/// count.
pub proof fn lemma_be_value_bound(bytes: Seq<u8>)
    ensures
        spec_be_value(bytes) < spec_range(bytes.len()),
    decreases bytes.len(),
{
    if bytes.len() > 0 {
        lemma_be_value_bound(bytes.drop_last());
    }
}

/// Reading in network byte order undoes writing, for every number that the
/// width can hold.
pub proof fn lemma_be_value_of_bytes(value: nat, width: nat)
    requires
        value < spec_range(width),
    ensures
        spec_be_value(spec_be_bytes(value, width)) == value,
    decreases width,
{
    if width > 0 {
        let rest = spec_be_bytes(value / 256, (width - 1) as nat);
        lemma_be_value_of_bytes(value / 256, (width - 1) as nat);
        assert(rest.push((value % 256) as u8).drop_last() =~= rest);
    }
}

/// Writing in network byte order undoes reading.
pub proof fn lemma_be_bytes_of_value(bytes: Seq<u8>)
    ensures
        spec_be_bytes(spec_be_value(bytes), bytes.len()) == bytes,
    decreases bytes.len(),
{
    if bytes.len() > 0 {
        let front = bytes.drop_last();
        lemma_be_bytes_of_value(front);
        let value = spec_be_value(bytes);
        assert(value / 256 == spec_be_value(front));
        assert(value % 256 == bytes.last() as nat);
        assert(front.push(bytes.last()) =~= bytes);
    }
}

/// Appends `value` to `writer` in `width` bytes, the most significant first.
pub fn write_be(value: u64, width: usize, writer: &mut Vec<u8>)
    requires
        width <= 8,
        value < spec_range(width as nat),
    ensures
        final(writer)@ == old(writer)@ + spec_be_bytes(value as nat, width as nat),
    decreases width,
{
    if width == 0 {
        assert(old(writer)@ + Seq::<u8>::empty() =~= old(writer)@);
    } else {
        write_be(value / 256, width - 1, writer);
        writer.push((value % 256) as u8);
        assert(final(writer)@ =~= old(writer)@ + spec_be_bytes(value as nat, width as nat));
    }
}

/// The number that the bytes of `bytes`, at most eight, stand for in network
/// byte order.
pub fn read_be(bytes: &[u8]) -> (value: u64)
    requires
        bytes@.len() <= 8,
    ensures
        value == spec_be_value(bytes@),
{
    let mut value: u64 = 0;
    let mut index: usize = 0;
    while index < bytes.len()
        invariant
            index <= bytes@.len() <= 8,
            value == spec_be_value(bytes@.take(index as int)),
        decreases bytes@.len() - index,
    {
        proof {
            let front = bytes@.take(index as int);
            let next = bytes@.take(index + 1);
            assert(next.drop_last() =~= front);
            lemma_be_value_bound(front);
            lemma_be_value_bound(next);
            lemma_range_grows(index as nat, 7);
            lemma_ranges();
        }
        value = value * 256 + bytes[index] as u64;
        index = index + 1;
    }
    assert(bytes@.take(index as int) =~= bytes@);
    value
}

/// What reading an unsigned integer of `width` bytes from the front of `bytes`
/// ends in: it takes `width` bytes, and fails where fewer are left.
pub open spec fn spec_deserialize_unsigned(bytes: Seq<u8>, width: nat) -> Result<nat, ErrorView> {
    if bytes.len() < width {
        Err(ErrorView::EndOfStream)
    } else {
        Ok(width)
    }
}

/// Reads an unsigned integer of `width` bytes in network byte order from the
/// front of `bytes` and moves `bytes` past it. Where fewer bytes are left,
/// `bytes` stays as it is.
pub fn read_unsigned(bytes: &mut &[u8], width: usize) -> (res: Result<u64, Error>)
    requires
        width <= 8,
    ensures
        match spec_deserialize_unsigned(old(bytes)@, width as nat) {
            Ok(taken) => {
                &&& res matches Ok(value)
                &&& value == spec_be_value(old(bytes)@.take(width as int))
                &&& final(bytes)@ == old(bytes)@.skip(width as int)
            },
            Err(failure) => {
                &&& res matches Err(error)
                &&& error@ == failure
                &&& final(bytes)@ == old(bytes)@
            },
        },
{
    let length: usize = bytes.len();
    if length < width {
        return Err(Error::EndOfStream);
    }
    let value: u64 = read_be(slice_subrange(*bytes, 0, width));
    *bytes = slice_subrange(*bytes, width, length);
    Ok(value)
}

impl TlsSize for u8 {
    open spec fn spec_serialized_len(&self) -> nat {
        1
    }

    fn serialized_len(&self) -> (len: usize) {
        1
    }
}

impl Serialize for u8 {
    open spec fn spec_serialize(&self) -> Result<Seq<u8>, ErrorView> {
        Ok(spec_be_bytes(*self as nat, 1))
    }

    fn tls_serialize(&self, writer: &mut Vec<u8>) -> (res: Result<usize, Error>) {
        proof {
            lemma_ranges();
            lemma_be_bytes_len(*self as nat, 1);
        }
        write_be(*self as u64, 1, writer);
        Ok(1)
    }
}

impl Deserialize for u8 {
    open spec fn spec_deserialize(bytes: Seq<u8>) -> Result<nat, ErrorView> {
        spec_deserialize_unsigned(bytes, 1)
    }

    open spec fn decodes_to(bytes: Seq<u8>, value: Self) -> bool {
        bytes.len() == 1 && value == spec_be_value(bytes)
    }

    fn tls_deserialize(bytes: &mut &[u8]) -> (res: Result<Self, Error>) {
        proof {
            lemma_ranges();
            if old(bytes)@.len() >= 1 {
                lemma_be_value_bound(old(bytes)@.take(1));
            }
        }
        match read_unsigned(bytes, 1) {
            Ok(value) => Ok(value as u8),
            Err(error) => Err(error),
        }
    }
}

/// Decoding a `u8` undoes encoding it, no bytes decode to two of them, and
/// its encoding has the one byte that its size announces.
pub proof fn lemma_u8_round_trips()
    ensures
        round_trips::<u8>(),
        decodes_uniquely::<u8>(),
        encodes_nonempty::<u8>(),
        announces_its_size::<u8>(),
{
    lemma_ranges();
    assert forall|value: u8, rest: Seq<u8>| #[trigger] round_trips_at(value, rest) by {
        let bytes = spec_be_bytes(value as nat, 1);
        lemma_be_bytes_len(value as nat, 1);
        lemma_be_value_of_bytes(value as nat, 1);
    }
    assert forall|value: u8| #[trigger]
        value.spec_serialize() matches Ok(bytes) ==> bytes.len() > 0 && bytes.len()
            == value.spec_serialized_len() by {
        lemma_be_bytes_len(value as nat, 1);
    }
}

impl TlsSize for u16 {
    open spec fn spec_serialized_len(&self) -> nat {
        2
    }

    fn serialized_len(&self) -> (len: usize) {
        2
    }
}

impl Serialize for u16 {
    open spec fn spec_serialize(&self) -> Result<Seq<u8>, ErrorView> {
        Ok(spec_be_bytes(*self as nat, 2))
    }

    fn tls_serialize(&self, writer: &mut Vec<u8>) -> (res: Result<usize, Error>) {
        proof {
            lemma_ranges();
            lemma_be_bytes_len(*self as nat, 2);
        }
        write_be(*self as u64, 2, writer);
        Ok(2)
    }
}

impl Deserialize for u16 {
    open spec fn spec_deserialize(bytes: Seq<u8>) -> Result<nat, ErrorView> {
        spec_deserialize_unsigned(bytes, 2)
    }

    open spec fn decodes_to(bytes: Seq<u8>, value: Self) -> bool {
        bytes.len() == 2 && value == spec_be_value(bytes)
    }

    fn tls_deserialize(bytes: &mut &[u8]) -> (res: Result<Self, Error>) {
        proof {
            lemma_ranges();
            if old(bytes)@.len() >= 2 {
                lemma_be_value_bound(old(bytes)@.take(2));
            }
        }
        match read_unsigned(bytes, 2) {
            Ok(value) => Ok(value as u16),
            Err(error) => Err(error),
        }
    }
}

/// Decoding a `u16` undoes encoding it, no bytes decode to two of them, and
/// its encoding has the 2 bytes that its size announces.
pub proof fn lemma_u16_round_trips()
    ensures
        round_trips::<u16>(),
        decodes_uniquely::<u16>(),
        encodes_nonempty::<u16>(),
        announces_its_size::<u16>(),
{
    lemma_ranges();
    assert forall|value: u16, rest: Seq<u8>| #[trigger] round_trips_at(value, rest) by {
        let bytes = spec_be_bytes(value as nat, 2);
        lemma_be_bytes_len(value as nat, 2);
        lemma_be_value_of_bytes(value as nat, 2);
    }
    assert forall|value: u16| #[trigger]
        value.spec_serialize() matches Ok(bytes) ==> bytes.len() > 0 && bytes.len()
            == value.spec_serialized_len() by {
        lemma_be_bytes_len(value as nat, 2);
    }
}

impl TlsSize for u32 {
    open spec fn spec_serialized_len(&self) -> nat {
        4
    }

    fn serialized_len(&self) -> (len: usize) {
        4
    }
}

impl Serialize for u32 {
    open spec fn spec_serialize(&self) -> Result<Seq<u8>, ErrorView> {
        Ok(spec_be_bytes(*self as nat, 4))
    }

    fn tls_serialize(&self, writer: &mut Vec<u8>) -> (res: Result<usize, Error>) {
        proof {
            lemma_ranges();
            lemma_be_bytes_len(*self as nat, 4);
        }
        write_be(*self as u64, 4, writer);
        Ok(4)
    }
}

impl Deserialize for u32 {
    open spec fn spec_deserialize(bytes: Seq<u8>) -> Result<nat, ErrorView> {
        spec_deserialize_unsigned(bytes, 4)
    }

    open spec fn decodes_to(bytes: Seq<u8>, value: Self) -> bool {
        bytes.len() == 4 && value == spec_be_value(bytes)
    }

    fn tls_deserialize(bytes: &mut &[u8]) -> (res: Result<Self, Error>) {
        proof {
            lemma_ranges();
            if old(bytes)@.len() >= 4 {
                lemma_be_value_bound(old(bytes)@.take(4));
            }
        }
        match read_unsigned(bytes, 4) {
            Ok(value) => Ok(value as u32),
            Err(error) => Err(error),
        }
    }
}

/// Decoding a `u32` undoes encoding it, no bytes decode to two of them, and
/// its encoding has the 4 bytes that its size announces.
pub proof fn lemma_u32_round_trips()
    ensures
        round_trips::<u32>(),
        decodes_uniquely::<u32>(),
        encodes_nonempty::<u32>(),
        announces_its_size::<u32>(),
{
    lemma_ranges();
    assert forall|value: u32, rest: Seq<u8>| #[trigger] round_trips_at(value, rest) by {
        let bytes = spec_be_bytes(value as nat, 4);
        lemma_be_bytes_len(value as nat, 4);
        lemma_be_value_of_bytes(value as nat, 4);
    }
    assert forall|value: u32| #[trigger]
        value.spec_serialize() matches Ok(bytes) ==> bytes.len() > 0 && bytes.len()
            == value.spec_serialized_len() by {
        lemma_be_bytes_len(value as nat, 4);
    }
}

impl TlsSize for u64 {
    open spec fn spec_serialized_len(&self) -> nat {
        8
    }

    fn serialized_len(&self) -> (len: usize) {
        8
    }
}

impl Serialize for u64 {
    open spec fn spec_serialize(&self) -> Result<Seq<u8>, ErrorView> {
        Ok(spec_be_bytes(*self as nat, 8))
    }

    fn tls_serialize(&self, writer: &mut Vec<u8>) -> (res: Result<usize, Error>) {
        proof {
            lemma_ranges();
            lemma_be_bytes_len(*self as nat, 8);
        }
        write_be(*self, 8, writer);
        Ok(8)
    }
}

impl Deserialize for u64 {
    open spec fn spec_deserialize(bytes: Seq<u8>) -> Result<nat, ErrorView> {
        spec_deserialize_unsigned(bytes, 8)
    }

    open spec fn decodes_to(bytes: Seq<u8>, value: Self) -> bool {
        bytes.len() == 8 && value == spec_be_value(bytes)
    }

    fn tls_deserialize(bytes: &mut &[u8]) -> (res: Result<Self, Error>) {
        proof {
            lemma_ranges();
            if old(bytes)@.len() >= 8 {
                lemma_be_value_bound(old(bytes)@.take(8));
            }
        }
        match read_unsigned(bytes, 8) {
            Ok(value) => Ok(value),
            Err(error) => Err(error),
        }
    }
}

/// Decoding a `u64` undoes encoding it, no bytes decode to two of them, and
/// its encoding has the 8 bytes that its size announces.
pub proof fn lemma_u64_round_trips()
    ensures
        round_trips::<u64>(),
        decodes_uniquely::<u64>(),
        encodes_nonempty::<u64>(),
        announces_its_size::<u64>(),
{
    lemma_ranges();
    assert forall|value: u64, rest: Seq<u8>| #[trigger] round_trips_at(value, rest) by {
        let bytes = spec_be_bytes(value as nat, 8);
        lemma_be_bytes_len(value as nat, 8);
        lemma_be_value_of_bytes(value as nat, 8);
    }
    assert forall|value: u64| #[trigger]
        value.spec_serialize() matches Ok(bytes) ==> bytes.len() > 0 && bytes.len()
            == value.spec_serialized_len() by {
        lemma_be_bytes_len(value as nat, 8);
    }
}

} // verus!
