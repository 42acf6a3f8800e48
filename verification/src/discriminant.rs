//! Enumerations on the wire: the discriminant of the variant, as an unsigned
//! integer of a fixed width in network byte order.
//!
//! The variants of an enumeration and their discriminants are a closed table.
//! Decoding looks the discriminant up in the table and fails where it is not
//! there: no variant stands for an unknown discriminant.

use vstd::prelude::*;
use crate::error::{unmatched_value_message, unmatched_value_text, Error, ErrorView};
use crate::primitives::{
    lemma_be_bytes_len, lemma_be_value_bound, lemma_be_value_of_bytes, lemma_ranges,
    read_unsigned, spec_be_bytes, spec_be_value, spec_range,
};

verus! {

/// Whether `width` is the number of bytes of an unsigned integer type.
pub open spec fn spec_is_repr_width(width: nat) -> bool {
    width == 1 || width == 2 || width == 4 || width == 8
}

/// The first place at which `table` holds `value`, if it holds it.
pub open spec fn spec_position(table: Seq<u64>, value: u64) -> Option<nat>
    decreases table.len(),
{
    if table.len() == 0 {
        None
    } else {
        match spec_position(table.drop_last(), value) {
            Some(place) => Some(place),
            None => if table.last() == value {
                Some((table.len() - 1) as nat)
            } else {
                None
            },
        }
    }
}

/// What decoding the discriminant of an enumeration from the front of `bytes`
/// ends in, where the discriminant has `width` bytes and `table` holds the
/// discriminants of the variants: it takes `width` bytes, and fails where
/// fewer are left or the table does not hold the discriminant.
pub open spec fn spec_deserialize_discriminant(
    width: nat,
    table: Seq<u64>,
    bytes: Seq<u8>,
) -> Result<nat, ErrorView> {
    if bytes.len() < width {
        Err(ErrorView::EndOfStream)
    } else {
        let value = spec_be_value(bytes.take(width as int)) as u64;
        match spec_position(table, value) {
            Some(_) => Ok(width),
            None => Err(ErrorView::DecodingError(unmatched_value_text(value))),
        }
    }
}

/// A place that `spec_position` gives is in the table, holds the value, and
/// is the first to hold it; and where it gives none, no place holds the
/// value.
pub proof fn lemma_position(table: Seq<u64>, value: u64)
    ensures
        match spec_position(table, value) {
            Some(place) => {
                &&& place < table.len()
                &&& table[place as int] == value
                &&& forall|i: int| 0 <= i < place ==> table[i] != value
            },
            None => forall|i: int| 0 <= i < table.len() ==> table[i] != value,
        },
    decreases table.len(),
{
    if table.len() > 0 {
        let front = table.drop_last();
        lemma_position(front, value);
        assert forall|i: int| 0 <= i < front.len() implies front[i] == table[i] by {}
    }
}

/// The first place at which `table` holds `value`, if it holds it.
pub fn position(table: &[u64], value: u64) -> (place: Option<usize>)
    ensures
        match spec_position(table@, value) {
            Some(found) => place matches Some(index) && index == found,
            None => place is None,
        },
{
    let mut index: usize = 0;
    while index < table.len()
        invariant
            index <= table@.len(),
            spec_position(table@.take(index as int), value) is None,
        decreases table@.len() - index,
    {
        if table[index] == value {
            proof {
                lemma_position_found(table@, index as int, value);
            }
            return Some(index);
        }
        assert(table@.take(index + 1).drop_last() =~= table@.take(index as int));
        index = index + 1;
    }
    assert(table@.take(index as int) =~= table@);
    None
}

/// A value that the first places of a table do not hold, and the next place
/// does, has that place in the whole table.
proof fn lemma_position_found(table: Seq<u64>, place: int, value: u64)
    requires
        0 <= place < table.len(),
        spec_position(table.take(place), value) is None,
        table[place] == value,
    ensures
        spec_position(table, value) == Some(place as nat),
    decreases table.len(),
{
    if place == table.len() - 1 {
        assert(table.drop_last() =~= table.take(place));
    } else {
        assert(table.drop_last().take(place) =~= table.take(place));
        lemma_position_found(table.drop_last(), place, value);
    }
}

/// Decodes the discriminant of an enumeration from the front of `bytes` and
/// moves `bytes` past it. The discriminant has `width` bytes, and `table`
/// holds the discriminants of the variants. Returns the first place of the
/// discriminant in `table`.
pub fn deserialize_discriminant(width: usize, table: &[u64], bytes: &mut &[u8]) -> (res: Result<
    usize,
    Error,
>)
    requires
        spec_is_repr_width(width as nat),
    ensures
        match spec_deserialize_discriminant(width as nat, table@, old(bytes)@) {
            Ok(taken) => {
                &&& final(bytes)@ == old(bytes)@.skip(width as int)
                &&& res matches Ok(place)
                &&& spec_position(
                    table@,
                    spec_be_value(old(bytes)@.take(width as int)) as u64,
                ) == Some(place as nat)
            },
            Err(failure) => res matches Err(error) && error@ == failure,
        },
{
    proof {
        lemma_ranges();
        if old(bytes)@.len() >= width {
            lemma_be_value_bound(old(bytes)@.take(width as int));
        }
    }
    let value: u64 = match read_unsigned(bytes, width) {
        Ok(value) => value,
        Err(error) => {
            return Err(error);
        },
    };
    match position(table, value) {
        Some(place) => Ok(place),
        None => Err(Error::DecodingError(unmatched_value_message(value))),
    }
}

/// Decoding finds the place of a discriminant again in its encoding, whatever
/// bytes follow it.
pub proof fn lemma_discriminant_round_trips(
    width: nat,
    table: Seq<u64>,
    value: u64,
    rest: Seq<u8>,
)
    requires
        spec_is_repr_width(width),
        value < spec_range(width),
        spec_position(table, value) is Some,
    ensures
        spec_deserialize_discriminant(width, table, spec_be_bytes(value as nat, width) + rest)
            == Ok::<nat, ErrorView>(width),
        spec_be_value((spec_be_bytes(value as nat, width) + rest).take(width as int)) == value,
{
    let bytes = spec_be_bytes(value as nat, width);
    lemma_be_bytes_len(value as nat, width);
    lemma_be_value_of_bytes(value as nat, width);
    assert((bytes + rest).take(width as int) =~= bytes);
}

} // verus!
