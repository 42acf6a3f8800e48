use tls_codec::discriminant::{deserialize_discriminant, position};
use tls_codec::Error;

#[test]
fn place_of_a_value_in_a_table() {
    let table = [10u64, 20, 30, 20];
    assert_eq!(position(&table, 10), Some(0));
    assert_eq!(position(&table, 20), Some(1));
    assert_eq!(position(&table, 30), Some(2));
    assert_eq!(position(&table, 40), None);
    assert_eq!(position(&[], 0), None);
}

#[test]
fn discriminants_of_each_width() {
    let table = [0u64, 1, 500, 0x0102_0304, 0x0102_0304_0506_0708];
    let mut input = &[1u8, 9][..];
    assert_eq!(deserialize_discriminant(1, &table, &mut input), Ok(1));
    assert_eq!(input, &[9u8]);
    let mut input = &[1u8, 244, 9][..];
    assert_eq!(deserialize_discriminant(2, &table, &mut input), Ok(2));
    assert_eq!(input, &[9u8]);
    let mut input = &[1u8, 2, 3, 4, 9][..];
    assert_eq!(deserialize_discriminant(4, &table, &mut input), Ok(3));
    assert_eq!(input, &[9u8]);
    let mut input = &[1u8, 2, 3, 4, 5, 6, 7, 8, 9][..];
    assert_eq!(deserialize_discriminant(8, &table, &mut input), Ok(4));
    assert_eq!(input, &[9u8]);
}

#[test]
fn discriminant_that_the_table_does_not_hold() {
    let table = [0u64, 1, 500];
    let mut input = &[0u8, 2][..];
    assert_eq!(
        deserialize_discriminant(2, &table, &mut input),
        Err(Error::DecodingError("Unmatched value 2".to_string()))
    );
    let mut input = &[244u8][..];
    assert_eq!(
        deserialize_discriminant(1, &table, &mut input),
        Err(Error::DecodingError("Unmatched value 244".to_string()))
    );
    let mut input = &[7u8][..];
    assert_eq!(
        deserialize_discriminant(1, &[], &mut input),
        Err(Error::DecodingError("Unmatched value 7".to_string()))
    );
}

#[test]
fn input_ends_within_a_discriminant() {
    let table = [0u64, 1, 500];
    let mut input = &[0u8][..];
    assert_eq!(
        deserialize_discriminant(2, &table, &mut input),
        Err(Error::EndOfStream)
    );
    let mut input = &[][..];
    assert_eq!(
        deserialize_discriminant(1, &table, &mut input),
        Err(Error::EndOfStream)
    );
    let mut input = &[0u8, 0, 0, 0, 0, 0, 0][..];
    assert_eq!(
        deserialize_discriminant(8, &table, &mut input),
        Err(Error::EndOfStream)
    );
}
