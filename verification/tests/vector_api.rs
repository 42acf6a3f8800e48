use std::borrow::Borrow;
use tls_codec::{
    SecretTlsVecU16, TlsByteVecU16, TlsByteVecU32, TlsByteVecU8, TlsVecU16, TlsVecU32, TlsVecU8,
};

#[test]
fn building_and_reading_a_vector() {
    let mut v = TlsVecU8::new(vec![1u16, 2]);
    assert_eq!(v.len(), 2);
    assert!(!v.is_empty());
    v.push(3);
    assert_eq!(v.as_slice(), &[1u16, 2, 3]);
    assert_eq!(v.get(0), Some(&1));
    assert_eq!(v.get(2), Some(&3));
    assert_eq!(v.get(3), None);
    assert_eq!(v[1], 2);
    assert_eq!(v.pop(), Some(3));
    assert_eq!(v.pop(), Some(2));
    assert_eq!(v.pop(), Some(1));
    assert_eq!(v.pop(), None);
    assert!(v.is_empty());
}

#[test]
fn conversions_of_a_vector() {
    let from_slice = TlsVecU16::from_slice(&[7u8, 8, 9]);
    assert_eq!(from_slice.to_vec(), vec![7, 8, 9]);
    let from_vec: TlsVecU16<u8> = vec![7u8, 8, 9].into();
    assert_eq!(from_vec, from_slice);
    let slice: &[u8] = &[7, 8, 9];
    let from_borrowed: TlsVecU16<u8> = slice.into();
    assert_eq!(from_borrowed, from_slice);
    let back: Vec<u8> = from_vec.into();
    assert_eq!(back, vec![7, 8, 9]);
    assert_eq!(from_slice.clone().into_vec(), vec![7, 8, 9]);
    let empty: TlsVecU32<u8> = Default::default();
    assert!(empty.is_empty());
    let empty: TlsByteVecU8<u8> = Default::default();
    assert_eq!(empty.len(), 0);
}

#[test]
fn borrowing_a_vector_as_a_slice() {
    let v = TlsVecU8::new(vec![1u8, 2, 3]);
    let slice: &[u8] = v.borrow();
    assert_eq!(slice, &[1u8, 2, 3]);
    let b = TlsByteVecU32::new(vec![4u8, 5]);
    let slice: &[u8] = b.borrow();
    assert_eq!(slice, &[4u8, 5]);
    let s = SecretTlsVecU16::new(vec![6u16]);
    let slice: &[u16] = s.borrow();
    assert_eq!(slice, &[6u16]);
}

#[test]
fn iterating_over_a_vector() {
    let v = TlsVecU32::new(vec![5u32, 6, 7]);
    let collected: Vec<u32> = v.iter().copied().collect();
    assert_eq!(collected, vec![5, 6, 7]);
    let mut sum = 0;
    for element in v.iter() {
        sum += element;
    }
    assert_eq!(sum, 18);
}

#[test]
fn retaining_elements_of_a_vector() {
    let mut v = TlsVecU8::new(vec![1u8, 2, 3, 4, 5, 6]);
    v.retain(|element| element % 2 == 0);
    assert_eq!(v.as_slice(), &[2u8, 4, 6]);
    v.retain(|_| true);
    assert_eq!(v.as_slice(), &[2u8, 4, 6]);
    v.retain(|_| false);
    assert!(v.is_empty());
    let mut b = TlsByteVecU16::new(vec![1u8, 9, 2, 9]);
    b.retain(|element| *element != 9);
    assert_eq!(b.as_slice(), &[1u8, 2]);
    let mut s = SecretTlsVecU16::new(vec![10u16, 20, 30]);
    s.retain(|element| *element > 10);
    assert_eq!(s.as_slice(), &[20u16, 30]);
}

#[test]
fn widths_of_the_length_fields() {
    assert_eq!(TlsVecU8::<u8>::len_len(), 1);
    assert_eq!(TlsVecU16::<u8>::len_len(), 2);
    assert_eq!(TlsVecU32::<u8>::len_len(), 4);
    assert_eq!(TlsByteVecU8::<u8>::len_len(), 1);
    assert_eq!(TlsByteVecU16::<u8>::len_len(), 2);
    assert_eq!(TlsByteVecU32::<u8>::len_len(), 4);
    assert_eq!(SecretTlsVecU16::<u8>::len_len(), 2);
}
