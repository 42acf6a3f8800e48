use tls_codec::{
    Deserialize, Serialize, TlsByteSliceU16, TlsByteSliceU32, TlsByteSliceU8, TlsByteVecU16,
    TlsByteVecU32, TlsByteVecU8, TlsSize, TlsSliceU16, TlsSliceU32, TlsSliceU8, TlsVecU16,
    TlsVecU32, TlsVecU8,
};

#[test]
fn unsigned_integers_are_big_endian() {
    assert_eq!(0x12u8.tls_serialize_detached().unwrap(), vec![0x12]);
    assert_eq!(0x1234u16.tls_serialize_detached().unwrap(), vec![0x12, 0x34]);
    assert_eq!(
        0x1234_5678u32.tls_serialize_detached().unwrap(),
        vec![0x12, 0x34, 0x56, 0x78]
    );
    assert_eq!(
        0x0102_0304_0506_0708u64.tls_serialize_detached().unwrap(),
        vec![1, 2, 3, 4, 5, 6, 7, 8]
    );
    assert_eq!(0u32.tls_serialize_detached().unwrap(), vec![0, 0, 0, 0]);
    assert_eq!(u16::MAX.tls_serialize_detached().unwrap(), vec![0xff, 0xff]);
}

#[test]
fn unsigned_integers_announce_their_width() {
    assert_eq!(7u8.serialized_len(), 1);
    assert_eq!(7u16.serialized_len(), 2);
    assert_eq!(7u32.serialized_len(), 4);
    assert_eq!(7u64.serialized_len(), 8);
}

#[test]
fn unsigned_integers_round_trip() {
    for value in [0u8, 1, 77, 255] {
        let bytes = value.tls_serialize_detached().unwrap();
        assert_eq!(u8::tls_deserialize(&mut bytes.as_slice()).unwrap(), value);
    }
    for value in [0u16, 1, 355, 0xff00, u16::MAX] {
        let bytes = value.tls_serialize_detached().unwrap();
        assert_eq!(u16::tls_deserialize(&mut bytes.as_slice()).unwrap(), value);
    }
    for value in [0u32, 1, 0x0100_0000, 0xdead_beef, u32::MAX] {
        let bytes = value.tls_serialize_detached().unwrap();
        assert_eq!(u32::tls_deserialize(&mut bytes.as_slice()).unwrap(), value);
    }
    for value in [0u64, 1, 0x0100_0000_0000_0000, 0xdead_beef_0bad_cafe, u64::MAX] {
        let bytes = value.tls_serialize_detached().unwrap();
        assert_eq!(u64::tls_deserialize(&mut bytes.as_slice()).unwrap(), value);
    }
}

#[test]
fn decoding_moves_past_what_it_took() {
    let data = [0x01u8, 0x02, 0x03, 0x04, 0x05, 0x06, 0x07];
    let mut input = &data[..];
    assert_eq!(u32::tls_deserialize(&mut input).unwrap(), 0x0102_0304);
    assert_eq!(input, &[5u8, 6, 7]);
    assert_eq!(u16::tls_deserialize(&mut input).unwrap(), 0x0506);
    assert_eq!(input, &[7u8]);
}

#[test]
fn writer_keeps_what_it_held() {
    let mut writer = vec![9u8, 9];
    assert_eq!(0x0102u16.tls_serialize(&mut writer).unwrap(), 2);
    assert_eq!(writer, vec![9, 9, 1, 2]);
    let v = TlsVecU8::new(vec![3u8, 4]);
    assert_eq!(v.tls_serialize(&mut writer).unwrap(), 3);
    assert_eq!(writer, vec![9, 9, 1, 2, 2, 3, 4]);
}

#[test]
fn absent_value_is_one_zero_byte() {
    let absent: Option<u16> = None;
    assert_eq!(absent.tls_serialize_detached().unwrap(), vec![0x00]);
    assert_eq!(absent.serialized_len(), 1);
}

#[test]
fn present_value_is_tag_and_payload() {
    let present = Some(0x0102u16);
    assert_eq!(present.tls_serialize_detached().unwrap(), vec![0x01, 0x01, 0x02]);
    assert_eq!(present.serialized_len(), 3);
    let mut writer = Vec::new();
    assert_eq!(present.tls_serialize(&mut writer).unwrap(), 3);
}

#[test]
fn optional_values_round_trip() {
    let mut input = &[0u8, 1, 0xab, 0xcd, 7][..];
    assert_eq!(Option::<u16>::tls_deserialize(&mut input).unwrap(), None);
    assert_eq!(
        Option::<u16>::tls_deserialize(&mut input).unwrap(),
        Some(0xabcd)
    );
    assert_eq!(input, &[7u8]);
    let nested = Some(Some(5u8));
    let bytes = nested.tls_serialize_detached().unwrap();
    assert_eq!(bytes, vec![1, 1, 5]);
    assert_eq!(
        Option::<Option<u8>>::tls_deserialize(&mut bytes.as_slice()).unwrap(),
        nested
    );
}

#[test]
fn vector_of_bytes_after_a_leading_byte() {
    let data = [0x00u8, 0x04, 77, 88, 1, 99];
    let mut input = &data[..];
    assert_eq!(u8::tls_deserialize(&mut input).unwrap(), 0);
    let before = input.len();
    let v = TlsVecU8::<u8>::tls_deserialize(&mut input).unwrap();
    assert_eq!(v.len(), 4);
    assert_eq!(v.as_slice(), &[77u8, 88, 1, 99]);
    assert_eq!(before - input.len(), 5);
    assert!(input.is_empty());
}

#[test]
fn vector_with_four_byte_length() {
    let v = TlsVecU32::new(vec![1u8, 2, 3, 4, 5]);
    assert_eq!(
        v.tls_serialize_detached().unwrap(),
        vec![0x00, 0x00, 0x00, 0x05, 1, 2, 3, 4, 5]
    );
    assert_eq!(v.serialized_len(), 9);
}

#[test]
fn length_field_counts_bytes_not_elements() {
    let v = TlsVecU8::new(vec![0x0102u16, 0x0304, 0x0506]);
    let bytes = v.tls_serialize_detached().unwrap();
    assert_eq!(bytes, vec![6, 1, 2, 3, 4, 5, 6]);
    assert_eq!(v.serialized_len(), 7);
    let w = TlsVecU16::new(vec![0x0102_0304u32]);
    assert_eq!(w.tls_serialize_detached().unwrap(), vec![0, 4, 1, 2, 3, 4]);
}

#[test]
fn empty_vectors() {
    let v: TlsVecU8<u16> = TlsVecU8::new(Vec::new());
    assert_eq!(v.tls_serialize_detached().unwrap(), vec![0]);
    let w: TlsVecU16<u16> = TlsVecU16::new(Vec::new());
    assert_eq!(w.tls_serialize_detached().unwrap(), vec![0, 0]);
    let x: TlsVecU32<u16> = TlsVecU32::new(Vec::new());
    assert_eq!(x.tls_serialize_detached().unwrap(), vec![0, 0, 0, 0]);
    let mut input = &[0u8, 0, 0, 0, 42][..];
    let decoded = TlsVecU32::<u16>::tls_deserialize(&mut input).unwrap();
    assert!(decoded.is_empty());
    assert_eq!(input, &[42u8]);
}

#[test]
fn vectors_round_trip_in_order() {
    let elements = vec![500u16, 3, 3, 0, 65535, 1];
    let v8 = TlsVecU8::new(elements.clone());
    let bytes = v8.tls_serialize_detached().unwrap();
    let back = TlsVecU8::<u16>::tls_deserialize(&mut bytes.as_slice()).unwrap();
    assert_eq!(back.to_vec(), elements);
    let v16 = TlsVecU16::new(elements.clone());
    let bytes = v16.tls_serialize_detached().unwrap();
    let back = TlsVecU16::<u16>::tls_deserialize(&mut bytes.as_slice()).unwrap();
    assert_eq!(back.into_vec(), elements);
    let v32 = TlsVecU32::new(elements.clone());
    let bytes = v32.tls_serialize_detached().unwrap();
    let back = TlsVecU32::<u16>::tls_deserialize(&mut bytes.as_slice()).unwrap();
    assert_eq!(back, v32);
}

#[test]
fn nested_vectors_round_trip() {
    let inner_a = TlsVecU8::new(vec![1u8, 2]);
    let inner_b = TlsVecU8::new(Vec::<u8>::new());
    let inner_c = TlsVecU8::new(vec![3u8]);
    let outer = TlsVecU16::new(vec![inner_a, inner_b, inner_c]);
    let bytes = outer.tls_serialize_detached().unwrap();
    assert_eq!(bytes, vec![0, 6, 2, 1, 2, 0, 1, 3]);
    let back = TlsVecU16::<TlsVecU8<u8>>::tls_deserialize(&mut bytes.as_slice()).unwrap();
    assert_eq!(back, outer);
    let optional = TlsVecU8::new(vec![None, Some(7u8), None]);
    let bytes = optional.tls_serialize_detached().unwrap();
    assert_eq!(bytes, vec![4, 0, 1, 7, 0]);
    let back = TlsVecU8::<Option<u8>>::tls_deserialize(&mut bytes.as_slice()).unwrap();
    assert_eq!(back, optional);
}

#[test]
fn longest_payload_of_each_width_that_was_tried() {
    let v = TlsVecU8::new(vec![7u8; 255]);
    let bytes = v.tls_serialize_detached().unwrap();
    assert_eq!(bytes.len(), 256);
    assert_eq!(bytes[0], 255);
    let back = TlsVecU8::<u8>::tls_deserialize(&mut bytes.as_slice()).unwrap();
    assert_eq!(back, v);
    let w = TlsVecU16::new(vec![7u8; 65535]);
    let bytes = w.tls_serialize_detached().unwrap();
    assert_eq!(bytes.len(), 65537);
    assert_eq!(&bytes[0..2], &[0xff, 0xff]);
    let back = TlsVecU16::<u8>::tls_deserialize(&mut bytes.as_slice()).unwrap();
    assert_eq!(back, w);
    let x = TlsVecU32::new(vec![7u8; 70000]);
    let bytes = x.tls_serialize_detached().unwrap();
    assert_eq!(&bytes[0..4], &[0, 1, 0x11, 0x70]);
    let back = TlsVecU32::<u8>::tls_deserialize(&mut bytes.as_slice()).unwrap();
    assert_eq!(back, x);
}

#[test]
fn byte_strings_are_vectors_of_bytes_on_the_wire() {
    let content = vec![5u8, 0, 255, 17];
    let as_vec = TlsVecU8::new(content.clone()).tls_serialize_detached().unwrap();
    let as_bytes = TlsByteVecU8::new(content.clone()).tls_serialize_detached().unwrap();
    assert_eq!(as_vec, as_bytes);
    assert_eq!(as_bytes, vec![4, 5, 0, 255, 17]);
    let as_vec = TlsVecU16::new(content.clone()).tls_serialize_detached().unwrap();
    let as_bytes = TlsByteVecU16::new(content.clone()).tls_serialize_detached().unwrap();
    assert_eq!(as_vec, as_bytes);
    let as_vec = TlsVecU32::new(content.clone()).tls_serialize_detached().unwrap();
    let as_bytes = TlsByteVecU32::new(content.clone()).tls_serialize_detached().unwrap();
    assert_eq!(as_vec, as_bytes);
    assert_eq!(TlsByteVecU32::new(content.clone()).serialized_len(), 8);
    assert_eq!(TlsVecU32::new(content.clone()).serialized_len(), 8);
}

#[test]
fn byte_strings_round_trip() {
    let mut input = &[3u8, 10, 20, 30, 0, 2, 40, 50, 0, 0, 0, 1, 60, 70][..];
    let a = TlsByteVecU8::<u8>::tls_deserialize(&mut input).unwrap();
    assert_eq!(a.as_slice(), &[10u8, 20, 30]);
    let b = TlsByteVecU16::<u8>::tls_deserialize(&mut input).unwrap();
    assert_eq!(b.as_slice(), &[40u8, 50]);
    let c = TlsByteVecU32::<u8>::tls_deserialize(&mut input).unwrap();
    assert_eq!(c.as_slice(), &[60u8]);
    assert_eq!(input, &[70u8]);
    let bytes = a.tls_serialize_detached().unwrap();
    assert_eq!(bytes, vec![3, 10, 20, 30]);
    let as_vec = TlsVecU8::<u8>::tls_deserialize(&mut bytes.as_slice()).unwrap();
    assert_eq!(as_vec.as_slice(), a.as_slice());
}

#[test]
fn borrowed_elements_are_written_as_owned_ones() {
    let elements = vec![0x0102u16, 0x0304];
    assert_eq!(
        TlsSliceU8(&elements).tls_serialize_detached().unwrap(),
        TlsVecU8::new(elements.clone()).tls_serialize_detached().unwrap()
    );
    assert_eq!(
        TlsSliceU16(&elements).tls_serialize_detached().unwrap(),
        vec![0, 4, 1, 2, 3, 4]
    );
    assert_eq!(
        TlsSliceU32(&elements).tls_serialize_detached().unwrap(),
        TlsVecU32::new(elements.clone()).tls_serialize_detached().unwrap()
    );
    assert_eq!(TlsSliceU8(&elements).serialized_len(), 5);
    assert_eq!(TlsSliceU16(&elements).serialized_len(), 6);
    assert_eq!(TlsSliceU32(&elements).serialized_len(), 8);
    let by_reference = &TlsSliceU16(&elements);
    assert_eq!(by_reference.serialized_len(), 6);
    assert_eq!(
        by_reference.tls_serialize_detached().unwrap(),
        vec![0, 4, 1, 2, 3, 4]
    );
}

#[test]
fn borrowed_bytes_are_written_as_owned_ones() {
    let content = [9u8, 8, 7];
    assert_eq!(
        TlsByteSliceU8(&content).tls_serialize_detached().unwrap(),
        vec![3, 9, 8, 7]
    );
    assert_eq!(
        TlsByteSliceU16(&content).tls_serialize_detached().unwrap(),
        vec![0, 3, 9, 8, 7]
    );
    assert_eq!(
        TlsByteSliceU32(&content).tls_serialize_detached().unwrap(),
        vec![0, 0, 0, 3, 9, 8, 7]
    );
    assert_eq!(TlsByteSliceU8(&content).serialized_len(), 4);
    assert_eq!(TlsByteSliceU16(&content).serialized_len(), 5);
    assert_eq!(TlsByteSliceU32(&content).serialized_len(), 7);
    let by_reference = &TlsByteSliceU8(&content);
    assert_eq!(by_reference.serialized_len(), 4);
    assert_eq!(
        by_reference.tls_serialize_detached().unwrap(),
        TlsByteVecU8::new(content.to_vec()).tls_serialize_detached().unwrap()
    );
}

#[test]
fn references_to_vectors_are_written_as_the_vectors() {
    let v = TlsVecU16::new(vec![1u8, 2]);
    let r = &v;
    assert_eq!(r.serialized_len(), 4);
    assert_eq!(r.tls_serialize_detached().unwrap(), vec![0, 2, 1, 2]);
    let b = TlsByteVecU8::new(vec![1u8, 2]);
    let r = &b;
    assert_eq!(r.serialized_len(), 3);
    assert_eq!(r.tls_serialize_detached().unwrap(), vec![2, 1, 2]);
}

#[test]
fn byte_arrays_are_their_bytes() {
    let array = [1u8, 2, 3, 4, 5, 6, 7, 8, 9, 10, 11, 12, 13, 14, 15, 16];
    assert_eq!(array.serialized_len(), 16);
    let bytes = array.tls_serialize_detached().unwrap();
    assert_eq!(bytes, array.to_vec());
    let mut input = &[1u8, 2, 3][..];
    assert_eq!(<[u8; 2]>::tls_deserialize(&mut input).unwrap(), [1, 2]);
    assert_eq!(input, &[3u8]);
    let arrays = TlsVecU8::new(vec![[1u8, 2], [3, 4]]);
    let bytes = arrays.tls_serialize_detached().unwrap();
    assert_eq!(bytes, vec![4, 1, 2, 3, 4]);
    let back = TlsVecU8::<[u8; 2]>::tls_deserialize(&mut bytes.as_slice()).unwrap();
    assert_eq!(back, arrays);
}

#[test]
fn announced_size_is_the_length_of_the_encoding() {
    let v = TlsVecU16::new(vec![Some(1u32), None, Some(2)]);
    assert_eq!(
        v.serialized_len(),
        v.tls_serialize_detached().unwrap().len()
    );
    let o = Some(TlsVecU8::new(vec![1u64, 2]));
    assert_eq!(
        o.serialized_len(),
        o.tls_serialize_detached().unwrap().len()
    );
}
