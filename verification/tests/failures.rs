use tls_codec::{
    Deserialize, Error, Serialize, TlsByteSliceU8, TlsByteVecU16, TlsByteVecU8, TlsSize,
    TlsSliceU8, TlsVecU16, TlsVecU32, TlsVecU8,
};

/// A value that announces three bytes and writes one.
#[derive(Debug, PartialEq, Clone)]
struct Liar(u8);

impl TlsSize for Liar {
    fn serialized_len(&self) -> usize {
        3
    }
}

impl Serialize for Liar {
    fn tls_serialize(&self, writer: &mut Vec<u8>) -> Result<usize, Error> {
        self.0.tls_serialize(writer)
    }
}

/// A value that writes one byte and reports five.
#[derive(Debug, PartialEq, Clone)]
struct Boaster(u8);

impl TlsSize for Boaster {
    fn serialized_len(&self) -> usize {
        1
    }
}

impl Serialize for Boaster {
    fn tls_serialize(&self, writer: &mut Vec<u8>) -> Result<usize, Error> {
        self.0.tls_serialize(writer)?;
        Ok(5)
    }
}

/// A value without bytes on the wire.
#[derive(Debug, PartialEq, Clone)]
struct Unit;

impl Deserialize for Unit {
    fn tls_deserialize(_bytes: &mut &[u8]) -> Result<Self, Error> {
        Ok(Unit)
    }
}

#[test]
fn payload_too_long_for_one_byte_length() {
    let v = TlsVecU8::new(vec![7u8; 256]);
    let mut writer = vec![1u8, 2, 3];
    assert_eq!(v.tls_serialize(&mut writer), Err(Error::InvalidVectorLength));
    assert_eq!(writer, vec![1, 2, 3]);
    assert_eq!(v.tls_serialize_detached(), Err(Error::InvalidVectorLength));
    let w = TlsVecU8::new(vec![7u16; 128]);
    assert_eq!(w.tls_serialize_detached(), Err(Error::InvalidVectorLength));
    let fits = TlsVecU8::new(vec![7u8; 255]);
    assert!(fits.tls_serialize_detached().is_ok());
}

#[test]
fn payload_too_long_for_two_byte_length() {
    let v = TlsVecU16::new(vec![7u8; 65536]);
    let mut writer = Vec::new();
    assert_eq!(v.tls_serialize(&mut writer), Err(Error::InvalidVectorLength));
    assert!(writer.is_empty());
    let elements = vec![7u32; 16384];
    assert_eq!(
        TlsVecU16::new(elements).tls_serialize_detached(),
        Err(Error::InvalidVectorLength)
    );
}

#[test]
fn byte_string_too_long_for_its_length() {
    let content = vec![0u8; 256];
    let mut writer = vec![5u8];
    assert_eq!(
        TlsByteVecU8::new(content.clone()).tls_serialize(&mut writer),
        Err(Error::InvalidVectorLength)
    );
    assert_eq!(writer, vec![5]);
    assert_eq!(
        TlsByteSliceU8(&content).tls_serialize(&mut writer),
        Err(Error::InvalidVectorLength)
    );
    assert_eq!(writer, vec![5]);
    assert_eq!(
        TlsSliceU8(&content).tls_serialize(&mut writer),
        Err(Error::InvalidVectorLength)
    );
    assert_eq!(writer, vec![5]);
    assert_eq!(
        TlsByteVecU16::new(vec![0u8; 65536]).tls_serialize_detached(),
        Err(Error::InvalidVectorLength)
    );
}

#[test]
fn element_that_cannot_be_encoded_fails_the_vector() {
    let inner = TlsVecU8::new(vec![0u8; 300]);
    let outer = TlsVecU32::new(vec![TlsVecU8::new(vec![1u8]), inner]);
    let mut writer = vec![9u8];
    assert_eq!(outer.tls_serialize(&mut writer), Err(Error::InvalidVectorLength));
    assert_eq!(writer, vec![9]);
}

#[test]
fn present_value_that_cannot_be_encoded_leaves_nothing() {
    let present = Some(TlsVecU8::new(vec![0u8; 256]));
    let mut writer = Vec::new();
    assert_eq!(present.tls_serialize(&mut writer), Err(Error::InvalidVectorLength));
    assert!(writer.is_empty());
    let mut writer = vec![7u8, 7];
    assert_eq!(present.tls_serialize(&mut writer), Err(Error::InvalidVectorLength));
    assert_eq!(writer, vec![7, 7]);
    assert_eq!(
        present.tls_serialize_detached(),
        Err(Error::InvalidVectorLength)
    );
    let nested = Some(Some(TlsVecU8::new(vec![0u16; 128])));
    let mut writer = vec![1u8];
    assert_eq!(nested.tls_serialize(&mut writer), Err(Error::InvalidVectorLength));
    assert_eq!(writer, vec![1]);
}

#[test]
fn reported_count_that_the_output_does_not_hold() {
    assert_eq!(
        Boaster(3).tls_serialize_detached(),
        Err(Error::EncodingError(
            "Expected that 5 bytes were written but the output holds 1 bytes".to_string()
        ))
    );
}

#[test]
fn announced_size_that_is_not_written() {
    let v = TlsVecU8::new(vec![Liar(5)]);
    assert_eq!(
        v.tls_serialize_detached(),
        Err(Error::EncodingError(
            "4 bytes should have been serialized but 2 were written".to_string()
        ))
    );
    let w = TlsVecU16::new(vec![Liar(5), Liar(6)]);
    assert_eq!(
        w.tls_serialize_detached(),
        Err(Error::EncodingError(
            "8 bytes should have been serialized but 4 were written".to_string()
        ))
    );
    let mut writer = vec![3u8];
    assert!(w.tls_serialize(&mut writer).is_err());
    assert_eq!(writer, vec![3]);
}

#[test]
fn input_ends_before_the_declared_length() {
    let mut input = &[4u8, 1, 2][..];
    assert_eq!(
        TlsVecU8::<u8>::tls_deserialize(&mut input),
        Err(Error::EndOfStream)
    );
    let mut input = &[0u8, 3, 1, 2][..];
    assert_eq!(
        TlsVecU16::<u8>::tls_deserialize(&mut input),
        Err(Error::EndOfStream)
    );
    let mut input = &[0u8, 0, 0, 9, 1, 2, 3, 4, 5, 6, 7, 8][..];
    assert_eq!(
        TlsVecU32::<u16>::tls_deserialize(&mut input),
        Err(Error::EndOfStream)
    );
    let mut input = &[4u8, 1, 2][..];
    assert_eq!(
        TlsByteVecU8::<u8>::tls_deserialize(&mut input),
        Err(Error::EndOfStream)
    );
}

#[test]
fn input_ends_within_the_length_field() {
    let mut input = &[][..];
    assert_eq!(
        TlsVecU8::<u8>::tls_deserialize(&mut input),
        Err(Error::EndOfStream)
    );
    let mut input = &[0u8][..];
    assert_eq!(
        TlsVecU16::<u8>::tls_deserialize(&mut input),
        Err(Error::EndOfStream)
    );
    let mut input = &[0u8, 0, 0][..];
    assert_eq!(
        TlsVecU32::<u8>::tls_deserialize(&mut input),
        Err(Error::EndOfStream)
    );
    let mut input = &[0u8][..];
    assert_eq!(
        TlsByteVecU16::<u8>::tls_deserialize(&mut input),
        Err(Error::EndOfStream)
    );
}

#[test]
fn input_ends_within_a_primitive() {
    let mut input = &[1u8][..];
    assert_eq!(u16::tls_deserialize(&mut input), Err(Error::EndOfStream));
    let mut input = &[1u8, 2, 3][..];
    assert_eq!(u32::tls_deserialize(&mut input), Err(Error::EndOfStream));
    let mut input = &[1u8, 2, 3, 4, 5, 6, 7][..];
    assert_eq!(u64::tls_deserialize(&mut input), Err(Error::EndOfStream));
    let mut input = &[][..];
    assert_eq!(u8::tls_deserialize(&mut input), Err(Error::EndOfStream));
    let mut input = &[1u8, 2, 3][..];
    assert_eq!(<[u8; 4]>::tls_deserialize(&mut input), Err(Error::EndOfStream));
    let mut input = &[][..];
    assert_eq!(
        Option::<u8>::tls_deserialize(&mut input),
        Err(Error::EndOfStream)
    );
    let mut input = &[1u8, 0][..];
    assert_eq!(
        Option::<u16>::tls_deserialize(&mut input),
        Err(Error::EndOfStream)
    );
}

#[test]
fn element_that_crosses_the_declared_boundary() {
    let mut input = &[3u8, 0, 1, 2, 0, 0][..];
    assert_eq!(
        TlsVecU8::<u16>::tls_deserialize(&mut input),
        Err(Error::DecodingError(
            "2 bytes were read but 3 were expected".to_string()
        ))
    );
    let mut input = &[0u8, 5, 1, 1, 1, 1, 1, 7, 7, 7][..];
    assert_eq!(
        TlsVecU16::<u32>::tls_deserialize(&mut input),
        Err(Error::DecodingError(
            "4 bytes were read but 5 were expected".to_string()
        ))
    );
    let mut input = &[3u8, 1, 7, 5, 9, 9, 9][..];
    assert_eq!(
        TlsVecU8::<TlsVecU8<u8>>::tls_deserialize(&mut input),
        Err(Error::DecodingError(
            "2 bytes were read but 3 were expected".to_string()
        ))
    );
}

#[test]
fn element_without_bytes_makes_no_progress() {
    let mut input = &[1u8, 7][..];
    assert_eq!(
        TlsVecU8::<Unit>::tls_deserialize(&mut input),
        Err(Error::DecodingError(
            "0 bytes were read but 1 were expected".to_string()
        ))
    );
    let mut input = &[0u8, 7][..];
    let empty = TlsVecU8::<Unit>::tls_deserialize(&mut input).unwrap();
    assert!(empty.is_empty());
    assert_eq!(input, &[7u8]);
}

#[test]
fn tag_that_is_neither_absent_nor_present() {
    let mut input = &[2u8, 1][..];
    assert_eq!(
        Option::<u8>::tls_deserialize(&mut input),
        Err(Error::DecodingError(
            "Trying to decode Option<T> with 2 for option. It must be 0 for None and 1 for Some."
                .to_string()
        ))
    );
    let mut input = &[255u8][..];
    assert_eq!(
        Option::<u8>::tls_deserialize(&mut input),
        Err(Error::DecodingError(
            "Trying to decode Option<T> with 255 for option. It must be 0 for None and 1 for Some."
                .to_string()
        ))
    );
}

#[test]
fn failure_of_an_element_is_that_of_the_vector() {
    let mut input = &[3u8, 0, 5, 0][..];
    assert_eq!(
        TlsVecU8::<Option<u8>>::tls_deserialize(&mut input),
        Err(Error::DecodingError(
            "Trying to decode Option<T> with 5 for option. It must be 0 for None and 1 for Some."
                .to_string()
        ))
    );
}

#[test]
fn failures_of_input_and_conversions() {
    let eof = std::io::Error::new(std::io::ErrorKind::UnexpectedEof, "early");
    assert_eq!(Error::from(eof), Error::EndOfStream);
    let other = std::io::Error::new(std::io::ErrorKind::InvalidData, "bad");
    match Error::from(other) {
        Error::DecodingError(text) => assert!(text.starts_with("io error: ")),
        error => panic!("unexpected {:?}", error),
    }
    let slice = [1u8, 2, 3];
    let failed = <[u8; 4]>::try_from(&slice[..]).unwrap_err();
    assert_eq!(Error::from(failed), Error::InvalidInput);
    let failed = u8::try_from(300u16).unwrap_err();
    assert_eq!(Error::from(failed), Error::InvalidVectorLength);
    assert_eq!(
        Error::from_input_failure(true, "gone".to_string()),
        Error::EndOfStream
    );
    assert_eq!(
        Error::from_input_failure(false, "gone".to_string()),
        Error::DecodingError("gone".to_string())
    );
}

#[test]
fn errors_as_text() {
    assert_eq!(Error::EndOfStream.to_string(), "EndOfStream");
    assert_eq!(Error::InvalidVectorLength.to_string(), "InvalidVectorLength");
    assert_eq!(Error::InvalidInput.to_string(), "InvalidInput");
    assert_eq!(
        Error::DecodingError("x".to_string()).to_string(),
        "DecodingError(\"x\")"
    );
    assert_eq!(
        Error::EncodingError("y".to_string()).to_string(),
        "EncodingError(\"y\")"
    );
    assert_eq!(
        Error::InvalidWriteLength("z".to_string()).to_string(),
        "InvalidWriteLength(\"z\")"
    );
    assert_eq!(
        Error::DecodingError("a \"b\"\n".to_string()).to_string(),
        "DecodingError(\"a \\\"b\\\"\\n\")"
    );
}

#[test]
fn numbers_in_the_texts_of_failures() {
    let mut input = &[0u8, 0, 1, 0, 9, 9][..];
    assert_eq!(
        TlsVecU32::<u8>::tls_deserialize(&mut input),
        Err(Error::EndOfStream)
    );
    let mut payload = vec![0u8, 0, 1, 1];
    payload.extend(vec![0u8; 257]);
    assert_eq!(
        TlsVecU32::<u16>::tls_deserialize(&mut payload.as_slice()),
        Err(Error::DecodingError(
            "256 bytes were read but 257 were expected".to_string()
        ))
    );
    let mut input = &[10u8][..];
    assert_eq!(
        Option::<u8>::tls_deserialize(&mut input),
        Err(Error::DecodingError(
            "Trying to decode Option<T> with 10 for option. It must be 0 for None and 1 for Some."
                .to_string()
        ))
    );
    let mut input = &[0u8][..];
    assert_eq!(Option::<u8>::tls_deserialize(&mut input), Ok(None));
}
