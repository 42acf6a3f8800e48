use tls_codec::discriminant::deserialize_discriminant;
use tls_codec::{
    Deserialize, Error, Serialize, TlsSize, TlsSliceU16, TlsVecU16, TlsVecU32, TlsVecU8,
};

#[derive(Debug, PartialEq, Clone, Copy)]
pub enum ExtensionType {
    Reserved,
    Capabilities,
    Lifetime,
    KeyId,
    ParentHash,
    RatchetTree,
    SomethingElse,
}

impl ExtensionType {
    fn discriminant(&self) -> u16 {
        match self {
            ExtensionType::Reserved => 0,
            ExtensionType::Capabilities => 1,
            ExtensionType::Lifetime => 2,
            ExtensionType::KeyId => 3,
            ExtensionType::ParentHash => 4,
            ExtensionType::RatchetTree => 5,
            ExtensionType::SomethingElse => 500,
        }
    }
}

impl Default for ExtensionType {
    fn default() -> Self {
        Self::Reserved
    }
}

impl TlsSize for ExtensionType {
    fn serialized_len(&self) -> usize {
        2
    }
}

impl Serialize for ExtensionType {
    fn tls_serialize(&self, writer: &mut Vec<u8>) -> Result<usize, Error> {
        self.discriminant().tls_serialize(writer)
    }
}

const EXTENSION_TYPES: [ExtensionType; 7] = [
    ExtensionType::Reserved,
    ExtensionType::Capabilities,
    ExtensionType::Lifetime,
    ExtensionType::KeyId,
    ExtensionType::ParentHash,
    ExtensionType::RatchetTree,
    ExtensionType::SomethingElse,
];

impl Deserialize for ExtensionType {
    fn tls_deserialize(bytes: &mut &[u8]) -> Result<Self, Error> {
        let table: Vec<u64> = EXTENSION_TYPES
            .iter()
            .map(|variant| u64::from(variant.discriminant()))
            .collect();
        let place = deserialize_discriminant(2, &table, bytes)?;
        Ok(EXTENSION_TYPES[place])
    }
}

#[derive(Debug, PartialEq, Clone, Default)]
pub struct ExtensionStruct {
    extension_type: ExtensionType,
    extension_data: TlsVecU32<u8>,
}

impl TlsSize for ExtensionStruct {
    fn serialized_len(&self) -> usize {
        self.extension_type.serialized_len() + self.extension_data.serialized_len()
    }
}

impl Serialize for ExtensionStruct {
    fn tls_serialize(&self, writer: &mut Vec<u8>) -> Result<usize, Error> {
        let mut written = self.extension_type.tls_serialize(writer)?;
        written += self.extension_data.tls_serialize(writer)?;
        Ok(written)
    }
}

impl Deserialize for ExtensionStruct {
    fn tls_deserialize(bytes: &mut &[u8]) -> Result<Self, Error> {
        Ok(Self {
            extension_type: ExtensionType::tls_deserialize(bytes)?,
            extension_data: TlsVecU32::<u8>::tls_deserialize(bytes)?,
        })
    }
}

#[derive(Debug, PartialEq)]
pub struct ExtensionTypeVec {
    data: TlsVecU8<ExtensionType>,
}

impl TlsSize for ExtensionTypeVec {
    fn serialized_len(&self) -> usize {
        self.data.serialized_len()
    }
}

impl Serialize for ExtensionTypeVec {
    fn tls_serialize(&self, writer: &mut Vec<u8>) -> Result<usize, Error> {
        self.data.tls_serialize(writer)
    }
}

impl Deserialize for ExtensionTypeVec {
    fn tls_deserialize(bytes: &mut &[u8]) -> Result<Self, Error> {
        Ok(Self {
            data: TlsVecU8::<ExtensionType>::tls_deserialize(bytes)?,
        })
    }
}

#[derive(Debug, PartialEq)]
pub struct ArrayWrap {
    data: [u8; 8],
}

impl TlsSize for ArrayWrap {
    fn serialized_len(&self) -> usize {
        self.data.serialized_len()
    }
}

impl Serialize for ArrayWrap {
    fn tls_serialize(&self, writer: &mut Vec<u8>) -> Result<usize, Error> {
        self.data.tls_serialize(writer)
    }
}

impl Deserialize for ArrayWrap {
    fn tls_deserialize(bytes: &mut &[u8]) -> Result<Self, Error> {
        Ok(Self {
            data: <[u8; 8]>::tls_deserialize(bytes)?,
        })
    }
}

#[derive(Debug, PartialEq)]
pub struct TupleStruct1(ExtensionStruct);

impl TlsSize for TupleStruct1 {
    fn serialized_len(&self) -> usize {
        self.0.serialized_len()
    }
}

impl Serialize for TupleStruct1 {
    fn tls_serialize(&self, writer: &mut Vec<u8>) -> Result<usize, Error> {
        self.0.tls_serialize(writer)
    }
}

impl Deserialize for TupleStruct1 {
    fn tls_deserialize(bytes: &mut &[u8]) -> Result<Self, Error> {
        Ok(Self(ExtensionStruct::tls_deserialize(bytes)?))
    }
}

#[derive(Debug, PartialEq)]
pub struct TupleStruct(ExtensionStruct, u8);

impl TlsSize for TupleStruct {
    fn serialized_len(&self) -> usize {
        self.0.serialized_len() + self.1.serialized_len()
    }
}

impl Serialize for TupleStruct {
    fn tls_serialize(&self, writer: &mut Vec<u8>) -> Result<usize, Error> {
        let mut written = self.0.tls_serialize(writer)?;
        written += self.1.tls_serialize(writer)?;
        Ok(written)
    }
}

impl Deserialize for TupleStruct {
    fn tls_deserialize(bytes: &mut &[u8]) -> Result<Self, Error> {
        Ok(Self(
            ExtensionStruct::tls_deserialize(bytes)?,
            u8::tls_deserialize(bytes)?,
        ))
    }
}

#[test]
fn tuple_struct() {
    let ext = ExtensionStruct {
        extension_type: ExtensionType::KeyId,
        extension_data: TlsVecU32::from_slice(&[1, 2, 3, 4, 5]),
    };
    let t1 = TupleStruct1(ext.clone());
    let serialized_t1 = t1.tls_serialize_detached().unwrap();
    let deserialized_t1 = TupleStruct1::tls_deserialize(&mut serialized_t1.as_slice()).unwrap();
    assert_eq!(t1, deserialized_t1);
    assert_eq!(
        serialized_t1,
        deserialized_t1.tls_serialize_detached().unwrap()
    );

    let t2 = TupleStruct(ext, 5);
    let serialized_t2 = t2.tls_serialize_detached().unwrap();
    let deserialized_t2 = TupleStruct::tls_deserialize(&mut serialized_t2.as_slice()).unwrap();
    assert_eq!(t2, deserialized_t2);
    assert_eq!(
        serialized_t2,
        deserialized_t2.tls_serialize_detached().unwrap()
    );
}

#[test]
fn decode_simple_enum() {
    let mut b = &[0u8, 5] as &[u8];
    let deserialized = ExtensionType::tls_deserialize(&mut b).unwrap();
    assert_eq!(ExtensionType::RatchetTree, deserialized);

    let mut b = &[0u8, 5, 1, 244, 0, 1] as &[u8];
    let variants = [
        ExtensionType::RatchetTree,
        ExtensionType::SomethingElse,
        ExtensionType::Capabilities,
    ];
    for variant in variants.iter() {
        let deserialized = ExtensionType::tls_deserialize(&mut b).unwrap();
        assert_eq!(variant, &deserialized);
    }
}

#[test]
fn enum_rejects_a_discriminant_that_no_variant_has() {
    let mut b = &[0u8, 6] as &[u8];
    assert_eq!(
        ExtensionType::tls_deserialize(&mut b),
        Err(Error::DecodingError("Unmatched value 6".to_string()))
    );
    let mut b = &[2u8, 0, 7, 0, 1] as &[u8];
    assert_eq!(
        ExtensionTypeVec::tls_deserialize(&mut b),
        Err(Error::DecodingError("Unmatched value 7".to_string()))
    );
    let mut b = &[1u8] as &[u8];
    assert_eq!(
        ExtensionType::tls_deserialize(&mut b),
        Err(Error::EndOfStream)
    );
}

#[test]
fn decode_deserialize_tls_vec() {
    let long_vector = vec![ExtensionStruct::default(); 3000];
    let serialized_long_vec = TlsSliceU16(&long_vector).tls_serialize_detached().unwrap();
    println!("ser len: {:?}", serialized_long_vec.len());
    println!("ser len: {:?}", &serialized_long_vec[0..2]);
    let deserialized_long_vec: Vec<ExtensionStruct> =
        TlsVecU16::tls_deserialize(&mut serialized_long_vec.as_slice())
            .unwrap()
            .into();
    assert_eq!(long_vector.len(), deserialized_long_vec.len());
    assert_eq!(long_vector, deserialized_long_vec);
}

#[test]
fn decode_byte_arrays() {
    let x = [0u8, 1, 2, 3];
    let serialized = x.tls_serialize_detached().unwrap();
    assert_eq!(x.to_vec(), serialized);

    let y = <[u8; 4]>::tls_deserialize(&mut serialized.as_slice()).unwrap();
    assert_eq!(y, x);

    let x = [0u8, 1, 2, 3, 7, 6, 5, 4];
    let w = ArrayWrap { data: x };
    let serialized = x.tls_serialize_detached().unwrap();
    assert_eq!(x.to_vec(), serialized);

    let y = ArrayWrap::tls_deserialize(&mut serialized.as_slice()).unwrap();
    assert_eq!(y, w);
}

#[test]
fn decode_simple_struct() {
    let mut b = &[0u8, 3, 0, 0, 0, 5, 1, 2, 3, 4, 5] as &[u8];
    let extension = ExtensionStruct {
        extension_type: ExtensionType::KeyId,
        extension_data: TlsVecU32::from_slice(&[1, 2, 3, 4, 5]),
    };
    let deserialized = ExtensionStruct::tls_deserialize(&mut b).unwrap();
    assert_eq!(extension, deserialized);

    let mut b = &[8u8, 0, 1, 0, 2, 0, 3, 1, 244] as &[u8];
    let extension = ExtensionTypeVec {
        data: TlsVecU8::from_slice(&[
            ExtensionType::Capabilities,
            ExtensionType::Lifetime,
            ExtensionType::KeyId,
            ExtensionType::SomethingElse,
        ]),
    };
    let deserialized = ExtensionTypeVec::tls_deserialize(&mut b).unwrap();
    assert_eq!(extension, deserialized);
}
