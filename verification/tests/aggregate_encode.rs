use tls_codec::{Error, Serialize, TlsSize, TlsVecU32};

#[derive(Debug, PartialEq, Clone, Copy)]
pub enum ExtensionType {
    Reserved,
    Capabilities,
    Lifetime,
    KeyId,
    ParentHash,
    RatchetTree,
    SomethingElse,
}

impl ExtensionType {
    fn discriminant(&self) -> u16 {
        match self {
            ExtensionType::Reserved => 0,
            ExtensionType::Capabilities => 1,
            ExtensionType::Lifetime => 2,
            ExtensionType::KeyId => 3,
            ExtensionType::ParentHash => 4,
            ExtensionType::RatchetTree => 5,
            ExtensionType::SomethingElse => 500,
        }
    }
}

impl TlsSize for ExtensionType {
    fn serialized_len(&self) -> usize {
        2
    }
}

impl Serialize for ExtensionType {
    fn tls_serialize(&self, writer: &mut Vec<u8>) -> Result<usize, Error> {
        self.discriminant().tls_serialize(writer)
    }
}

#[derive(Debug)]
pub struct ExtensionStruct {
    extension_type: ExtensionType,
    extension_data: TlsVecU32<u8>,
}

impl TlsSize for ExtensionStruct {
    fn serialized_len(&self) -> usize {
        self.extension_type.serialized_len() + self.extension_data.serialized_len()
    }
}

impl Serialize for ExtensionStruct {
    fn tls_serialize(&self, writer: &mut Vec<u8>) -> Result<usize, Error> {
        let mut written = self.extension_type.tls_serialize(writer)?;
        written += self.extension_data.tls_serialize(writer)?;
        Ok(written)
    }
}

#[test]
fn encode_simple_enum() {
    let serialized = ExtensionType::KeyId.tls_serialize_detached().unwrap();
    assert_eq!(vec![0, 3], serialized);
    let serialized = ExtensionType::SomethingElse
        .tls_serialize_detached()
        .unwrap();
    assert_eq!(vec![1, 244], serialized);
    assert_eq!(ExtensionType::Reserved.discriminant(), 0);
    assert_eq!(ExtensionType::Capabilities.discriminant(), 1);
    assert_eq!(ExtensionType::Lifetime.discriminant(), 2);
    assert_eq!(ExtensionType::ParentHash.discriminant(), 4);
    assert_eq!(ExtensionType::RatchetTree.discriminant(), 5);
}

#[test]
fn encode_simple_struct() {
    let extension = ExtensionStruct {
        extension_type: ExtensionType::KeyId,
        extension_data: TlsVecU32::from_slice(&[1, 2, 3, 4, 5]),
    };
    let serialized = extension.tls_serialize_detached().unwrap();
    assert_eq!(vec![0, 3, 0, 0, 0, 5, 1, 2, 3, 4, 5], serialized);
}

#[test]
fn encode_byte_arrays() {
    let x = [0u8, 1, 2, 3];
    let serialized = x.tls_serialize_detached().unwrap();
    assert_eq!(vec![0, 1, 2, 3], serialized);
}
