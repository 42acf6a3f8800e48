//! A codec for the TLS presentation language: unsigned integers in network
//! byte order, byte arrays of fixed size, optional values, and vectors that a
//! length field of one, two or four bytes precedes.

pub mod arrays;
pub mod codec;
pub mod discriminant;
pub mod error;
pub mod laws;
pub mod option;
pub mod primitives;
pub mod secret_vec;
pub mod tls_byte_vec;
pub mod tls_slice;
pub mod tls_vec;
pub mod vector;
pub mod zeroize;

pub use codec::{Deserialize, Serialize, TlsSize};
pub use error::{Error, ErrorView};
pub use secret_vec::{SecretTlsVecU16, SecretTlsVecU32, SecretTlsVecU8};
pub use tls_byte_vec::{TlsByteVecU16, TlsByteVecU32, TlsByteVecU8};
pub use tls_slice::{
    TlsByteSliceU16, TlsByteSliceU32, TlsByteSliceU8, TlsSliceU16, TlsSliceU32, TlsSliceU8,
};
pub use tls_vec::{TlsVecU16, TlsVecU32, TlsVecU8};
pub use zeroize::Zeroizable;
