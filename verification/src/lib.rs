//! Holder-side engine of an mdoc attribute-disclosure protocol.

pub mod bytes;
pub mod cbor;
pub mod cose;
pub mod crypto;
pub mod device_retrieval;
pub mod digid;
pub mod disclosure;
pub mod engagement;
pub mod errors;
pub mod hw_keystore;
pub mod identifiers;
pub mod keys;
pub mod mdocs;
pub mod ordered_map;
pub mod proposed_document;
pub mod session;
pub mod storage;
pub mod test_utils;
pub mod text;
pub mod x509;
