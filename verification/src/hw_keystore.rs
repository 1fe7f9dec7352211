//! The key store of the platform, as the wallet reaches it: two bridges
//! that the platform implements, kept together in one place.

use vstd::prelude::*;

verus! {

/// Why the key store of the platform did not answer.
#[derive(Debug, PartialEq, Eq)]
pub enum KeyStoreError {
    /// The key store refused.
    KeyError { reason: String },
    /// The call did not reach the key store.
    BridgingError { reason: String },
}

/// The bridge to the signing keys of the platform.
pub trait SigningKeyBridge {
    fn public_key(&self, identifier: String) -> Result<Vec<u8>, KeyStoreError>;

    fn sign(&self, identifier: String, payload: Vec<u8>) -> Result<Vec<u8>, KeyStoreError>;
}

/// The bridge to the encryption keys of the platform.
pub trait EncryptionKeyBridge {
    fn encrypt(&self, identifier: String, payload: Vec<u8>) -> Result<Vec<u8>, KeyStoreError>;

    fn decrypt(&self, identifier: String, payload: Vec<u8>) -> Result<Vec<u8>, KeyStoreError>;
}

/// The bridges of a platform, made once when the process starts and
/// handed to whoever needs them.
pub struct BridgeCollection<S: SigningKeyBridge, E: EncryptionKeyBridge> {
    pub signing_key: S,
    pub encryption_key: E,
}

impl<S: SigningKeyBridge, E: EncryptionKeyBridge> BridgeCollection<S, E> {
    /// The bridge to the signing keys.
    pub fn get_signing_key_bridge(&self) -> (bridge: &S)
        ensures
            *bridge == self.signing_key,
    {
        &self.signing_key
    }

    /// The bridge to the encryption keys.
    pub fn get_encryption_key_bridge(&self) -> (bridge: &E)
        ensures
            *bridge == self.encryption_key,
    {
        &self.encryption_key
    }
}

} // verus!
