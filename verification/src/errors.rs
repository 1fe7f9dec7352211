//! Why a session failed.

use crate::crypto::CryptoError;
use crate::x509::CertificateError;
use vstd::prelude::*;

verus! {

/// Why the holder did not disclose.
#[derive(Debug, PartialEq, Eq)]
pub enum HolderError {
    /// The wallet holds no credential of a requested document type that
    /// has all requested attributes.
    UnsatisfiableRequest(String),
    /// A request for a document is not signed by the reader.
    ReaderAuthMissing,
    /// The requests for documents are signed by different readers.
    ReaderAuthsInconsistent,
    /// No chain leads from the signer of the request for a document
    /// type to a trust anchor.
    UntrustedIssuer(String),
    /// The certificate of the reader cannot be read.
    CertificateError(CertificateError),
    /// The key of a credential is of another type than the signer's.
    PrivateKeyTypeMismatch { expected: String, have: String },
}

/// Why a signature envelope was refused.
#[derive(Debug, Clone, Copy, PartialEq, Eq, Structural)]
pub enum CoseError {
    /// The signature does not verify under the key of the signer.
    EcdsaSignatureVerificationFailed,
}

/// Why a session failed. Each of these ends the session.
#[derive(Debug, PartialEq, Eq)]
pub enum Error {
    Crypto(CryptoError),
    Cose(CoseError),
    Holder(HolderError),
    /// The session is in no state for the step.
    State,
}

} // verus!
