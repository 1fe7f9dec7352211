//! Session cryptography: hashing, key agreement, key derivation, the
//! session's authenticated encryption, and the conversion of keys.

use crate::bytes::slice_to_vec;
use crate::cose::{
    CoseKey, CoseKeyView, KeyType, KeyTypeView, Label, LabelView, ParamValue, ParamValueView,
    CURVE_P256, KEY_TYPE_EC2, PARAM_CURVE, PARAM_X, PARAM_Y,
};
use crate::disclosure::{SessionData, SessionDataView};
use crate::engagement::{SessionTranscript, SessionTranscriptView};
use aes_gcm::aead::{Aead, Nonce, OsRng};
use aes_gcm::{Aes256Gcm, Key, KeyInit};
use vstd::prelude::*;
use vstd::utf8::{encode_utf8, is_ascii_chars, is_ascii_chars_encode_utf8};

verus! {

/// Why a key was refused, a key not derived, or a message not encrypted
/// or decrypted.
#[derive(Debug, Clone, Copy, PartialEq, Eq, Structural)]
pub enum CryptoError {
    /// The key derivation failed.
    Hkdf,
    /// A key holds less than two coordinates.
    KeyMissingCoordinate,
    /// A key is of another type than an elliptic curve key on P-256.
    KeyWrongType,
    /// A key does not name its curve.
    KeyMissingKeyID,
    /// A coordinate stands under another label than expected.
    KeyUnepectedCoseLabel,
    /// A coordinate is no byte string of the length of a field element.
    KeyCoordinateParseFailed,
    /// The bytes are no key: no point of the curve, or no scalar.
    KeyParseFailed,
    /// Encryption failed, or what was received is not authentic.
    Aes,
    /// The message holds no ciphertext.
    MissingCiphertext,
    /// The key has encrypted its one message already.
    KeyAlreadyUsed,
}

/// The length of a digest, of a field element, of a scalar and of a
/// session key.
pub const KEY_LEN: usize = 32;

/// The length of the nonce of the session's encryption.
pub const NONCE_LEN: usize = 12;

/// The length of the uncompressed encoding of a point.
pub const POINT_LEN: usize = 65;

/// The first byte of the uncompressed encoding of a point.
pub const TAG_UNCOMPRESSED: u8 = 4;

/// The length from which on a hash input is refused.
pub const HASH_INPUT_LIMIT: u64 = 0x2000_0000_0000_0000;

/// The length from which on an input of the key derivation is refused.
pub const KDF_INPUT_LIMIT: u64 = 0x1000_0000_0000_0000;

/// The SHA-256 digest of some bytes.
pub uninterp spec fn sha256_digest(data: Seq<u8>) -> Seq<u8>;

/// The bytes that HKDF with SHA-256 derives from input key material, a
/// salt and an info, for a length of at most 255 digests.
pub uninterp spec fn hkdf_sha256(ikm: Seq<u8>, salt: Seq<u8>, info: Seq<u8>, len: usize) -> Seq<u8>;

/// The greatest length of what HKDF with SHA-256 derives: 255 digests.
pub const HKDF_OUTPUT_LIMIT: usize = 8160;

/// A length of output key material, as the key derivation takes it.
pub struct OkmLength(pub usize);

impl ring::hkdf::KeyType for OkmLength {
    fn len(&self) -> usize {
        self.0
    }
}

/// What AES-256-GCM gives for a plaintext under a key and a nonce, without
/// associated data: the ciphertext followed by the tag.
pub uninterp spec fn aes256_gcm_seal(key: Seq<u8>, nonce: Seq<u8>, plaintext: Seq<u8>) -> Option<
    Seq<u8>,
>;

/// The length of the longest plaintext that AES-256-GCM encrypts.
pub const PLAINTEXT_LIMIT: u64 = 0x10_0000_0000;

/// The length of the tag that AES-256-GCM appends to a ciphertext.
pub const TAG_LEN: usize = 16;

/// What AES-256-GCM gives back for a ciphertext with its tag under a key
/// and a nonce: the plaintext, if the tag is authentic.
pub uninterp spec fn aes256_gcm_open(key: Seq<u8>, nonce: Seq<u8>, ciphertext: Seq<u8>) -> Option<
    Seq<u8>,
>;

/// The uncompressed encoding of the point of P-256 that some bytes
/// encode, if they encode a public key.
pub uninterp spec fn p256_uncompressed_point(sec1: Seq<u8>) -> Option<Seq<u8>>;

/// The scalar that some bytes encode as 32 bytes, if they encode a secret
/// key of P-256.
pub uninterp spec fn p256_secret_scalar(bytes: Seq<u8>) -> Option<Seq<u8>>;

/// The uncompressed encoding of the public key of a secret scalar.
pub uninterp spec fn p256_public_key_of(scalar: Seq<u8>) -> Seq<u8>;

/// The shared secret of a secret scalar and a public key: the x
/// coordinate of their product.
pub uninterp spec fn p256_shared_secret(scalar: Seq<u8>, public_key: Seq<u8>) -> Seq<u8>;

/// `ring::digest::digest` with SHA-256: the digest, 32 bytes. Inputs of
/// 2^61 bytes and more are left out, on which it panics.
#[verifier::external_body]
pub(crate) fn ring_sha256(data: &[u8]) -> (digest: Vec<u8>)
    requires
        data@.len() < HASH_INPUT_LIMIT,
    ensures
        digest@ == sha256_digest(data@),
        digest@.len() == KEY_LEN,
{
    ring::digest::digest(&ring::digest::SHA256, data).as_ref().to_vec()
}

/// `ring::hkdf`: extract with the salt, expand with the info to `len`
/// bytes. The expansion fails for an output of more than 255 digests,
/// and only for that.
#[verifier::external_body]
pub(crate) fn ring_hkdf_sha256(ikm: &[u8], salt: &[u8], info: &[u8], len: usize) -> (okm: Option<
    Vec<u8>,
>)
    requires
        ikm@.len() < KDF_INPUT_LIMIT,
        salt@.len() < KDF_INPUT_LIMIT,
        info@.len() < KDF_INPUT_LIMIT,
    ensures
        okm.is_some() == (len <= HKDF_OUTPUT_LIMIT),
        okm.is_some() ==> okm.unwrap()@ == hkdf_sha256(ikm@, salt@, info@, len),
        okm.is_some() ==> okm.unwrap()@.len() == len,
{
    let prk = ring::hkdf::Salt::new(ring::hkdf::HKDF_SHA256, salt).extract(ikm);
    let info = [info];
    let okm = prk.expand(&info, OkmLength(len)).ok()?;
    let mut out = vec![0u8; len];
    okm.fill(&mut out).ok()?;
    Some(out)
}

/// `Aes256Gcm::encrypt` of the crate aes-gcm, without associated data:
/// the ciphertext with its tag, 16 bytes longer than the plaintext, or
/// nothing where the plaintext is longer than 2^36 bytes, and only
/// there.
#[verifier::external_body]
#[allow(deprecated)]
pub(crate) fn aes256_gcm_encrypt(key: &[u8], nonce: &[u8], plaintext: &[u8]) -> (sealed: Option<
    Vec<u8>,
>)
    requires
        key@.len() == KEY_LEN,
        nonce@.len() == NONCE_LEN,
    ensures
        sealed.is_some() == aes256_gcm_seal(key@, nonce@, plaintext@).is_some(),
        sealed.is_some() ==> sealed.unwrap()@ == aes256_gcm_seal(
            key@,
            nonce@,
            plaintext@,
        ).unwrap(),
        sealed.is_some() == (plaintext@.len() <= PLAINTEXT_LIMIT),
        sealed.is_some() ==> sealed.unwrap()@.len() == plaintext@.len() + TAG_LEN,
{
    let cipher = Aes256Gcm::new(Key::<Aes256Gcm>::from_slice(key));
    cipher.encrypt(Nonce::<Aes256Gcm>::from_slice(nonce), plaintext).ok()
}

/// `Aes256Gcm::decrypt` of the crate aes-gcm, without associated data:
/// the plaintext, or nothing where the tag does not fit. What `encrypt`
/// gave for a plaintext under the same key and nonce decrypts to that
/// plaintext.
#[verifier::external_body]
#[allow(deprecated)]
pub(crate) fn aes256_gcm_decrypt(key: &[u8], nonce: &[u8], ciphertext: &[u8]) -> (opened: Option<
    Vec<u8>,
>)
    requires
        key@.len() == KEY_LEN,
        nonce@.len() == NONCE_LEN,
    ensures
        opened.is_some() == aes256_gcm_open(key@, nonce@, ciphertext@).is_some(),
        opened.is_some() ==> opened.unwrap()@ == aes256_gcm_open(
            key@,
            nonce@,
            ciphertext@,
        ).unwrap(),
        forall|plaintext: Seq<u8>| #[trigger]
            aes256_gcm_seal(key@, nonce@, plaintext) == Some(ciphertext@) ==> opened.is_some()
                && opened.unwrap()@ == plaintext,
{
    let cipher = Aes256Gcm::new(Key::<Aes256Gcm>::from_slice(key));
    cipher.decrypt(Nonce::<Aes256Gcm>::from_slice(nonce), ciphertext).ok()
}

/// `p256::PublicKey::from_sec1_bytes`, then `to_encoded_point` without
/// compression: the 65 bytes of the point, or nothing where the bytes
/// encode no public key. An uncompressed encoding that is accepted comes
/// back as it is.
#[verifier::external_body]
pub(crate) fn p256_normalize_point(sec1: &[u8]) -> (point: Option<Vec<u8>>)
    ensures
        point.is_some() == p256_uncompressed_point(sec1@).is_some(),
        point.is_some() ==> point.unwrap()@ == p256_uncompressed_point(sec1@).unwrap(),
        point.is_some() ==> point.unwrap()@.len() == POINT_LEN && point.unwrap()@[0]
            == TAG_UNCOMPRESSED && p256_uncompressed_point(point.unwrap()@) == Some(
            point.unwrap()@,
        ),
        point.is_some() && sec1@.len() == POINT_LEN && sec1@[0] == TAG_UNCOMPRESSED
            ==> point.unwrap()@ == sec1@,
{
    let key = p256::PublicKey::from_sec1_bytes(sec1).ok()?;
    Some(p256::EncodedPoint::from(&key).as_bytes().to_vec())
}

/// `p256::SecretKey::from_slice`, then `to_bytes`: the scalar as 32
/// bytes, or nothing where the bytes are no secret key.
#[verifier::external_body]
pub(crate) fn p256_parse_scalar(bytes: &[u8]) -> (scalar: Option<Vec<u8>>)
    ensures
        scalar.is_some() == p256_secret_scalar(bytes@).is_some(),
        scalar.is_some() ==> scalar.unwrap()@ == p256_secret_scalar(bytes@).unwrap(),
        scalar.is_some() ==> scalar.unwrap()@.len() == KEY_LEN && p256_secret_scalar(
            scalar.unwrap()@,
        ) == Some(scalar.unwrap()@),
{
    let key = p256::SecretKey::from_slice(bytes).ok()?;
    Some(key.to_bytes().to_vec())
}

/// `p256::SecretKey::random` on the system's generator: the scalar of a
/// fresh secret key, as 32 bytes.
#[verifier::external_body]
pub(crate) fn p256_random_scalar() -> (scalar: Vec<u8>)
    ensures
        scalar@.len() == KEY_LEN,
        p256_secret_scalar(scalar@) == Some(scalar@),
{
    p256::SecretKey::random(&mut OsRng).to_bytes().to_vec()
}

/// `p256::SecretKey::public_key`: the public key of a secret key, in its
/// uncompressed encoding.
#[verifier::external_body]
pub(crate) fn p256_public_key(scalar: &[u8]) -> (point: Vec<u8>)
    requires
        p256_secret_scalar(scalar@) == Some(scalar@),
    ensures
        point@ == p256_public_key_of(scalar@),
        point@.len() == POINT_LEN && point@[0] == TAG_UNCOMPRESSED && p256_uncompressed_point(
            point@,
        ) == Some(point@),
{
    let key = p256::SecretKey::from_slice(scalar).expect("a secret key");
    p256::EncodedPoint::from(&key.public_key()).as_bytes().to_vec()
}

/// `p256::ecdh::diffie_hellman`: the raw bytes of the shared secret, 32
/// of them.
#[verifier::external_body]
pub(crate) fn p256_diffie_hellman(scalar: &[u8], public_key: &[u8]) -> (secret: Vec<u8>)
    requires
        p256_secret_scalar(scalar@) == Some(scalar@),
        p256_uncompressed_point(public_key@) == Some(public_key@),
    ensures
        secret@ == p256_shared_secret(scalar@, public_key@),
        secret@.len() == KEY_LEN,
{
    let secret_key = p256::SecretKey::from_slice(scalar).expect("a secret key");
    let public_key = p256::PublicKey::from_sec1_bytes(public_key).expect("a public key");
    let shared = p256::ecdh::diffie_hellman(secret_key.to_nonzero_scalar(), public_key.as_affine());
    shared.raw_secret_bytes().to_vec()
}

/// A public key on P-256, held in its uncompressed encoding.
#[derive(Debug, PartialEq, Eq)]
pub struct VerifyingKey {
    point: Vec<u8>,
}

/// A public key on P-256, where it serves key agreement.
pub type PublicKey = VerifyingKey;

impl View for VerifyingKey {
    type V = Seq<u8>;

    closed spec fn view(&self) -> Seq<u8> {
        self.point@
    }
}

impl Clone for VerifyingKey {
    fn clone(&self) -> (copy: Self)
        ensures
            copy@ == self@,
    {
        proof {
            use_type_invariant(self);
        }
        VerifyingKey { point: self.point.clone() }
    }
}

/// The uncompressed encoding of the point with two coordinates.
pub open spec fn uncompressed(x: Seq<u8>, y: Seq<u8>) -> Seq<u8> {
    seq![TAG_UNCOMPRESSED] + x + y
}

impl VerifyingKey {
    #[verifier::type_invariant]
    spec fn well_formed(self) -> bool {
        &&& self.point@.len() == POINT_LEN
        &&& self.point@[0] == TAG_UNCOMPRESSED
        &&& p256_uncompressed_point(self.point@) == Some(self.point@)
    }

    /// The key that a SEC1 encoding names, compressed or not.
    pub fn from_sec1_bytes(bytes: &[u8]) -> (key: Result<VerifyingKey, CryptoError>)
        ensures
            match p256_uncompressed_point(bytes@) {
                Some(point) => key.is_ok() && key.unwrap()@ == point,
                None => key == Err::<VerifyingKey, CryptoError>(CryptoError::KeyParseFailed),
            },
    {
        match p256_normalize_point(bytes) {
            Some(point) => Ok(VerifyingKey { point }),
            None => Err(CryptoError::KeyParseFailed),
        }
    }

    /// The uncompressed SEC1 encoding of this key: 65 bytes that encode
    /// a public key and stand for themselves.
    pub fn to_sec1_bytes(&self) -> (bytes: Vec<u8>)
        ensures
            bytes@ == self@,
            bytes@.len() == POINT_LEN,
            bytes@[0] == TAG_UNCOMPRESSED,
            p256_uncompressed_point(bytes@) == Some(bytes@),
    {
        proof {
            use_type_invariant(self);
        }
        self.point.clone()
    }

    /// The key with the given coordinates, each a field element of 32
    /// bytes, if they are those of a point of the curve.
    pub fn from_affine_coordinates(x: &[u8], y: &[u8]) -> (key: Result<VerifyingKey, CryptoError>)
        ensures
            x@.len() != KEY_LEN || y@.len() != KEY_LEN ==> key == Err::<VerifyingKey, CryptoError>(
                CryptoError::KeyCoordinateParseFailed,
            ),
            x@.len() == KEY_LEN && y@.len() == KEY_LEN ==> match p256_uncompressed_point(
                uncompressed(x@, y@),
            ) {
                Some(_) => key.is_ok() && key.unwrap()@ == uncompressed(x@, y@),
                None => key == Err::<VerifyingKey, CryptoError>(CryptoError::KeyParseFailed),
            },
    {
        if x.len() != KEY_LEN || y.len() != KEY_LEN {
            return Err(CryptoError::KeyCoordinateParseFailed);
        }
        let mut encoded: Vec<u8> = Vec::new();
        encoded.push(TAG_UNCOMPRESSED);
        crate::cbor::push_raw(&mut encoded, x);
        crate::cbor::push_raw(&mut encoded, y);
        assert(encoded@ =~= uncompressed(x@, y@));
        match p256_normalize_point(encoded.as_slice()) {
            Some(point) => Ok(VerifyingKey { point }),
            None => Err(CryptoError::KeyParseFailed),
        }
    }

    /// The x coordinate, 32 bytes.
    pub fn x(&self) -> (x: Vec<u8>)
        ensures
            x@ == self@.subrange(1, 1 + KEY_LEN as int),
    {
        proof {
            use_type_invariant(self);
        }
        slice_to_vec(self.point.as_slice(), 1, 1 + KEY_LEN)
    }

    /// The y coordinate, 32 bytes.
    pub fn y(&self) -> (y: Vec<u8>)
        ensures
            y@ == self@.subrange(1 + KEY_LEN as int, POINT_LEN as int),
    {
        proof {
            use_type_invariant(self);
        }
        slice_to_vec(self.point.as_slice(), 1 + KEY_LEN, POINT_LEN)
    }

    /// The key that a COSE key names: an elliptic curve key on P-256 with
    /// the curve, the x and the y coordinate as its first three
    /// parameters.
    pub fn try_from_cose(key: &CoseKey) -> (converted: Result<VerifyingKey, CryptoError>)
        ensures
            match verifying_key_of_cose(key@) {
                Err(error) => converted == Err::<VerifyingKey, CryptoError>(error),
                Ok(point) => converted.is_ok() && converted.unwrap()@ == point,
            },
    {
        match coordinates_of(key) {
            Err(error) => Err(error),
            Ok((x, y)) => VerifyingKey::from_affine_coordinates(x.as_slice(), y.as_slice()),
        }
    }
}

/// The coordinates that a COSE key holds, or why it is no elliptic curve
/// key on P-256. The tests come in this order: the key type; the first
/// parameter, which names the curve; the labels of the second and third
/// parameter; their values.
pub open spec fn cose_key_coordinates(key: CoseKeyView) -> Result<(Seq<u8>, Seq<u8>), CryptoError> {
    if key.kty != KeyTypeView::Assigned(KEY_TYPE_EC2) {
        Err(CryptoError::KeyWrongType)
    } else if key.params.len() < 1 {
        Err(CryptoError::KeyMissingKeyID)
    } else if key.params[0] != (LabelView::Int(PARAM_CURVE), ParamValueView::Integer(CURVE_P256)) {
        Err(CryptoError::KeyWrongType)
    } else if key.params.len() < 2 {
        Err(CryptoError::KeyMissingCoordinate)
    } else if key.params[1].0 != LabelView::Int(PARAM_X) {
        Err(CryptoError::KeyUnepectedCoseLabel)
    } else if key.params.len() < 3 {
        Err(CryptoError::KeyMissingCoordinate)
    } else if key.params[2].0 != LabelView::Int(PARAM_Y) {
        Err(CryptoError::KeyUnepectedCoseLabel)
    } else {
        match (key.params[1].1, key.params[2].1) {
            (ParamValueView::Bytes(x), ParamValueView::Bytes(y)) => if x.len() == KEY_LEN
                && y.len() == KEY_LEN {
                Ok((x, y))
            } else {
                Err(CryptoError::KeyCoordinateParseFailed)
            },
            _ => Err(CryptoError::KeyCoordinateParseFailed),
        }
    }
}

/// The public key that a COSE key names, in its uncompressed encoding:
/// the point with the coordinates that the key holds, if it lies on the
/// curve.
pub open spec fn verifying_key_of_cose(key: CoseKeyView) -> Result<Seq<u8>, CryptoError> {
    match cose_key_coordinates(key) {
        Err(error) => Err(error),
        Ok((x, y)) => match p256_uncompressed_point(uncompressed(x, y)) {
            Some(_) => Ok(uncompressed(x, y)),
            None => Err(CryptoError::KeyParseFailed),
        },
    }
}

/// Whether a label is the integer `number`.
fn is_int_label(label: &Label, number: i64) -> (same: bool)
    ensures
        same == (label@ == LabelView::Int(number)),
{
    match label {
        Label::Int(i) => *i == number,
        Label::Text(_) => false,
    }
}

/// The coordinates that a COSE key holds, or why it is no elliptic curve
/// key on P-256.
pub fn coordinates_of(key: &CoseKey) -> (coordinates: Result<(Vec<u8>, Vec<u8>), CryptoError>)
    ensures
        match cose_key_coordinates(key@) {
            Err(error) => coordinates == Err::<(Vec<u8>, Vec<u8>), CryptoError>(error),
            Ok((x, y)) => coordinates.is_ok() && coordinates.unwrap().0@ == x
                && coordinates.unwrap().1@ == y,
        },
{
    let ghost params = key@.params;
    match &key.kty {
        KeyType::Assigned(kty) => {
            if *kty != KEY_TYPE_EC2 {
                return Err(CryptoError::KeyWrongType);
            }
        },
        KeyType::Text(_) => {
            return Err(CryptoError::KeyWrongType);
        },
    }
    if key.params.len() < 1 {
        return Err(CryptoError::KeyMissingKeyID);
    }
    assert(params[0] == (key.params[0].0@, key.params[0].1@));
    let names_curve = is_int_label(&key.params[0].0, PARAM_CURVE) && match &key.params[0].1 {
        ParamValue::Integer(curve) => *curve == CURVE_P256,
        _ => false,
    };
    if !names_curve {
        return Err(CryptoError::KeyWrongType);
    }
    if key.params.len() < 2 {
        return Err(CryptoError::KeyMissingCoordinate);
    }
    assert(params[1] == (key.params[1].0@, key.params[1].1@));
    if !is_int_label(&key.params[1].0, PARAM_X) {
        return Err(CryptoError::KeyUnepectedCoseLabel);
    }
    if key.params.len() < 3 {
        return Err(CryptoError::KeyMissingCoordinate);
    }
    assert(params[2] == (key.params[2].0@, key.params[2].1@));
    if !is_int_label(&key.params[2].0, PARAM_Y) {
        return Err(CryptoError::KeyUnepectedCoseLabel);
    }
    match (&key.params[1].1, &key.params[2].1) {
        (ParamValue::Bytes(x), ParamValue::Bytes(y)) => {
            if x.len() == KEY_LEN && y.len() == KEY_LEN {
                Ok((x.clone(), y.clone()))
            } else {
                Err(CryptoError::KeyCoordinateParseFailed)
            }
        },
        _ => Err(CryptoError::KeyCoordinateParseFailed),
    }
}

/// The COSE key of the point with two coordinates: an elliptic curve key
/// that names the curve P-256, then x, then y.
pub open spec fn ec2_cose_key(x: Seq<u8>, y: Seq<u8>) -> CoseKeyView {
    CoseKeyView {
        kty: KeyTypeView::Assigned(KEY_TYPE_EC2),
        params: seq![
            (LabelView::Int(PARAM_CURVE), ParamValueView::Integer(CURVE_P256)),
            (LabelView::Int(PARAM_X), ParamValueView::Bytes(x)),
            (LabelView::Int(PARAM_Y), ParamValueView::Bytes(y)),
        ],
    }
}

impl CoseKey {
    /// The COSE key that names a public key.
    pub fn from_verifying_key(key: &VerifyingKey) -> (converted: CoseKey)
        ensures
            converted@ == ec2_cose_key(
                key@.subrange(1, 1 + KEY_LEN as int),
                key@.subrange(1 + KEY_LEN as int, POINT_LEN as int),
            ),
            converted.params.len() == 3,
    {
        let x = key.x();
        let y = key.y();
        let mut params: Vec<(Label, ParamValue)> = Vec::new();
        params.push((Label::Int(PARAM_CURVE), ParamValue::Integer(CURVE_P256)));
        params.push((Label::Int(PARAM_X), ParamValue::Bytes(x)));
        params.push((Label::Int(PARAM_Y), ParamValue::Bytes(y)));
        let converted = CoseKey { kty: KeyType::Assigned(KEY_TYPE_EC2), params };
        assert(converted@.params =~= ec2_cose_key(x@, y@).params);
        converted
    }

    /// The COSE key that names a public key. A key held without
    /// compression has both coordinates: the conversion never fails.
    pub fn try_from_verifying_key(key: &VerifyingKey) -> (converted: Result<CoseKey, CryptoError>)
        ensures
            converted.is_ok(),
            converted.unwrap()@ == ec2_cose_key(
                key@.subrange(1, 1 + KEY_LEN as int),
                key@.subrange(1 + KEY_LEN as int, POINT_LEN as int),
            ),
            converted.unwrap().params.len() == 3,
    {
        Ok(CoseKey::from_verifying_key(key))
    }
}

/// The COSE key made of the two halves of an uncompressed point holds
/// their coordinates, and the coordinates give the point back: a key
/// converted to a COSE key and back is the same key.
pub proof fn lemma_cose_key_round_trip(point: Seq<u8>)
    requires
        point.len() == POINT_LEN,
        point[0] == TAG_UNCOMPRESSED,
    ensures
        ({
            let x = point.subrange(1, 1 + KEY_LEN as int);
            let y = point.subrange(1 + KEY_LEN as int, POINT_LEN as int);
            &&& cose_key_coordinates(ec2_cose_key(x, y)) == Ok::<(Seq<u8>, Seq<u8>), CryptoError>(
                (x, y),
            )
            &&& uncompressed(x, y) == point
        }),
{
    let x = point.subrange(1, 1 + KEY_LEN as int);
    let y = point.subrange(1 + KEY_LEN as int, POINT_LEN as int);
    assert(uncompressed(x, y) =~= point);
}

/// A secret key on P-256: its scalar, 32 bytes.
pub struct SecretKey {
    scalar: Vec<u8>,
}

impl View for SecretKey {
    type V = Seq<u8>;

    closed spec fn view(&self) -> Seq<u8> {
        self.scalar@
    }
}

impl SecretKey {
    #[verifier::type_invariant]
    spec fn well_formed(self) -> bool {
        &&& self.scalar@.len() == KEY_LEN
        &&& p256_secret_scalar(self.scalar@) == Some(self.scalar@)
    }

    /// A fresh secret key.
    pub fn random() -> (key: SecretKey)
        ensures
            p256_secret_scalar(key@) == Some(key@),
    {
        SecretKey { scalar: p256_random_scalar() }
    }

    /// The secret key that some bytes encode.
    pub fn from_bytes(bytes: &[u8]) -> (key: Result<SecretKey, CryptoError>)
        ensures
            match p256_secret_scalar(bytes@) {
                Some(scalar) => key.is_ok() && key.unwrap()@ == scalar,
                None => (key matches Err(error) && error == CryptoError::KeyParseFailed),
            },
    {
        match p256_parse_scalar(bytes) {
            Some(scalar) => Ok(SecretKey { scalar }),
            None => Err(CryptoError::KeyParseFailed),
        }
    }

    /// The scalar of this key: 32 bytes that are a secret key.
    pub fn to_bytes(&self) -> (bytes: Vec<u8>)
        ensures
            bytes@ == self@,
            bytes@.len() == KEY_LEN,
            p256_secret_scalar(bytes@) == Some(bytes@),
    {
        proof {
            use_type_invariant(self);
        }
        self.scalar.clone()
    }

    /// The public key of this secret key.
    pub fn public_key(&self) -> (key: PublicKey)
        ensures
            key@ == p256_public_key_of(self@),
    {
        proof {
            use_type_invariant(self);
        }
        VerifyingKey { point: p256_public_key(self.scalar.as_slice()) }
    }

    /// The secret that this key shares with a public key.
    pub fn diffie_hellman(&self, public_key: &PublicKey) -> (secret: Vec<u8>)
        ensures
            secret@ == p256_shared_secret(self@, public_key@),
            secret@.len() == KEY_LEN,
    {
        proof {
            use_type_invariant(self);
            use_type_invariant(public_key);
        }
        p256_diffie_hellman(self.scalar.as_slice(), public_key.point.as_slice())
    }
}

/// The SHA-256 digest of an encoded value.
pub fn cbor_digest(encoded: &[u8]) -> (digest: Vec<u8>)
    requires
        encoded@.len() < HASH_INPUT_LIMIT,
    ensures
        digest@ == sha256_digest(encoded@),
        digest@.len() == KEY_LEN,
{
    ring_sha256(encoded)
}

/// The key of `len` bytes that HKDF derives from input key material,
/// the digest of a salt, and an info.
pub open spec fn derived_key(ikm: Seq<u8>, salt: Seq<u8>, info: Seq<char>, len: usize) -> Seq<u8> {
    hkdf_sha256(ikm, sha256_digest(salt), encode_utf8(info), len)
}

/// Derives a key of `len` bytes for message authentication from input
/// key material: HKDF over the material, with the digest of the salt as
/// its salt. More than 255 digests are not derived.
pub fn hmac_key(input_key_material: &[u8], salt: &[u8], info: &str, len: usize) -> (key: Result<
    Vec<u8>,
    CryptoError,
>)
    requires
        input_key_material@.len() < KDF_INPUT_LIMIT,
        salt@.len() < HASH_INPUT_LIMIT,
        encode_utf8(info@).len() < KDF_INPUT_LIMIT,
    ensures
        match key {
            Ok(bytes) => len <= HKDF_OUTPUT_LIMIT && bytes@ == derived_key(
                input_key_material@,
                salt@,
                info@,
                len,
            ) && bytes@.len() == len,
            Err(error) => len > HKDF_OUTPUT_LIMIT && error == CryptoError::Hkdf,
        },
{
    let digest = ring_sha256(salt);
    match ring_hkdf_sha256(input_key_material, digest.as_slice(), info.as_bytes(), len) {
        Some(key) => Ok(key),
        None => Err(CryptoError::Hkdf),
    }
}

/// Derives a key of `len` bytes for message authentication from the
/// secret that a secret key and a public key share.
pub fn dh_hmac_key(
    privkey: &SecretKey,
    pubkey: &PublicKey,
    salt: &[u8],
    info: &str,
    len: usize,
) -> (key: Result<Vec<u8>, CryptoError>)
    requires
        salt@.len() < HASH_INPUT_LIMIT,
        encode_utf8(info@).len() < KDF_INPUT_LIMIT,
    ensures
        match key {
            Ok(bytes) => len <= HKDF_OUTPUT_LIMIT && bytes@ == derived_key(
                p256_shared_secret(privkey@, pubkey@),
                salt@,
                info@,
                len,
            ) && bytes@.len() == len,
            Err(error) => len > HKDF_OUTPUT_LIMIT && error == CryptoError::Hkdf,
        },
{
    let dh = privkey.diffie_hellman(pubkey);
    hmac_key(dh.as_slice(), salt, info, len)
}

/// Identifies which agent uses a [`SessionKey`] to encrypt its messages.
#[derive(Debug, Clone, Copy, PartialEq, Eq, Structural)]
pub enum SessionKeyUser {
    Reader,
    Device,
}

/// The info of the key derivation for each agent.
pub open spec fn session_key_info(user: SessionKeyUser) -> Seq<char> {
    match user {
        SessionKeyUser::Reader => "SKReader"@,
        SessionKeyUser::Device => "SKDevice"@,
    }
}

/// The nonce of the one message that an agent encrypts: zeros, but for
/// the agent at the eighth byte (0 the reader, 1 the device) and the
/// message count 1 at the last.
pub open spec fn session_nonce(user: SessionKeyUser) -> Seq<u8> {
    seq![
        0u8,
        0u8,
        0u8,
        0u8,
        0u8,
        0u8,
        0u8,
        match user {
            SessionKeyUser::Reader => 0u8,
            SessionKeyUser::Device => 1u8,
        },
        0u8,
        0u8,
        0u8,
        1u8,
    ]
}

/// The 32 bytes of the session key of an agent: HKDF over the shared
/// secret, salted with the digest of the tagged transcript.
pub open spec fn session_key_bytes(
    shared_secret: Seq<u8>,
    tagged_transcript: Seq<u8>,
    user: SessionKeyUser,
) -> Seq<u8> {
    derived_key(shared_secret, tagged_transcript, session_key_info(user), KEY_LEN)
}

/// Transcripts that are the same in every part give an agent the same
/// session key from the same shared secret.
pub proof fn lemma_session_key_deterministic(
    shared_secret: Seq<u8>,
    left: SessionTranscriptView,
    right: SessionTranscriptView,
    user: SessionKeyUser,
)
    requires
        left.device_engagement_bytes == right.device_engagement_bytes,
        left.ereader_key_bytes == right.ereader_key_bytes,
        left.handover == right.handover,
    ensures
        session_key_bytes(shared_secret, left.tagged_bytes(), user) == session_key_bytes(
            shared_secret,
            right.tagged_bytes(),
            user,
        ),
{
}

/// The symmetric key with which one agent encrypts its one message of a
/// session, and the other decrypts it.
pub struct SessionKey {
    key: Vec<u8>,
    user: SessionKeyUser,
    used: bool,
}

impl SessionKey {
    #[verifier::type_invariant]
    spec fn well_formed(self) -> bool {
        self.key@.len() == KEY_LEN
    }

    /// The 32 bytes of the key.
    pub closed spec fn bytes(self) -> Seq<u8> {
        self.key@
    }

    /// The agent that encrypts with this key.
    pub closed spec fn agent(self) -> SessionKeyUser {
        self.user
    }

    /// Whether the key has encrypted its message.
    pub closed spec fn spent(self) -> bool {
        self.used
    }

    /// The agent that encrypts with this key.
    pub fn user(&self) -> (user: SessionKeyUser)
        ensures
            user == self.agent(),
    {
        self.user
    }

    /// Whether the key has encrypted its message.
    pub fn is_used(&self) -> (used: bool)
        ensures
            used == self.spent(),
    {
        self.used
    }

    /// Derives the key of an agent from the secret that the two ephemeral
    /// keys share and the transcript of the session: 32 bytes, for every
    /// pair of keys and every transcript.
    pub fn new(
        privkey: &SecretKey,
        pubkey: &PublicKey,
        session_transcript: &SessionTranscript,
        user: SessionKeyUser,
    ) -> (key: Result<SessionKey, CryptoError>)
        requires
            session_transcript@.tagged_bytes().len() < HASH_INPUT_LIMIT,
        ensures
            key matches Ok(derived) && derived.bytes() == session_key_bytes(
                p256_shared_secret(privkey@, pubkey@),
                session_transcript@.tagged_bytes(),
                user,
            ) && derived.bytes().len() == KEY_LEN && derived.agent() == user && !derived.spent(),
    {
        let dh = privkey.diffie_hellman(pubkey);
        let tagged = session_transcript.tagged_bytes();
        let salt = ring_sha256(tagged.as_slice());
        let user_str = match user {
            SessionKeyUser::Reader => "SKReader",
            SessionKeyUser::Device => "SKDevice",
        };
        proof {
            reveal_strlit("SKReader");
            reveal_strlit("SKDevice");
            assert(is_ascii_chars(user_str@));
            is_ascii_chars_encode_utf8(user_str@);
        }
        let key = ring_hkdf_sha256(
            dh.as_slice(),
            salt.as_slice(),
            user_str.as_bytes(),
            KEY_LEN,
        ).unwrap();
        Ok(SessionKey { key, user, used: false })
    }
}

impl SessionData {
    /// The nonce of the one message that an agent encrypts.
    pub fn nonce(user: SessionKeyUser) -> (nonce: Vec<u8>)
        ensures
            nonce@ == session_nonce(user),
    {
        let mut nonce: Vec<u8> = Vec::new();
        let mut i: usize = 0;
        while i < NONCE_LEN
            invariant
                i <= NONCE_LEN,
                nonce@.len() == i,
                forall|j: int| 0 <= j < i ==> nonce@[j] == 0u8,
            decreases NONCE_LEN - i,
        {
            nonce.push(0u8);
            i += 1;
        }
        if user == SessionKeyUser::Device {
            nonce.set(7, 1u8);
        }
        nonce.set(11, 1u8);
        assert(nonce@ =~= session_nonce(user));
        nonce
    }

    /// Encrypts the one message of the agent that owns the key: a
    /// plaintext of at most 2^36 bytes becomes a ciphertext that is
    /// longer by the 16 bytes of its tag, a longer one is refused. A key
    /// that has encrypted before is refused: its nonce must not serve
    /// twice.
    pub fn encrypt(data: &[u8], key: &mut SessionKey) -> (message: Result<
        SessionData,
        CryptoError,
    >)
        ensures
            final(key).bytes() == old(key).bytes(),
            final(key).agent() == old(key).agent(),
            final(key).spent(),
            old(key).spent() ==> (message matches Err(error) && error == CryptoError::KeyAlreadyUsed),
            !old(key).spent() ==> match aes256_gcm_seal(
                old(key).bytes(),
                session_nonce(old(key).agent()),
                data@,
            ) {
                Some(sealed) => message.is_ok() && message.unwrap()@ == (SessionDataView {
                    data: Some(sealed),
                    status: None,
                }),
                None => (message matches Err(error) && error == CryptoError::Aes),
            },
            !old(key).spent() ==> (message is Ok <==> data@.len() <= PLAINTEXT_LIMIT),
            message matches Ok(sent) ==> sent@.status is None && (sent@.data matches Some(
                sealed,
            ) && sealed.len() == data@.len() + TAG_LEN),
    {
        proof {
            use_type_invariant(&*key);
        }
        if key.used {
            return Err(CryptoError::KeyAlreadyUsed);
        }
        key.used = true;
        let nonce = Self::nonce(key.user);
        match aes256_gcm_encrypt(key.key.as_slice(), nonce.as_slice(), data) {
            Some(ciphertext) => Ok(SessionData { data: Some(ciphertext), status: None }),
            None => Err(CryptoError::Aes),
        }
    }

    /// Decrypts the message of the agent that owns the key. What that
    /// agent encrypted under the key comes back as it was.
    pub fn decrypt(&self, key: &SessionKey) -> (plaintext: Result<Vec<u8>, CryptoError>)
        ensures
            match self@.data {
                None => (plaintext matches Err(error) && error == CryptoError::MissingCiphertext),
                Some(ciphertext) => match aes256_gcm_open(
                    key.bytes(),
                    session_nonce(key.agent()),
                    ciphertext,
                ) {
                    Some(opened) => plaintext.is_ok() && plaintext.unwrap()@ == opened,
                    None => (plaintext matches Err(error) && error == CryptoError::Aes),
                },
            },
            forall|message: Seq<u8>| #[trigger]
                aes256_gcm_seal(key.bytes(), session_nonce(key.agent()), message) == self@.data
                    && self@.data.is_some() ==> plaintext.is_ok() && plaintext.unwrap()@ == message,
    {
        proof {
            use_type_invariant(key);
        }
        match &self.data {
            None => Err(CryptoError::MissingCiphertext),
            Some(ciphertext) => {
                let nonce = Self::nonce(key.user);
                match aes256_gcm_decrypt(key.key.as_slice(), nonce.as_slice(), ciphertext.as_slice()) {
                    Some(plaintext) => Ok(plaintext),
                    None => Err(CryptoError::Aes),
                }
            },
        }
    }
}

} // verus!
