use wallet_mdoc::cose::{CoseKey, KeyType, Label, ParamValue};
use wallet_mdoc::crypto::{
    cbor_digest, dh_hmac_key, hmac_key, CryptoError, SecretKey, SessionKey, SessionKeyUser, VerifyingKey,
};
use wallet_mdoc::disclosure::{SessionData, SessionStatus};
use wallet_mdoc::engagement::{Engagement, Handover, SessionTranscript, SessionType};
use wallet_mdoc::test_utils::{create_example_mdoc, EXAMPLE_KEY_X, EXAMPLE_KEY_Y, SESSION_URL};

fn example_transcript() -> SessionTranscript {
    let (reader_engagement, _) = Engagement::new_reader_engagement(SESSION_URL.to_string());
    let (device_engagement, _) = Engagement::new_device_engagement("https://example.com".to_string());
    SessionTranscript::new(
        SessionType::SameDevice,
        &reader_engagement,
        &device_engagement,
        Handover::QRHandover,
    )
}

#[test]
fn session_data_encryption() {
    let plaintext = b"Hello, world!";

    let device_privkey = SecretKey::random();
    let reader_privkey = SecretKey::random();

    let mut key = SessionKey::new(
        &device_privkey,
        &reader_privkey.public_key(),
        &example_transcript(),
        SessionKeyUser::Device,
    )
    .unwrap();

    let session_data = SessionData::encrypt(plaintext, &mut key).unwrap();
    assert!(session_data.data.is_some());
    assert!(session_data.status.is_none());

    let decrypted = session_data.decrypt(&key).unwrap();
    assert_eq!(&plaintext[..], &decrypted);
}

#[test]
fn both_parties_derive_the_same_keys() {
    let device_privkey = SecretKey::random();
    let reader_privkey = SecretKey::random();
    let transcript = example_transcript();

    for user in [SessionKeyUser::Reader, SessionKeyUser::Device] {
        let mut ours = SessionKey::new(&device_privkey, &reader_privkey.public_key(), &transcript, user).unwrap();
        let theirs = SessionKey::new(&reader_privkey, &device_privkey.public_key(), &transcript, user).unwrap();
        let message = SessionData::encrypt(b"request", &mut ours).unwrap();
        assert_ne!(message.data.as_deref().unwrap(), b"request");
        assert_eq!(message.decrypt(&theirs).unwrap(), b"request");
    }
}

#[test]
fn a_session_key_encrypts_once() {
    let privkey = SecretKey::random();
    let mut key = SessionKey::new(
        &privkey,
        &SecretKey::random().public_key(),
        &example_transcript(),
        SessionKeyUser::Reader,
    )
    .unwrap();
    assert!(!key.is_used());
    assert!(key.user() == SessionKeyUser::Reader);
    SessionData::encrypt(b"first", &mut key).unwrap();
    assert!(key.is_used());
    assert_eq!(SessionData::encrypt(b"second", &mut key).unwrap_err(), CryptoError::KeyAlreadyUsed);
}

#[test]
fn decryption_fails_on_another_key_role_or_message() {
    let device_privkey = SecretKey::random();
    let reader_pubkey = SecretKey::random().public_key();
    let transcript = example_transcript();
    let mut device_key =
        SessionKey::new(&device_privkey, &reader_pubkey, &transcript, SessionKeyUser::Device).unwrap();
    let reader_key = SessionKey::new(&device_privkey, &reader_pubkey, &transcript, SessionKeyUser::Reader).unwrap();

    let mut message = SessionData::encrypt(b"payload", &mut device_key).unwrap();
    assert_eq!(message.decrypt(&reader_key).unwrap_err(), CryptoError::Aes);

    message.data.as_mut().unwrap()[0] ^= 1;
    assert_eq!(message.decrypt(&device_key).unwrap_err(), CryptoError::Aes);

    let termination = SessionData::new_termination();
    assert_eq!(termination.status, Some(SessionStatus::Termination));
    assert_eq!(termination.decrypt(&device_key).unwrap_err(), CryptoError::MissingCiphertext);
}

#[test]
fn the_transcript_feeds_the_session_key() {
    let device_privkey = SecretKey::random();
    let reader_pubkey = SecretKey::random().public_key();
    let transcript = example_transcript();
    let mut other = transcript.clone();
    other.handover = Handover::NFCHandover(wallet_mdoc::engagement::NFCHandover {
        handover_select_message: vec![1],
        handover_request_message: None,
    });
    assert_ne!(transcript.to_cbor(), other.to_cbor());

    let mut key = SessionKey::new(&device_privkey, &reader_pubkey, &transcript, SessionKeyUser::Device).unwrap();
    let same = SessionKey::new(&device_privkey, &reader_pubkey, &transcript.clone(), SessionKeyUser::Device).unwrap();
    let different = SessionKey::new(&device_privkey, &reader_pubkey, &other, SessionKeyUser::Device).unwrap();

    let message = SessionData::encrypt(b"payload", &mut key).unwrap();
    assert_eq!(message.decrypt(&same).unwrap(), b"payload");
    assert_eq!(message.decrypt(&different).unwrap_err(), CryptoError::Aes);
}

#[test]
fn nonce_names_the_agent_and_the_first_message() {
    assert_eq!(SessionData::nonce(SessionKeyUser::Reader), [0, 0, 0, 0, 0, 0, 0, 0, 0, 0, 0, 1]);
    assert_eq!(SessionData::nonce(SessionKeyUser::Device), [0, 0, 0, 0, 0, 0, 0, 1, 0, 0, 0, 1]);
}

#[test]
fn sha256_of_known_inputs() {
    assert_eq!(
        cbor_digest(b""),
        [
            0xe3, 0xb0, 0xc4, 0x42, 0x98, 0xfc, 0x1c, 0x14, 0x9a, 0xfb, 0xf4, 0xc8, 0x99, 0x6f, 0xb9, 0x24, 0x27,
            0xae, 0x41, 0xe4, 0x64, 0x9b, 0x93, 0x4c, 0xa4, 0x95, 0x99, 0x1b, 0x78, 0x52, 0xb8, 0x55
        ]
    );
    assert_eq!(
        cbor_digest(b"abc"),
        [
            0xba, 0x78, 0x16, 0xbf, 0x8f, 0x01, 0xcf, 0xea, 0x41, 0x41, 0x40, 0xde, 0x5d, 0xae, 0x22, 0x23, 0xb0,
            0x03, 0x61, 0xa3, 0x96, 0x17, 0x7a, 0x9c, 0xb4, 0x10, 0xff, 0x61, 0xf2, 0x00, 0x15, 0xad
        ]
    );
}

#[test]
fn hmac_keys_are_derived_deterministically() {
    let key = hmac_key(b"input key material", b"salt", "info", 32).unwrap();
    assert_eq!(key.len(), 32);
    assert_eq!(key, hmac_key(b"input key material", b"salt", "info", 32).unwrap());
    assert_ne!(key, hmac_key(b"input key material", b"salt", "other", 32).unwrap());
    assert_ne!(key, hmac_key(b"input key material", b"pepper", "info", 32).unwrap());
    assert_ne!(key.as_slice(), b"input key material");

    let ours = SecretKey::random();
    let theirs = SecretKey::random();
    assert_eq!(
        dh_hmac_key(&ours, &theirs.public_key(), b"salt", "EMacKey", 32).unwrap(),
        dh_hmac_key(&theirs, &ours.public_key(), b"salt", "EMacKey", 32).unwrap()
    );
}

#[test]
fn secret_keys_from_bytes() {
    let key = SecretKey::random();
    let bytes = key.to_bytes();
    assert_eq!(bytes.len(), 32);
    let again = SecretKey::from_bytes(&bytes).unwrap();
    assert_eq!(again.to_bytes(), bytes);
    assert_eq!(again.public_key(), key.public_key());
    assert!(matches!(SecretKey::from_bytes(&[0u8; 32]), Err(CryptoError::KeyParseFailed)));
    assert!(matches!(SecretKey::from_bytes(&[0xffu8; 32]), Err(CryptoError::KeyParseFailed)));
    assert!(matches!(SecretKey::from_bytes(&[1u8; 7]), Err(CryptoError::KeyParseFailed)));

    let mut one = [0u8; 32];
    one[31] = 1;
    let base = SecretKey::from_bytes(&one).unwrap().public_key();
    assert_eq!(base.x(), EXAMPLE_KEY_X);
    assert_eq!(base.y(), EXAMPLE_KEY_Y);
    assert_eq!(SecretKey::from_bytes(&one).unwrap().diffie_hellman(&base), EXAMPLE_KEY_X);
}

#[test]
fn verifying_keys_from_encodings() {
    let key = VerifyingKey::from_affine_coordinates(&EXAMPLE_KEY_X, &EXAMPLE_KEY_Y).unwrap();
    let sec1 = key.to_sec1_bytes();
    assert_eq!(sec1.len(), 65);
    assert_eq!(sec1[0], 4);
    assert_eq!(&sec1[1..33], &EXAMPLE_KEY_X);
    assert_eq!(&sec1[33..], &EXAMPLE_KEY_Y);
    assert_eq!(VerifyingKey::from_sec1_bytes(&sec1).unwrap(), key);

    let mut compressed = vec![3u8];
    compressed.extend_from_slice(&EXAMPLE_KEY_X);
    assert_eq!(VerifyingKey::from_sec1_bytes(&compressed).unwrap(), key);

    let mut off_curve = EXAMPLE_KEY_Y;
    off_curve[31] ^= 1;
    assert_eq!(
        VerifyingKey::from_affine_coordinates(&EXAMPLE_KEY_X, &off_curve).unwrap_err(),
        CryptoError::KeyParseFailed
    );
    assert_eq!(
        VerifyingKey::from_affine_coordinates(&EXAMPLE_KEY_X[1..], &EXAMPLE_KEY_Y).unwrap_err(),
        CryptoError::KeyCoordinateParseFailed
    );
    assert_eq!(VerifyingKey::from_sec1_bytes(&[]).unwrap_err(), CryptoError::KeyParseFailed);
    assert_eq!(VerifyingKey::from_sec1_bytes(&[0]).unwrap_err(), CryptoError::KeyParseFailed);
}

fn example_cose_key() -> CoseKey {
    create_example_mdoc().issuer_signed.issuer_auth.device_key
}

#[test]
fn cose_keys_convert_to_verifying_keys_and_back() {
    let cose_key = example_cose_key();
    let key = VerifyingKey::try_from_cose(&cose_key).unwrap();
    assert_eq!(key.x(), EXAMPLE_KEY_X);
    assert_eq!(key.y(), EXAMPLE_KEY_Y);
    assert_eq!(CoseKey::try_from_verifying_key(&key).unwrap(), cose_key);
    assert_eq!(CoseKey::from_verifying_key(&key), cose_key);

    let random = SecretKey::random().public_key();
    assert_eq!(
        VerifyingKey::try_from_cose(&CoseKey::from_verifying_key(&random)).unwrap(),
        random
    );
}

#[test]
fn malformed_cose_keys_are_rejected() {
    let convert = |change: &dyn Fn(&mut CoseKey)| {
        let mut key = example_cose_key();
        change(&mut key);
        VerifyingKey::try_from_cose(&key).unwrap_err()
    };
    assert_eq!(convert(&|key| key.kty = KeyType::Assigned(1)), CryptoError::KeyWrongType);
    assert_eq!(convert(&|key| key.kty = KeyType::Text("EC2".to_string())), CryptoError::KeyWrongType);
    assert_eq!(convert(&|key| key.params.clear()), CryptoError::KeyMissingKeyID);
    assert_eq!(convert(&|key| key.params[0].1 = ParamValue::Integer(2)), CryptoError::KeyWrongType);
    assert_eq!(convert(&|key| key.params[0].0 = Label::Int(1)), CryptoError::KeyWrongType);
    assert_eq!(convert(&|key| key.params.truncate(1)), CryptoError::KeyMissingCoordinate);
    assert_eq!(convert(&|key| key.params.truncate(2)), CryptoError::KeyMissingCoordinate);
    assert_eq!(convert(&|key| key.params[1].0 = Label::Int(-3)), CryptoError::KeyUnepectedCoseLabel);
    assert_eq!(
        convert(&|key| key.params[2].0 = Label::Text("y".to_string())),
        CryptoError::KeyUnepectedCoseLabel
    );
    assert_eq!(
        convert(&|key| key.params[1].1 = ParamValue::Integer(5)),
        CryptoError::KeyCoordinateParseFailed
    );
    assert_eq!(
        convert(&|key| key.params[2].1 = ParamValue::Other(vec![0xf6])),
        CryptoError::KeyCoordinateParseFailed
    );
    assert_eq!(
        convert(&|key| key.params[2].1 = ParamValue::Bytes(vec![1; 31])),
        CryptoError::KeyCoordinateParseFailed
    );
    assert_eq!(
        convert(&|key| key.params[2].1 = ParamValue::Bytes(vec![1; 32])),
        CryptoError::KeyParseFailed
    );
    // The order of the tests: a missing curve comes before a wrong label.
    assert_eq!(
        convert(&|key| {
            key.params[0].1 = ParamValue::Integer(2);
            key.params[1].0 = Label::Int(7);
        }),
        CryptoError::KeyWrongType
    );
}

#[test]
fn a_ciphertext_is_longer_by_its_tag() {
    let privkey = SecretKey::random();
    let pubkey = SecretKey::random().public_key();
    for length in [0usize, 1, 13, 16, 1000] {
        let mut key = SessionKey::new(&privkey, &pubkey, &example_transcript(), SessionKeyUser::Device).unwrap();
        assert!(!key.is_used());
        let message = SessionData::encrypt(&vec![7u8; length], &mut key).unwrap();
        assert_eq!(message.data.unwrap().len(), length + 16);
        assert!(message.status.is_none());
        assert!(key.is_used());
    }
    assert_eq!(wallet_mdoc::crypto::TAG_LEN, 16);
    assert_eq!(wallet_mdoc::crypto::PLAINTEXT_LIMIT, 1 << 36);
}

#[test]
fn derived_keys_have_the_length_asked_for() {
    let privkey = SecretKey::random();
    let pubkey = SecretKey::random().public_key();
    for len in [0usize, 1, 32, 33, 64, 8160] {
        assert_eq!(hmac_key(b"secret", b"salt", "info", len).unwrap().len(), len);
        assert_eq!(dh_hmac_key(&privkey, &pubkey, b"salt", "EMacKey", len).unwrap().len(), len);
    }
    // A shorter key is the beginning of a longer one.
    let long = hmac_key(b"secret", b"salt", "info", 64).unwrap();
    assert_eq!(hmac_key(b"secret", b"salt", "info", 32).unwrap(), long[..32]);
    for len in [8161usize, 10000, usize::MAX] {
        assert_eq!(hmac_key(b"secret", b"salt", "info", len), Err(CryptoError::Hkdf));
        assert_eq!(dh_hmac_key(&privkey, &pubkey, b"salt", "EMacKey", len), Err(CryptoError::Hkdf));
    }
    assert_eq!(wallet_mdoc::crypto::HKDF_OUTPUT_LIMIT, 255 * 32);
}

#[test]
fn a_derived_key_is_that_of_the_key_derivation() {
    // HKDF with SHA-256 over the material, salted with the digest of the salt.
    let salt = ring::digest::digest(&ring::digest::SHA256, b"salt");
    let prk = ring::hkdf::Salt::new(ring::hkdf::HKDF_SHA256, salt.as_ref()).extract(b"secret");
    let mut expected = [0u8; 32];
    prk.expand(&[b"info"], ring::hkdf::HKDF_SHA256)
        .unwrap()
        .fill(&mut expected)
        .unwrap();
    assert_eq!(hmac_key(b"secret", b"salt", "info", 32).unwrap(), expected);
}
