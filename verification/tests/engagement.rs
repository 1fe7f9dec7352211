use ciborium::value::Value;
use coset::CborSerializable;
use wallet_mdoc::cose::{CoseKey, KeyType, Label, ParamValue};
use wallet_mdoc::crypto::{SecretKey, VerifyingKey};
use wallet_mdoc::engagement::{
    ConnectionMethodKeyed, DeviceAuthenticationKeyed, Engagement, Handover, NFCHandover, RestApiOptionsKeyed,
    RestApiOptionsVersion, RestApiType, SecurityKeyed, ServerRetrievalMethods, SessionTranscript, SessionType,
    WebSessionInfo,
};
use wallet_mdoc::test_utils::{EXAMPLE_DOC_TYPE, EXAMPLE_KEY_X, EXAMPLE_KEY_Y, SESSION_URL};

fn decode(bytes: &[u8]) -> Value {
    ciborium::de::from_reader(bytes).unwrap()
}

fn uint(value: u64) -> Value {
    Value::Integer(value.into())
}

fn signed(value: i64) -> Value {
    Value::Integer(value.into())
}

fn text(value: &str) -> Value {
    Value::Text(value.to_string())
}

fn item(bytes: Vec<u8>) -> Value {
    Value::Tag(24, Box::new(Value::Bytes(bytes)))
}

fn example_key() -> VerifyingKey {
    VerifyingKey::from_affine_coordinates(&EXAMPLE_KEY_X, &EXAMPLE_KEY_Y).unwrap()
}

fn example_key_value() -> Value {
    Value::Map(vec![
        (uint(1), uint(2)),
        (signed(-1), uint(1)),
        (signed(-2), Value::Bytes(EXAMPLE_KEY_X.to_vec())),
        (signed(-3), Value::Bytes(EXAMPLE_KEY_Y.to_vec())),
    ])
}

#[test]
fn cose_keys_are_encoded_as_coset_does() {
    let key = CoseKey::from_verifying_key(&example_key());
    let encoded = key.to_cbor();
    assert_eq!(decode(&encoded), example_key_value());
    let reference = coset::CoseKeyBuilder::new_ec2_pub_key(
        coset::iana::EllipticCurve::P_256,
        EXAMPLE_KEY_X.to_vec(),
        EXAMPLE_KEY_Y.to_vec(),
    )
    .build();
    assert_eq!(encoded, reference.to_vec().unwrap());

    let mut appended = vec![0xff];
    key.push_cbor(&mut appended);
    assert_eq!(appended[0], 0xff);
    assert_eq!(&appended[1..], encoded);

    let odd = CoseKey {
        kty: KeyType::Text("custom".to_string()),
        params: vec![
            (Label::Text("name".to_string()), ParamValue::Other(vec![0xf5])),
            (Label::Int(-70000), ParamValue::Integer(70000)),
        ],
    };
    assert_eq!(
        decode(&odd.to_cbor()),
        Value::Map(vec![
            (uint(1), text("custom")),
            (text("name"), Value::Bool(true)),
            (signed(-70000), uint(70000)),
        ])
    );
}

#[test]
fn engagement_names_cipher_suite_key_and_address() {
    let engagement = Engagement::with_key(SESSION_URL.to_string(), &example_key());
    assert_eq!(engagement.version, "1.0");
    assert_eq!(engagement.security.cipher_suite_identifier, 1);
    assert_eq!(
        VerifyingKey::try_from_cose(&engagement.security.e_sender_key_bytes).unwrap(),
        example_key()
    );
    assert_eq!(engagement.verifier_url().unwrap(), SESSION_URL);
    assert!(engagement.server_retrieval_methods.is_none());
    assert!(engagement.protocol_info.is_none());

    let key_bytes = engagement.security.e_sender_key_bytes.to_cbor();
    assert_eq!(
        decode(&engagement.to_cbor()),
        Value::Map(vec![
            (uint(0), text("1.0")),
            (uint(1), Value::Array(vec![uint(1), item(key_bytes)])),
            (
                uint(2),
                Value::Array(vec![Value::Array(vec![
                    uint(4),
                    uint(1),
                    Value::Array(vec![text(SESSION_URL)])
                ])])
            ),
        ])
    );
}

#[test]
fn fresh_engagements_name_fresh_keys() {
    let (reader, reader_key) = Engagement::new_reader_engagement(SESSION_URL.to_string());
    let (device, device_key) = Engagement::new_device_engagement("https://example.com".to_string());
    assert_eq!(
        VerifyingKey::try_from_cose(&reader.security.e_sender_key_bytes).unwrap(),
        reader_key.public_key()
    );
    assert_eq!(
        VerifyingKey::try_from_cose(&device.security.e_sender_key_bytes).unwrap(),
        device_key.public_key()
    );
    assert_ne!(reader_key.public_key(), device_key.public_key());
    assert_eq!(reader.verifier_url().unwrap(), SESSION_URL);
    assert_eq!(device.verifier_url().unwrap(), "https://example.com");
}

#[test]
fn engagement_with_every_field() {
    let info = |token: &str| WebSessionInfo {
        version: 300,
        issuer_url: "https://issuer.example.com".to_string(),
        server_retrieval_token: token.to_string(),
    };
    let method = |uri: &str| ConnectionMethodKeyed {
        typ: RestApiType {},
        version: RestApiOptionsVersion {},
        connection_options: RestApiOptionsKeyed { uri: uri.to_string() },
    };
    let engagement = Engagement {
        version: "1.0".to_string(),
        security: SecurityKeyed {
            cipher_suite_identifier: 1,
            e_sender_key_bytes: CoseKey::from_verifying_key(&example_key()),
        },
        connection_methods: Some(vec![method("a"), method("b")]),
        server_retrieval_methods: Some(ServerRetrievalMethods {
            web_api: info("first"),
            oidc: info("second"),
        }),
        protocol_info: Some(vec![0x82, 0x01, 0x02]),
    };
    let info_value = |token: &str| Value::Array(vec![uint(300), text("https://issuer.example.com"), text(token)]);
    let method_value = |uri: &str| Value::Array(vec![uint(4), uint(1), Value::Array(vec![text(uri)])]);
    assert_eq!(
        decode(&engagement.to_cbor()),
        Value::Map(vec![
            (uint(0), text("1.0")),
            (
                uint(1),
                Value::Array(vec![uint(1), item(engagement.security.e_sender_key_bytes.to_cbor())])
            ),
            (uint(2), Value::Array(vec![method_value("a"), method_value("b")])),
            (
                uint(3),
                Value::Map(vec![
                    (text("webApi"), info_value("first")),
                    (text("oidc"), info_value("second"))
                ])
            ),
            (uint(4), Value::Array(vec![uint(1), uint(2)])),
        ])
    );

    let none = Engagement {
        connection_methods: None,
        server_retrieval_methods: None,
        protocol_info: None,
        ..engagement
    };
    assert_eq!(none.verifier_url(), None);
    match decode(&none.to_cbor()) {
        Value::Map(fields) => assert_eq!(fields.len(), 2),
        other => panic!("no map: {other:?}"),
    }
    let empty = Engagement {
        connection_methods: Some(vec![]),
        ..none
    };
    assert_eq!(empty.verifier_url(), None);
}

fn example_engagements() -> (Engagement, Engagement) {
    let reader_key = SecretKey::from_bytes(&[7u8; 32]).unwrap();
    let device_key = SecretKey::from_bytes(&[9u8; 32]).unwrap();
    (
        Engagement::with_key(SESSION_URL.to_string(), &reader_key.public_key()),
        Engagement::with_key("https://example.com".to_string(), &device_key.public_key()),
    )
}

#[test]
fn transcript_binds_engagement_key_and_handover() {
    let (reader, device) = example_engagements();
    let transcript = SessionTranscript::new(SessionType::SameDevice, &reader, &device, Handover::QRHandover);
    assert_eq!(transcript.device_engagement_bytes, device.to_cbor());
    assert_eq!(transcript.ereader_key_bytes, reader.security.e_sender_key_bytes.to_cbor());
    assert_eq!(transcript.handover, Handover::QRHandover);

    let encoded = transcript.to_cbor();
    assert_eq!(
        decode(&encoded),
        Value::Array(vec![
            item(device.to_cbor()),
            item(reader.security.e_sender_key_bytes.to_cbor()),
            Value::Null
        ])
    );
    assert_eq!(decode(&transcript.tagged_bytes()), item(encoded));

    // The kind of session is no part of the transcript.
    let cross = SessionTranscript::new(SessionType::CrossDevice, &reader, &device, Handover::QRHandover);
    assert_eq!(cross, transcript);
}

#[test]
fn transcripts_of_the_same_inputs_are_the_same_bytes() {
    let (reader, device) = example_engagements();
    let build = |handover| SessionTranscript::new(SessionType::SameDevice, &reader, &device, handover).to_cbor();
    let nfc = |select: &[u8], request: Option<&[u8]>| {
        Handover::NFCHandover(NFCHandover {
            handover_select_message: select.to_vec(),
            handover_request_message: request.map(|request| request.to_vec()),
        })
    };
    assert_eq!(build(Handover::QRHandover), build(Handover::QRHandover));
    assert_eq!(build(nfc(b"select", Some(b"request"))), build(nfc(b"select", Some(b"request"))));

    let all = [
        build(Handover::QRHandover),
        build(nfc(b"select", None)),
        build(nfc(b"select", Some(b""))),
        build(nfc(b"select", Some(b"request"))),
        build(nfc(b"selec", Some(b"trequest"))),
        build(nfc(b"", None)),
        SessionTranscript::new(SessionType::SameDevice, &device, &reader, Handover::QRHandover).to_cbor(),
        SessionTranscript::new(SessionType::SameDevice, &reader, &reader, Handover::QRHandover).to_cbor(),
    ];
    for (i, left) in all.iter().enumerate() {
        for right in &all[i + 1..] {
            assert_ne!(left, right);
        }
    }
    assert_eq!(
        decode(&build(nfc(b"select", None))),
        Value::Array(vec![
            item(device.to_cbor()),
            item(reader.security.e_sender_key_bytes.to_cbor()),
            Value::Array(vec![Value::Bytes(b"select".to_vec()), Value::Null])
        ])
    );
}

#[test]
fn device_authentication_challenge_of_a_session() {
    let (reader, device) = example_engagements();
    let transcript = SessionTranscript::new(SessionType::SameDevice, &reader, &device, Handover::QRHandover);
    let challenge = DeviceAuthenticationKeyed::challenge(EXAMPLE_DOC_TYPE, &transcript);
    let inner = match decode(&challenge) {
        Value::Tag(24, inner) => inner.into_bytes().unwrap(),
        other => panic!("no encoded item: {other:?}"),
    };
    assert_eq!(
        decode(&inner),
        Value::Array(vec![
            text("DeviceAuthentication"),
            decode(&transcript.to_cbor()),
            text(EXAMPLE_DOC_TYPE),
            item(vec![0xa0]),
        ])
    );
    assert_ne!(challenge, DeviceAuthenticationKeyed::challenge("other", &transcript));
}
