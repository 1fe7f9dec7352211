use ciborium::value::Value;
use p256::ecdsa::signature::Signer;
use wallet_mdoc::cose::signature_input;
use wallet_mdoc::crypto::{CryptoError, SecretKey, SessionKey, SessionKeyUser, VerifyingKey};
use wallet_mdoc::device_retrieval::{reader_authentication, DeviceRequest, DocRequest, ItemsRequest, ReaderAuth};
use wallet_mdoc::disclosure::{Document, SessionData, SessionStatus};
use wallet_mdoc::engagement::{Engagement, Handover, ReaderEngagement, SessionTranscript, SessionType};
use wallet_mdoc::errors::{CoseError, Error, HolderError};
use wallet_mdoc::keys::{KeyFactory, MdocEcdsaKey};
use wallet_mdoc::mdocs::{Mdoc, StoredMdoc};
use wallet_mdoc::proposed_document::SignError;
use wallet_mdoc::session::{AwaitingRequest, DisclosureSession, Matched, ResponseError, Terminated};
use wallet_mdoc::test_utils::{
    create_example_mdoc, emtpy_items_request, example_items_request, items_request, MockMdocDataSource,
    EXAMPLE_DOC_TYPE, EXAMPLE_NAMESPACE, RETURN_URL, RP_CA_CN, RP_CERT_CN, SESSION_URL,
};
use wallet_mdoc::x509::{
    Certificate, CertificateError, CertificateType, Generator, ReaderRegistration, TimeGenerator,
};

const REGISTRATION: &str = r#"{"name":{"en":"Reader"}}"#;

/// What a reader does in a session, as far as the holder needs it.
struct MockVerifierSession {
    trust_anchors: Vec<Certificate>,
    certificate: Certificate,
    signing_key: p256::ecdsa::SigningKey,
    reader_engagement: ReaderEngagement,
    reader_ephemeral_key: SecretKey,
    items_requests: Vec<ItemsRequest>,
}

impl MockVerifierSession {
    fn new(registration: Option<&str>) -> Self {
        let (ca, ca_privkey) = Certificate::new_ca(RP_CA_CN).unwrap();
        let registration = registration.map(|json| {
            Box::new(ReaderRegistration {
                json: json.to_string(),
            })
        });
        let (certificate, privkey) =
            Certificate::new(&ca, &ca_privkey, RP_CERT_CN, CertificateType::ReaderAuth(registration)).unwrap();
        let (reader_engagement, reader_ephemeral_key) = Engagement::new_reader_engagement(SESSION_URL.to_string());
        MockVerifierSession {
            trust_anchors: vec![ca],
            certificate,
            signing_key: p256::ecdsa::SigningKey::from_slice(&privkey.to_bytes()).unwrap(),
            reader_engagement,
            reader_ephemeral_key,
            items_requests: vec![example_items_request()],
        }
    }

    fn transcript(&self, device_engagement: &Engagement) -> SessionTranscript {
        SessionTranscript::new(
            SessionType::SameDevice,
            &self.reader_engagement,
            device_engagement,
            Handover::QRHandover,
        )
    }

    fn session_key(&self, device_engagement: &Engagement, user: SessionKeyUser) -> SessionKey {
        let device_public_key = VerifyingKey::try_from_cose(&device_engagement.security.e_sender_key_bytes).unwrap();
        SessionKey::new(
            &self.reader_ephemeral_key,
            &device_public_key,
            &self.transcript(device_engagement),
            user,
        )
        .unwrap()
    }

    fn doc_request(&self, items_request: ItemsRequest, transcript: &SessionTranscript) -> DocRequest {
        let protected = vec![0xa1, 0x01, 0x26];
        let payload = reader_authentication(transcript, &items_request);
        let signature: p256::ecdsa::Signature = self.signing_key.sign(&signature_input(&protected, &payload));
        DocRequest {
            items_request,
            reader_auth: Some(ReaderAuth {
                protected,
                certificate: self.certificate.clone(),
                signature: signature.to_bytes().to_vec(),
            }),
        }
    }

    fn device_request(&self, device_engagement: &Engagement) -> DeviceRequest {
        // The requests are signed for the session with this device.
        let transcript = self.transcript(device_engagement);
        DeviceRequest {
            version: "1.0".to_string(),
            doc_requests: self
                .items_requests
                .iter()
                .map(|items_request| self.doc_request(copy_of(items_request), &transcript))
                .collect(),
        }
    }
}

fn copy_of(request: &ItemsRequest) -> ItemsRequest {
    ItemsRequest {
        doc_type: request.doc_type.clone(),
        name_spaces: request.name_spaces.clone(),
        request_info: request.request_info.clone(),
    }
}

fn now() -> u64 {
    TimeGenerator.generate()
}

fn start(verifier: &MockVerifierSession) -> (AwaitingRequest, Vec<u8>) {
    AwaitingRequest::start(
        SessionType::SameDevice,
        &verifier.reader_engagement,
        RETURN_URL.to_string(),
        Handover::QRHandover,
    )
    .unwrap()
}

fn stored(source: &MockMdocDataSource, request: &DeviceRequest) -> Vec<Vec<StoredMdoc<String>>> {
    source.mdoc_by_doc_types(&request.doc_types()).unwrap()
}

fn matched(verifier: &MockVerifierSession, source: &MockMdocDataSource) -> Result<Matched<String>, Error> {
    let (session, _) = start(verifier);
    let request = verifier.device_request(&session.device_engagement);
    let stored = stored(source, &request);
    session.process(&request, stored, now(), &verifier.trust_anchors)
}

struct ExampleKey(String);

impl MdocEcdsaKey for ExampleKey {
    type Error = String;

    fn identifier(&self) -> String {
        self.0.clone()
    }

    fn try_sign(&self, msg: &[u8]) -> Result<Vec<u8>, String> {
        let mut scalar = [0u8; 32];
        scalar[31] = 1;
        let signature: p256::ecdsa::Signature = p256::ecdsa::SigningKey::from_slice(&scalar).unwrap().sign(msg);
        Ok(signature.to_bytes().to_vec())
    }
}

struct ExampleKeyFactory {
    fails: bool,
}

impl KeyFactory for ExampleKeyFactory {
    type Key = ExampleKey;
    type Error = String;

    fn generate_existing(&self, identifier: String, _public_key: VerifyingKey) -> ExampleKey {
        ExampleKey(identifier)
    }

    fn sign_with_existing_keys(
        &self,
        messages_and_keys: Vec<(Vec<u8>, Vec<ExampleKey>)>,
    ) -> Result<Vec<(String, Vec<u8>)>, String> {
        if self.fails {
            return Err("signer failed".to_string());
        }
        let mut signatures = Vec::new();
        for (msg, keys) in messages_and_keys {
            for key in keys {
                signatures.push((key.identifier(), key.try_sign(&msg)?));
            }
        }
        Ok(signatures)
    }
}

fn field<'a>(value: &'a Value, name: &str) -> &'a Value {
    value
        .as_map()
        .unwrap()
        .iter()
        .find(|(key, _)| key.as_text() == Some(name))
        .map(|(_, value)| value)
        .unwrap()
}

#[test]
fn a_session_discloses_the_requested_attributes() {
    let verifier = MockVerifierSession::new(Some(REGISTRATION));
    let (session, message) = start(&verifier);

    // What is sent first is the engagement of the device.
    assert_eq!(message, session.device_engagement.to_cbor());
    assert_eq!(session.transcript, verifier.transcript(&session.device_engagement));
    assert_eq!(session.device_engagement.verifier_url().unwrap(), RETURN_URL);
    assert_eq!(
        VerifyingKey::try_from_cose(&session.device_engagement.security.e_sender_key_bytes).unwrap(),
        session.device_private_key.public_key()
    );

    // The reader answers with its encrypted request.
    let device_key = verifier.session_key(&session.device_engagement, SessionKeyUser::Device);
    let request = verifier.device_request(&session.device_engagement);
    let mut reader_key = verifier.session_key(&session.device_engagement, SessionKeyUser::Reader);
    let received = SessionData::encrypt(b"the encoded request", &mut reader_key).unwrap();
    assert_eq!(session.decrypt(&received).unwrap(), b"the encoded request");

    // The request is verified and matched.
    let source = MockMdocDataSource::default();
    assert_eq!(request.doc_types(), [EXAMPLE_DOC_TYPE]);
    let matched = session
        .process(&request, stored(&source, &request), now(), &verifier.trust_anchors)
        .unwrap();
    assert_eq!(matched.reader_certificate.as_ref(), Some(&verifier.certificate));
    assert_eq!(
        matched.reader_registration().unwrap(),
        Some(ReaderRegistration {
            json: REGISTRATION.to_string()
        })
    );
    assert!(matched.is_satisfiable());
    assert_eq!(matched.doc_types.len(), 1);
    assert_eq!(matched.doc_types[0].doc_type, EXAMPLE_DOC_TYPE);
    assert_eq!(matched.doc_types[0].candidates.len(), 1);
    assert!(matched.doc_types[0].missing.is_empty());
    assert_eq!(matched.doc_types[0].candidates[0].source_identifier, "id_1");
    let challenge = matched.doc_types[0].candidates[0].device_signed_challenge.clone();
    assert_eq!(
        challenge,
        wallet_mdoc::engagement::DeviceAuthenticationKeyed::challenge(EXAMPLE_DOC_TYPE, &matched.transcript)
    );

    // The holder approves, the documents are signed, the response encrypted.
    let signing = matched.approve().unwrap();
    assert_eq!(signing.proposed_documents.len(), 1);
    let (responded, response) = signing.sign(&ExampleKeyFactory { fails: false }).unwrap();
    assert!(response.status.is_none());

    // The reader reads the response.
    let plaintext = response.decrypt(&device_key).unwrap();
    let decoded: Value = ciborium::de::from_reader(plaintext.as_slice()).unwrap();
    assert_eq!(field(&decoded, "version").as_text(), Some("1.0"));
    assert_eq!(field(&decoded, "status"), &Value::Integer(0.into()));
    let documents = field(&decoded, "documents").as_array().unwrap();
    assert_eq!(documents.len(), 1);
    assert_eq!(field(&documents[0], "docType").as_text(), Some(EXAMPLE_DOC_TYPE));
    let name_spaces = field(field(&documents[0], "issuerSigned"), "nameSpaces");
    let entries = field(name_spaces, EXAMPLE_NAMESPACE).as_array().unwrap();
    assert_eq!(entries.len(), 5);
    let first = match &entries[0] {
        Value::Tag(24, inner) => inner.as_bytes().unwrap().clone(),
        other => panic!("no encoded item: {other:?}"),
    };
    let first: Value = ciborium::de::from_reader(first.as_slice()).unwrap();
    assert_eq!(field(&first, "digestID"), &Value::Integer(0.into()));
    assert_eq!(field(&first, "elementIdentifier").as_text(), Some("family_name"));
    assert_eq!(field(&first, "elementValue").as_text(), Some("Doe"));
    assert_eq!(field(&first, "random").as_bytes().unwrap().len(), 16);
    let device_signed = field(&documents[0], "deviceSigned");
    assert_eq!(
        field(device_signed, "nameSpaces"),
        &Value::Tag(24, Box::new(Value::Bytes(vec![0xa0])))
    );
    assert!(field(field(device_signed, "deviceAuth"), "deviceSignature").is_array());

    assert_eq!(responded.complete(true), Terminated::Success);
}

#[test]
fn a_request_without_reader_authentication_is_refused() {
    let verifier = MockVerifierSession::new(None);
    let (session, _) = start(&verifier);
    let mut request = verifier.device_request(&session.device_engagement);
    request.doc_requests[0].reader_auth = None;
    let error = session
        .process(
            &request,
            Vec::<Vec<StoredMdoc<String>>>::new(),
            now(),
            &verifier.trust_anchors,
        )
        .err()
        .unwrap();
    assert_eq!(error, Error::Holder(HolderError::ReaderAuthMissing));
}

fn two_requests(verifier: &mut MockVerifierSession) {
    verifier.items_requests = vec![
        example_items_request(),
        items_request(
            "other.doc.type".to_string(),
            EXAMPLE_NAMESPACE.to_string(),
            vec!["family_name".to_string()],
        ),
    ];
}

#[test]
fn requests_of_different_readers_are_refused() {
    let mut verifier = MockVerifierSession::new(None);
    two_requests(&mut verifier);
    let other = MockVerifierSession::new(None);
    let (session, _) = start(&verifier);
    let transcript = verifier.transcript(&session.device_engagement);
    let mut request = verifier.device_request(&session.device_engagement);
    request.doc_requests[1] = other.doc_request(copy_of(&verifier.items_requests[1]), &transcript);
    let mut trust_anchors = verifier.trust_anchors.clone();
    trust_anchors.extend(other.trust_anchors.iter().cloned());
    let error = session
        .process(&request, Vec::<Vec<StoredMdoc<String>>>::new(), now(), &trust_anchors)
        .err()
        .unwrap();
    assert_eq!(error, Error::Holder(HolderError::ReaderAuthsInconsistent));
}

#[test]
fn a_reader_without_trust_anchor_is_refused() {
    let verifier = MockVerifierSession::new(None);
    let other = MockVerifierSession::new(None);
    let (session, _) = start(&verifier);
    let request = verifier.device_request(&session.device_engagement);
    let error = session
        .process(
            &request,
            Vec::<Vec<StoredMdoc<String>>>::new(),
            now(),
            &other.trust_anchors,
        )
        .err()
        .unwrap();
    assert_eq!(
        error,
        Error::Holder(HolderError::UntrustedIssuer(EXAMPLE_DOC_TYPE.to_string()))
    );

    let (session, _) = start(&verifier);
    let request = verifier.device_request(&session.device_engagement);
    let error = session
        .process(&request, Vec::<Vec<StoredMdoc<String>>>::new(), 0, &verifier.trust_anchors)
        .err()
        .unwrap();
    assert_eq!(
        error,
        Error::Holder(HolderError::UntrustedIssuer(EXAMPLE_DOC_TYPE.to_string()))
    );

    let (session, _) = start(&verifier);
    let request = verifier.device_request(&session.device_engagement);
    let error = session
        .process(
            &request,
            Vec::<Vec<StoredMdoc<String>>>::new(),
            now(),
            &vec![Certificate::from_der(vec![0])],
        )
        .err()
        .unwrap();
    assert!(matches!(
        error,
        Error::Holder(HolderError::CertificateError(CertificateError::ValidationParsing(_)))
    ));
}

#[test]
fn a_signature_over_another_session_or_request_is_refused() {
    let verifier = MockVerifierSession::new(None);
    let (session, _) = start(&verifier);
    let (other_session, _) = start(&verifier);

    // Signed for the transcript of another session.
    let request = verifier.device_request(&other_session.device_engagement);
    let error = session
        .process(
            &request,
            Vec::<Vec<StoredMdoc<String>>>::new(),
            now(),
            &verifier.trust_anchors,
        )
        .err()
        .unwrap();
    assert_eq!(error, Error::Cose(CoseError::EcdsaSignatureVerificationFailed));

    // Signed for another request.
    let mut request = verifier.device_request(&other_session.device_engagement);
    request.doc_requests[0].items_request = emtpy_items_request();
    let error = other_session
        .process(
            &request,
            Vec::<Vec<StoredMdoc<String>>>::new(),
            now(),
            &verifier.trust_anchors,
        )
        .err()
        .unwrap();
    assert_eq!(error, Error::Cose(CoseError::EcdsaSignatureVerificationFailed));

    // Signed by a key that is not that of the certificate.
    let (session, _) = start(&verifier);
    let mut request = verifier.device_request(&session.device_engagement);
    let other = MockVerifierSession::new(None);
    request.doc_requests[0].reader_auth.as_mut().unwrap().certificate = other.certificate;
    let error = session
        .process(
            &request,
            Vec::<Vec<StoredMdoc<String>>>::new(),
            now(),
            &verifier.trust_anchors,
        )
        .err()
        .unwrap();
    assert_eq!(error, Error::Cose(CoseError::EcdsaSignatureVerificationFailed));

    // With something that is no certificate.
    let (session, _) = start(&verifier);
    let mut request = verifier.device_request(&session.device_engagement);
    request.doc_requests[0].reader_auth.as_mut().unwrap().certificate = Certificate::from_der(vec![1, 2]);
    let error = session
        .process(
            &request,
            Vec::<Vec<StoredMdoc<String>>>::new(),
            now(),
            &verifier.trust_anchors,
        )
        .err()
        .unwrap();
    assert!(matches!(
        error,
        Error::Holder(HolderError::CertificateError(CertificateError::ContentParsing(_)))
    ));
}

#[test]
fn an_empty_request_needs_no_reader() {
    let mut verifier = MockVerifierSession::new(None);
    verifier.items_requests.clear();
    let matched = matched(&verifier, &MockMdocDataSource::default()).unwrap();
    assert!(matched.reader_certificate.is_none());
    assert_eq!(matched.reader_registration(), Ok(None));
    assert!(matched.doc_types.is_empty());
    assert!(matched.is_satisfiable());
    assert!(matched.approve().unwrap().proposed_documents.is_empty());
}

#[test]
fn a_reader_without_registration() {
    let verifier = MockVerifierSession::new(None);
    let matched = matched(&verifier, &MockMdocDataSource::default()).unwrap();
    assert_eq!(matched.reader_certificate.as_ref(), Some(&verifier.certificate));
    assert_eq!(matched.reader_registration(), Ok(None));
}

fn without_dates(mut mdoc: Mdoc) -> Mdoc {
    let attributes = mdoc
        .issuer_signed
        .name_spaces
        .as_mut()
        .unwrap()
        .get_mut(EXAMPLE_NAMESPACE)
        .unwrap();
    attributes.remove(1);
    attributes.remove(1);
    mdoc
}

#[test]
fn a_request_that_no_credential_meets_is_unsatisfiable() {
    let verifier = MockVerifierSession::new(None);

    // No credential of the document type.
    let source = MockMdocDataSource {
        mdocs: vec![],
        has_error: false,
    };
    let matched_none = matched(&verifier, &source).unwrap();
    assert_eq!(matched_none.doc_types.len(), 1);
    assert!(matched_none.doc_types[0].candidates.is_empty());
    assert!(matched_none.doc_types[0].missing.is_empty());
    assert!(!matched_none.is_satisfiable());
    assert_eq!(
        matched_none.approve().err().unwrap(),
        Error::Holder(HolderError::UnsatisfiableRequest(EXAMPLE_DOC_TYPE.to_string()))
    );

    // A credential that lacks attributes.
    let source = MockMdocDataSource {
        mdocs: vec![without_dates(create_example_mdoc())],
        has_error: false,
    };
    let matched_partly = matched(&verifier, &source).unwrap();
    assert!(matched_partly.doc_types[0].candidates.is_empty());
    let missing: Vec<&str> = matched_partly.doc_types[0].missing[0]
        .iter()
        .map(|identifier| identifier.2.as_str())
        .collect();
    assert_eq!(missing, ["issue_date", "expiry_date"]);
    assert_eq!(
        matched_partly.approve().err().unwrap(),
        Error::Holder(HolderError::UnsatisfiableRequest(EXAMPLE_DOC_TYPE.to_string()))
    );

    // The second of two document types is not held.
    let mut verifier = MockVerifierSession::new(None);
    two_requests(&mut verifier);
    let matched_first = matched(&verifier, &MockMdocDataSource::default()).unwrap();
    assert_eq!(matched_first.doc_types.len(), 2);
    assert_eq!(matched_first.doc_types[0].candidates.len(), 1);
    assert!(matched_first.doc_types[1].candidates.is_empty());
    assert_eq!(
        matched_first.approve().err().unwrap(),
        Error::Holder(HolderError::UnsatisfiableRequest("other.doc.type".to_string()))
    );
}

#[test]
fn the_last_candidate_of_a_document_type_is_disclosed() {
    let verifier = MockVerifierSession::new(None);
    let source = MockMdocDataSource {
        mdocs: vec![
            create_example_mdoc(),
            without_dates(create_example_mdoc()),
            create_example_mdoc(),
            create_example_mdoc(),
            without_dates(create_example_mdoc()),
        ],
        has_error: false,
    };
    let matched = matched(&verifier, &source).unwrap();
    let candidates: Vec<&str> = matched.doc_types[0]
        .candidates
        .iter()
        .map(|candidate| candidate.source_identifier.as_str())
        .collect();
    assert_eq!(candidates, ["id_1", "id_3", "id_4"]);
    assert_eq!(matched.doc_types[0].missing.len(), 2);
    let signing = matched.approve().unwrap();
    assert_eq!(signing.proposed_documents.len(), 1);
    assert_eq!(signing.proposed_documents[0].source_identifier, "id_4");
}

#[test]
fn a_cancelled_session_sends_a_termination() {
    let verifier = MockVerifierSession::new(None);
    let matched = matched(&verifier, &MockMdocDataSource::default()).unwrap();
    let (end, message) = matched.cancel();
    assert_eq!(end, Terminated::Cancelled);
    assert_eq!(message.data, None);
    assert_eq!(message.status, Some(SessionStatus::Termination));
    assert_eq!(
        message.to_cbor(),
        [0xa1, 0x66, b's', b't', b'a', b't', b'u', b's', 0x14]
    );
}

#[test]
fn session_data_on_the_wire() {
    let decode = |message: SessionData| -> Value { ciborium::de::from_reader(message.to_cbor().as_slice()).unwrap() };
    assert_eq!(
        decode(SessionData::new_decoding_error()),
        Value::Map(vec![(Value::Text("status".to_string()), Value::Integer(11.into()))])
    );
    assert_eq!(
        decode(SessionData::new_encryption_error()),
        Value::Map(vec![(Value::Text("status".to_string()), Value::Integer(10.into()))])
    );
    assert_eq!(
        decode(SessionData {
            data: Some(vec![1, 2, 3]),
            status: None
        }),
        Value::Map(vec![(Value::Text("data".to_string()), Value::Bytes(vec![1, 2, 3]))])
    );
    assert_eq!(
        decode(SessionData {
            data: Some(vec![]),
            status: Some(SessionStatus::Termination)
        }),
        Value::Map(vec![
            (Value::Text("data".to_string()), Value::Bytes(vec![])),
            (Value::Text("status".to_string()), Value::Integer(20.into()))
        ])
    );
    assert_eq!(
        decode(SessionData {
            data: None,
            status: None
        }),
        Value::Map(vec![])
    );
    assert_eq!(SessionStatus::Termination.code(), 20);
}

#[test]
fn a_failing_signer_ends_the_session_without_response() {
    let verifier = MockVerifierSession::new(None);
    let signing = matched(&verifier, &MockMdocDataSource::default())
        .unwrap()
        .approve()
        .unwrap();
    let error = signing.sign(&ExampleKeyFactory { fails: true }).err().unwrap();
    assert_eq!(
        error,
        ResponseError::Sign(SignError::Signing("signer failed".to_string()))
    );
}

#[test]
fn the_device_key_encrypts_one_response() {
    let verifier = MockVerifierSession::new(None);
    let mut signing = matched(&verifier, &MockMdocDataSource::default())
        .unwrap()
        .approve()
        .unwrap();
    SessionData::encrypt(b"something else", &mut signing.device_key).unwrap();
    assert_eq!(
        signing.respond(Vec::<Document>::new()).err().unwrap(),
        Error::Crypto(CryptoError::KeyAlreadyUsed)
    );

    let signing = matched(&verifier, &MockMdocDataSource::default())
        .unwrap()
        .approve()
        .unwrap();
    let (responded, message) = signing.respond(vec![]).unwrap();
    assert!(message.data.is_some());
    assert_eq!(responded.complete(false), Terminated::Error);
}

#[test]
fn a_message_that_is_not_from_the_reader_is_refused() {
    let verifier = MockVerifierSession::new(None);
    let (session, _) = start(&verifier);
    assert_eq!(
        session.decrypt(&SessionData::new_termination()),
        Err(Error::Crypto(CryptoError::MissingCiphertext))
    );
    let mut device_key = verifier.session_key(&session.device_engagement, SessionKeyUser::Device);
    let from_device = SessionData::encrypt(b"request", &mut device_key).unwrap();
    assert_eq!(session.decrypt(&from_device), Err(Error::Crypto(CryptoError::Aes)));
    assert_eq!(
        session.decrypt(&SessionData {
            data: Some(vec![]),
            status: None
        }),
        Err(Error::Crypto(CryptoError::Aes))
    );
}

#[test]
fn a_reader_key_that_is_no_key_ends_the_session() {
    let verifier = MockVerifierSession::new(None);
    let mut engagement = Engagement::with_key(SESSION_URL.to_string(), &SecretKey::random().public_key());
    engagement.security.e_sender_key_bytes.params.pop();
    let error = AwaitingRequest::start(
        SessionType::SameDevice,
        &engagement,
        RETURN_URL.to_string(),
        Handover::QRHandover,
    )
    .err()
    .unwrap();
    assert_eq!(error, Error::Crypto(CryptoError::KeyMissingCoordinate));

    let (device_engagement, device_key) = Engagement::new_device_engagement(RETURN_URL.to_string());
    let expected = device_engagement.to_cbor();
    let (session, message) = AwaitingRequest::with_engagement(
        SessionType::CrossDevice,
        &verifier.reader_engagement,
        device_engagement,
        device_key,
        Handover::QRHandover,
    )
    .unwrap();
    assert_eq!(message, expected);
    assert!(!session.device_key.is_used());
    assert!(session.device_key.user() == SessionKeyUser::Device);
    assert!(session.reader_key.user() == SessionKeyUser::Reader);
}

#[test]
fn stored_lists_are_matched_by_document_type() {
    let verifier = MockVerifierSession::new(None);
    let (session, _) = start(&verifier);
    let transcript = verifier.transcript(&session.device_engagement);
    let mut other = create_example_mdoc();
    other.doc_type = "other.doc.type".to_string();
    let list = |ids: &[&str], mdoc: &Mdoc| -> Vec<StoredMdoc<String>> {
        ids.iter()
            .map(|id| StoredMdoc {
                id: id.to_string(),
                mdoc: mdoc.clone(),
            })
            .collect()
    };
    let stored = vec![
        vec![],
        list(&["other_1"], &other),
        list(&["example_1", "example_2"], &create_example_mdoc()),
        list(&["example_3"], &create_example_mdoc()),
    ];
    let request = DeviceRequest {
        version: "1.0".to_string(),
        doc_requests: vec![
            verifier.doc_request(example_items_request(), &transcript),
            verifier.doc_request(example_items_request(), &transcript),
            verifier.doc_request(example_items_request(), &transcript),
        ],
    };
    let matched = request.match_stored_documents(stored, &transcript);
    let ids = |k: usize| -> Vec<&str> {
        matched[k]
            .candidates
            .iter()
            .map(|candidate| candidate.source_identifier.as_str())
            .collect()
    };
    assert_eq!(ids(0), ["example_1", "example_2"]);
    assert_eq!(ids(1), ["example_3"]);
    assert!(ids(2).is_empty());
}

fn session_at_request(verifier: &MockVerifierSession) -> (DisclosureSession<String>, DeviceRequest) {
    let session = DisclosureSession::new();
    assert_eq!(session.terminated(), None);
    let (session, message) = session.start(
        SessionType::SameDevice,
        &verifier.reader_engagement,
        RETURN_URL.to_string(),
        Handover::QRHandover,
    );
    let request = match &session {
        DisclosureSession::AwaitingRequest(state) => {
            assert_eq!(message.unwrap(), state.device_engagement.to_cbor());
            verifier.device_request(&state.device_engagement)
        }
        _ => panic!("the session does not await a request"),
    };
    (session, request)
}

#[test]
fn the_steps_of_a_session_in_their_order() {
    let verifier = MockVerifierSession::new(None);
    let source = MockMdocDataSource::default();
    let (session, request) = session_at_request(&verifier);
    let stored_mdocs = stored(&source, &request);

    let (session, outcome) = session.process(&request, stored_mdocs, now(), &verifier.trust_anchors);
    assert_eq!(outcome, Ok(()));
    assert!(matches!(session, DisclosureSession::Matched(_)));

    let (session, outcome) = session.approve();
    assert_eq!(outcome, Ok(()));
    let proposed = match session {
        DisclosureSession::Signing(mut state) => {
            let proposed = std::mem::take(&mut state.proposed_documents);
            (DisclosureSession::Signing(state), proposed)
        }
        _ => panic!("the session does not sign"),
    };
    let (session, proposed) = proposed;
    let documents = wallet_mdoc::proposed_document::ProposedDocument::sign_multiple(
        &ExampleKeyFactory { fails: false },
        proposed,
    )
    .unwrap();

    let (session, response) = session.respond(documents);
    assert!(response.unwrap().data.is_some());
    assert!(matches!(session, DisclosureSession::Responded(_)));
    let session = session.complete(true);
    assert_eq!(session.terminated(), Some(Terminated::Success));

    // A session that has ended stays ended.
    let (session, outcome) = session.approve();
    assert_eq!(outcome, Err(Error::State));
    assert_eq!(session.terminated(), Some(Terminated::Error));
}

#[test]
fn a_failing_step_ends_the_session() {
    let verifier = MockVerifierSession::new(None);

    // A request that is not signed.
    let (session, mut request) = session_at_request(&verifier);
    request.doc_requests[0].reader_auth = None;
    let (session, outcome) = session.process(&request, vec![], now(), &verifier.trust_anchors);
    assert_eq!(outcome, Err(Error::Holder(HolderError::ReaderAuthMissing)));
    assert_eq!(session.terminated(), Some(Terminated::Error));

    // A request that no credential meets.
    let (session, request) = session_at_request(&verifier);
    let (session, outcome) = session.process(&request, vec![], now(), &verifier.trust_anchors);
    assert_eq!(outcome, Ok(()));
    let (session, outcome) = session.approve();
    assert_eq!(
        outcome,
        Err(Error::Holder(HolderError::UnsatisfiableRequest(EXAMPLE_DOC_TYPE.to_string())))
    );
    assert_eq!(session.terminated(), Some(Terminated::Error));

    // A reader's key that is no key.
    let mut engagement = Engagement::with_key(SESSION_URL.to_string(), &SecretKey::random().public_key());
    engagement.security.e_sender_key_bytes.params.clear();
    let (session, outcome) = DisclosureSession::<String>::new().start(
        SessionType::SameDevice,
        &engagement,
        RETURN_URL.to_string(),
        Handover::QRHandover,
    );
    assert_eq!(outcome, Err(Error::Crypto(CryptoError::KeyMissingKeyID)));
    assert_eq!(session.terminated(), Some(Terminated::Error));

    // A signer that fails, a response that is not delivered.
    let (session, request) = session_at_request(&verifier);
    let source = MockMdocDataSource::default();
    let stored_mdocs = stored(&source, &request);
    let (session, _) = session.process(&request, stored_mdocs, now(), &verifier.trust_anchors);
    let (session, _) = session.approve();
    assert_eq!(session.fail().terminated(), Some(Terminated::Error));
    let (session, request) = session_at_request(&verifier);
    let (session, _) = session.process(&request, vec![], now(), &verifier.trust_anchors);
    let (session, outcome) = session.respond(vec![]);
    assert_eq!(outcome, Err(Error::State));
    assert_eq!(session.complete(true).terminated(), Some(Terminated::Error));
}

#[test]
fn a_step_out_of_order_ends_the_session() {
    let verifier = MockVerifierSession::new(None);

    let (session, outcome) = DisclosureSession::<String>::new().approve();
    assert_eq!(outcome, Err(Error::State));
    assert_eq!(session.terminated(), Some(Terminated::Error));

    let (session, outcome) = DisclosureSession::<String>::new().cancel();
    assert_eq!(outcome.err(), Some(Error::State));
    assert_eq!(session.terminated(), Some(Terminated::Error));

    let (session, request) = session_at_request(&verifier);
    let (session, outcome) = session.start(
        SessionType::SameDevice,
        &verifier.reader_engagement,
        RETURN_URL.to_string(),
        Handover::QRHandover,
    );
    assert_eq!(outcome, Err(Error::State));
    let (session, outcome) = session.process(&request, vec![], now(), &verifier.trust_anchors);
    assert_eq!(outcome, Err(Error::State));
    assert_eq!(session.complete(true).terminated(), Some(Terminated::Error));

    let (session, request) = session_at_request(&verifier);
    let (session, _) = session.process(&request, vec![], now(), &verifier.trust_anchors);
    let (session, message) = session.cancel();
    assert_eq!(message.unwrap().status, Some(SessionStatus::Termination));
    assert_eq!(session.terminated(), Some(Terminated::Cancelled));
}

#[test]
fn the_answer_of_the_signer_decides_the_response() {
    let verifier = MockVerifierSession::new(None);
    let source = MockMdocDataSource::default();
    let signing = || matched(&verifier, &source).unwrap().approve().unwrap();
    let key_id = signing().proposed_documents[0].private_key_id.clone();

    // An error of the signer comes back as it is.
    assert_eq!(
        signing().answer(Err("signer failed")).err().unwrap(),
        ResponseError::Sign(SignError::Signing("signer failed"))
    );
    // A document without a signature names its key.
    assert_eq!(
        signing()
            .answer::<()>(Ok(vec![("another key".to_string(), vec![1, 2, 3])]))
            .err()
            .unwrap(),
        ResponseError::Sign(SignError::KeyNotFound(key_id.clone()))
    );

    // With its signature the document is disclosed.
    let (session, _) = start(&verifier);
    let device_key = verifier.session_key(&session.device_engagement, SessionKeyUser::Device);
    let request = verifier.device_request(&session.device_engagement);
    let signing = session
        .process(&request, stored(&source, &request), now(), &verifier.trust_anchors)
        .unwrap()
        .approve()
        .unwrap();
    let (responded, response) = signing.answer::<()>(Ok(vec![(key_id, vec![1, 2, 3])])).unwrap();
    assert!(response.status.is_none());
    let plaintext = response.decrypt(&device_key).unwrap();
    assert_eq!(response.data.as_ref().unwrap().len(), plaintext.len() + 16);
    let decoded: Value = ciborium::de::from_reader(plaintext.as_slice()).unwrap();
    let documents = field(&decoded, "documents").as_array().unwrap();
    assert_eq!(documents.len(), 1);
    let signature = field(field(field(&documents[0], "deviceSigned"), "deviceAuth"), "deviceSignature");
    assert_eq!(signature.as_array().unwrap()[3], Value::Bytes(vec![1, 2, 3]));
    assert_eq!(responded.complete(true), Terminated::Success);
}
