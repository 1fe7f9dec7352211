use wallet_mdoc::bytes::{same_bytes, slice_to_vec, to_vec};
use wallet_mdoc::cose::{detached_envelope, protected_header};
use wallet_mdoc::crypto::{coordinates_of, CryptoError};
use wallet_mdoc::device_retrieval::{clone_requested_attributes, clone_requested_name_spaces};
use wallet_mdoc::mdocs::{clone_entries, clone_name_spaces, StoredMdoc};
use wallet_mdoc::proposed_document::{ProposedDocument, SignError};
use wallet_mdoc::session::take_list;
use wallet_mdoc::test_utils::{
    create_example_mdoc, create_example_proposed_document, example_items_request, EXAMPLE_DOC_TYPE,
    EXAMPLE_KEY_IDENTIFIER, EXAMPLE_KEY_X, EXAMPLE_KEY_Y, EXAMPLE_NAMESPACE,
};
use wallet_mdoc::x509::{
    Certificate, CertificateError, CertificateType, IssuerRegistration, OID_EXT_ISSUER_AUTH_DER,
    OID_EXT_READER_AUTH_DER,
};

#[test]
fn copies_and_comparisons_of_bytes() {
    assert_eq!(to_vec(&[1, 2, 3]), [1, 2, 3]);
    assert_eq!(to_vec(&[]), [0u8; 0]);
    assert_eq!(slice_to_vec(&[1, 2, 3, 4], 1, 3), [2, 3]);
    assert_eq!(slice_to_vec(&[1, 2, 3, 4], 2, 2), [0u8; 0]);
    assert_eq!(slice_to_vec(&[1, 2, 3, 4], 0, 4), [1, 2, 3, 4]);
    assert!(same_bytes(&[], &[]));
    assert!(same_bytes(&[1, 2], &[1, 2]));
    assert!(!same_bytes(&[1, 2], &[1, 3]));
    assert!(!same_bytes(&[1, 2], &[1]));
    assert!(!same_bytes(&[], &[0]));
}

#[test]
fn envelope_of_a_signature() {
    assert_eq!(protected_header(), [0xa1, 0x01, 0x26]);
    assert_eq!(
        detached_envelope(&protected_header(), &[9, 9]),
        [0x84, 0x43, 0xa1, 0x01, 0x26, 0xa0, 0xf6, 0x42, 9, 9]
    );
    assert_eq!(detached_envelope(&[], &[]), [0x84, 0x40, 0xa0, 0xf6, 0x40]);
}

#[test]
fn coordinates_of_a_cose_key() {
    let mut key = create_example_mdoc().issuer_signed.issuer_auth.device_key;
    assert_eq!(coordinates_of(&key), Ok((EXAMPLE_KEY_X.to_vec(), EXAMPLE_KEY_Y.to_vec())));
    // Coordinates of a point off the curve are coordinates still.
    key.params[1].1 = wallet_mdoc::cose::ParamValue::Bytes(vec![0; 32]);
    assert_eq!(coordinates_of(&key), Ok((vec![0; 32], EXAMPLE_KEY_Y.to_vec())));
    key.params.pop();
    assert_eq!(coordinates_of(&key), Err(CryptoError::KeyMissingCoordinate));
}

#[test]
fn copies_of_ordered_maps() {
    let mdoc = create_example_mdoc();
    let name_spaces = mdoc.issuer_signed.name_spaces.as_ref().unwrap();
    assert_eq!(&clone_name_spaces(name_spaces), name_spaces);
    assert_eq!(clone_entries(&name_spaces[EXAMPLE_NAMESPACE]), name_spaces[EXAMPLE_NAMESPACE]);
    assert!(clone_entries(&vec![]).is_empty());

    let request = example_items_request();
    assert_eq!(clone_requested_name_spaces(&request.name_spaces), request.name_spaces);
    assert_eq!(
        clone_requested_attributes(&request.name_spaces[EXAMPLE_NAMESPACE]),
        request.name_spaces[EXAMPLE_NAMESPACE]
    );
    assert_eq!(request.clone(), request);
}

#[test]
fn the_outcome_of_a_batch_decides_the_documents() {
    let proposed = || vec![create_example_proposed_document()];
    assert_eq!(
        ProposedDocument::into_documents(proposed(), Err("failed")),
        Err(SignError::Signing("failed"))
    );
    let documents = ProposedDocument::into_documents::<()>(
        proposed(),
        Ok(vec![(EXAMPLE_KEY_IDENTIFIER.to_string(), vec![7])]),
    )
    .unwrap();
    assert_eq!(documents.len(), 1);
    assert_eq!(documents[0].doc_type, EXAMPLE_DOC_TYPE);
    assert_eq!(
        ProposedDocument::into_documents::<()>(proposed(), Ok(vec![])),
        Err(SignError::KeyNotFound(EXAMPLE_KEY_IDENTIFIER.to_string()))
    );
}

#[test]
fn a_list_is_taken_once() {
    let mut other = create_example_mdoc();
    other.doc_type = "other".to_string();
    let list = |id: u8, mdoc: &wallet_mdoc::mdocs::Mdoc| {
        vec![StoredMdoc {
            id,
            mdoc: mdoc.clone(),
        }]
    };
    let mut stored = vec![
        list(1, &other),
        vec![],
        list(2, &create_example_mdoc()),
        list(3, &create_example_mdoc()),
    ];
    let taken = take_list(&mut stored, &EXAMPLE_DOC_TYPE.to_string());
    assert_eq!(taken[0].id, 2);
    assert_eq!(stored.len(), 3);
    let taken = take_list(&mut stored, &EXAMPLE_DOC_TYPE.to_string());
    assert_eq!(taken[0].id, 3);
    assert!(take_list(&mut stored, &EXAMPLE_DOC_TYPE.to_string()).is_empty());
    assert_eq!(stored.len(), 2);
    assert_eq!(take_list(&mut stored, &"other".to_string())[0].id, 1);
    assert_eq!(stored, [vec![]]);
}

#[test]
fn the_text_of_a_custom_extension() {
    let (ca, ca_key) = Certificate::new_ca("ca").unwrap();
    let registration = IssuerRegistration {
        json: r#"{"name":{"en":"Issuer"}}"#.to_string(),
    };
    let (cert, _) = Certificate::new(
        &ca,
        &ca_key,
        "issuer",
        CertificateType::Mdl(Some(Box::new(registration.clone()))),
    )
    .unwrap();
    assert_eq!(
        cert.extract_custom_ext(&OID_EXT_ISSUER_AUTH_DER),
        Ok(Some(registration.json))
    );
    assert_eq!(cert.extract_custom_ext(&OID_EXT_READER_AUTH_DER), Ok(None));
    assert_eq!(ca.extract_custom_ext(&OID_EXT_ISSUER_AUTH_DER), Ok(None));
    // The extension of the usages holds no text.
    assert!(matches!(
        cert.extract_custom_ext(&[85, 29, 37]),
        Err(CertificateError::DerEncodingError(_))
    ));
    assert!(matches!(
        Certificate::from_der(vec![]).extract_custom_ext(&OID_EXT_ISSUER_AUTH_DER),
        Err(CertificateError::ContentParsing(_))
    ));
}
