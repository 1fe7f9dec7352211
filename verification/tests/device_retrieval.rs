use ciborium::value::Value;
use wallet_mdoc::device_retrieval::{reader_authentication, ItemsRequest};
use wallet_mdoc::engagement::{Engagement, Handover, SessionTranscript, SessionType};
use wallet_mdoc::crypto::SecretKey;
use wallet_mdoc::test_utils::{
    create_example_mdoc, create_example_proposed_document, emtpy_items_request, example_attribute_names,
    example_identifiers_from_attributes, example_items_request, example_mdoc_attribute_identifiers, items_request,
    MdocDataSourceError, MockMdocDataSource, EXAMPLE_ATTRIBUTES, EXAMPLE_DOC_TYPE, EXAMPLE_KEY_IDENTIFIER,
    EXAMPLE_NAMESPACE,
};

fn text(value: &str) -> Value {
    Value::Text(value.to_string())
}

fn decode(bytes: &[u8]) -> Value {
    ciborium::de::from_reader(bytes).unwrap()
}

#[test]
fn example_request_asks_for_the_example_attributes() {
    let request = example_items_request();
    assert_eq!(request.doc_type, EXAMPLE_DOC_TYPE);
    assert_eq!(request.request_info, None);
    assert_eq!(request.name_spaces.len(), 1);
    let (name_space, attributes) = request.name_spaces.get_index(0).unwrap();
    assert_eq!(name_space, EXAMPLE_NAMESPACE);
    let names: Vec<(&str, bool)> = attributes.iter().map(|(name, intent)| (name.as_str(), *intent)).collect();
    assert_eq!(
        names,
        [
            ("family_name", false),
            ("issue_date", false),
            ("expiry_date", false),
            ("document_number", false),
            ("driving_privileges", false)
        ]
    );
    assert_eq!(example_attribute_names(), EXAMPLE_ATTRIBUTES);

    let empty = emtpy_items_request();
    assert_eq!(empty.doc_type, EXAMPLE_DOC_TYPE);
    assert_eq!(empty.name_spaces.len(), 1);
    assert!(empty.name_spaces.get(EXAMPLE_NAMESPACE).unwrap().is_empty());
    assert!(empty.attribute_identifiers().is_empty());
}

#[test]
fn a_request_names_each_attribute_once() {
    let names = |attributes: &[&str]| attributes.iter().map(|name| name.to_string()).collect::<Vec<_>>();
    let request = items_request("doc".to_string(), "ns".to_string(), names(&["b", "a", "b", "c", "a"]));
    let attributes: Vec<&str> = request.name_spaces["ns"].keys().map(|name| name.as_str()).collect();
    assert_eq!(attributes, ["b", "a", "c"]);
    let identifiers: Vec<(String, String, String)> = request.attribute_identifiers().into_iter().collect();
    assert_eq!(
        identifiers,
        [
            ("doc".to_string(), "ns".to_string(), "b".to_string()),
            ("doc".to_string(), "ns".to_string(), "a".to_string()),
            ("doc".to_string(), "ns".to_string(), "c".to_string())
        ]
    );
}

#[test]
fn identifiers_of_a_request_over_name_spaces() {
    let mut request = example_items_request();
    let mut second = indexmap::IndexMap::new();
    second.insert("given_name".to_string(), true);
    second.insert("family_name".to_string(), false);
    request.name_spaces.insert("second".to_string(), second);
    let identifiers: Vec<(String, String)> = request
        .attribute_identifiers()
        .into_iter()
        .map(|identifier| {
            assert_eq!(identifier.0, EXAMPLE_DOC_TYPE);
            (identifier.1, identifier.2)
        })
        .collect();
    assert_eq!(identifiers.len(), 7);
    assert_eq!(identifiers[0], (EXAMPLE_NAMESPACE.to_string(), "family_name".to_string()));
    assert_eq!(identifiers[5], ("second".to_string(), "given_name".to_string()));
    assert_eq!(identifiers[6], ("second".to_string(), "family_name".to_string()));
}

#[test]
fn a_request_on_the_wire() {
    let mut request = example_items_request();
    request.name_spaces[EXAMPLE_NAMESPACE]["issue_date"] = true;
    let attributes = EXAMPLE_ATTRIBUTES
        .iter()
        .map(|name| (text(name), Value::Bool(*name == "issue_date")))
        .collect();
    assert_eq!(
        decode(&request.to_cbor()),
        Value::Map(vec![
            (text("docType"), text(EXAMPLE_DOC_TYPE)),
            (
                text("nameSpaces"),
                Value::Map(vec![(text(EXAMPLE_NAMESPACE), Value::Map(attributes))])
            ),
        ])
    );

    let with_info = ItemsRequest {
        doc_type: "doc".to_string(),
        name_spaces: indexmap::IndexMap::new(),
        request_info: Some(vec![0xa1, 0x61, b'k', 0x01]),
    };
    assert_eq!(
        decode(&with_info.to_cbor()),
        Value::Map(vec![
            (text("docType"), text("doc")),
            (text("nameSpaces"), Value::Map(vec![])),
            (
                text("requestInfo"),
                Value::Map(vec![(text("k"), Value::Integer(1.into()))])
            ),
        ])
    );
}

#[test]
fn what_a_reader_signs() {
    let reader = Engagement::with_key("a".to_string(), &SecretKey::random().public_key());
    let device = Engagement::with_key("b".to_string(), &SecretKey::random().public_key());
    let transcript = SessionTranscript::new(SessionType::SameDevice, &reader, &device, Handover::QRHandover);
    let request = example_items_request();
    let payload = reader_authentication(&transcript, &request);
    let inner = match decode(&payload) {
        Value::Tag(24, inner) => inner.into_bytes().unwrap(),
        other => panic!("no encoded item: {other:?}"),
    };
    assert_eq!(
        decode(&inner),
        Value::Array(vec![
            text("ReaderAuthentication"),
            decode(&transcript.to_cbor()),
            Value::Tag(24, Box::new(Value::Bytes(request.to_cbor()))),
        ])
    );
}

#[test]
fn example_credential_and_its_identifiers() {
    let mdoc = create_example_mdoc();
    assert_eq!(mdoc.doc_type, EXAMPLE_DOC_TYPE);
    assert_eq!(mdoc.private_key_id, EXAMPLE_KEY_IDENTIFIER);
    assert_eq!(mdoc.issuer_signed.issuer_auth.cose, [0x84, 0x40, 0xa0, 0xf6, 0x40]);
    let name_spaces = mdoc.issuer_signed.name_spaces.as_ref().unwrap();
    assert_eq!(name_spaces.len(), 1);
    let entries = &name_spaces[EXAMPLE_NAMESPACE];
    let names: Vec<&str> = entries.iter().map(|entry| entry.element_identifier.as_str()).collect();
    assert_eq!(names, EXAMPLE_ATTRIBUTES);
    let digests: Vec<u64> = entries.iter().map(|entry| entry.digest_id).collect();
    assert_eq!(digests, [0, 3, 4, 7, 9]);
    assert_eq!(entries[1].random, [3u8; 16]);
    assert_eq!(decode(&entries[0].element_value), text("Doe"));
    assert_eq!(
        decode(&entries[2].element_value),
        Value::Tag(1004, Box::new(text("2024-10-20")))
    );
    assert_eq!(
        decode(&entries[4].element_value),
        Value::Array(vec![Value::Map(vec![(text("vehicle_category_code"), text("A"))])])
    );
    assert_eq!(mdoc.clone(), mdoc);

    let identifiers: Vec<(String, String, String)> = example_mdoc_attribute_identifiers().into_iter().collect();
    assert_eq!(identifiers.len(), 5);
    for (identifier, name) in identifiers.iter().zip(EXAMPLE_ATTRIBUTES) {
        assert_eq!(identifier.0, EXAMPLE_DOC_TYPE);
        assert_eq!(identifier.1, EXAMPLE_NAMESPACE);
        assert_eq!(identifier.2, name);
    }
    assert_eq!(
        example_mdoc_attribute_identifiers(),
        example_identifiers_from_attributes(example_attribute_names())
    );
    assert_eq!(mdoc.issuer_signed_attribute_identifiers(), example_mdoc_attribute_identifiers());

    let proposed = create_example_proposed_document();
    assert_eq!(proposed.source_identifier, "id_1234");
    assert_eq!(proposed.device_signed_challenge, b"signing_challenge");
    assert_eq!(proposed.issuer_signed, mdoc.issuer_signed);
    assert_eq!(proposed.doc_type, mdoc.doc_type);
    assert_eq!(proposed.private_key_id, mdoc.private_key_id);
}

#[test]
fn identifiers_of_a_credential_count_each_attribute_once() {
    let mut mdoc = create_example_mdoc();
    let name_spaces = mdoc.issuer_signed.name_spaces.as_mut().unwrap();
    let mut copy = name_spaces[EXAMPLE_NAMESPACE][0].clone();
    copy.digest_id = 99;
    name_spaces[EXAMPLE_NAMESPACE].push(copy.clone());
    name_spaces.insert("second".to_string(), vec![copy]);
    let identifiers: Vec<(String, String)> = mdoc
        .issuer_signed_attribute_identifiers()
        .into_iter()
        .map(|identifier| (identifier.1, identifier.2))
        .collect();
    assert_eq!(identifiers.len(), 6);
    assert_eq!(identifiers[5], ("second".to_string(), "family_name".to_string()));

    mdoc.issuer_signed.name_spaces = None;
    assert!(mdoc.issuer_signed_attribute_identifiers().is_empty());
}

#[test]
fn mock_source_gives_the_credentials_of_the_example_document_type() {
    let source = MockMdocDataSource::default();
    assert!(!source.has_error);
    assert_eq!(source.mdocs, [create_example_mdoc()]);

    let found = source
        .mdoc_by_doc_types(&vec!["other".to_string(), EXAMPLE_DOC_TYPE.to_string()])
        .unwrap();
    assert_eq!(found.len(), 1);
    assert_eq!(found[0].len(), 1);
    assert_eq!(found[0][0].id, "id_1");
    assert_eq!(found[0][0].mdoc, create_example_mdoc());

    assert!(source.mdoc_by_doc_types(&vec!["other".to_string()]).unwrap().is_empty());
    assert!(source.mdoc_by_doc_types(&vec![]).unwrap().is_empty());

    let many = MockMdocDataSource {
        mdocs: (0..12).map(|_| create_example_mdoc()).collect(),
        has_error: false,
    };
    let found = many.mdoc_by_doc_types(&vec![EXAMPLE_DOC_TYPE.to_string()]).unwrap();
    let ids: Vec<&str> = found[0].iter().map(|stored| stored.id.as_str()).collect();
    assert_eq!(
        ids,
        ["id_1", "id_2", "id_3", "id_4", "id_5", "id_6", "id_7", "id_8", "id_9", "id_10", "id_11", "id_12"]
    );

    let failing = MockMdocDataSource {
        mdocs: vec![],
        has_error: true,
    };
    assert_eq!(
        failing.mdoc_by_doc_types(&vec![EXAMPLE_DOC_TYPE.to_string()]).err(),
        Some(MdocDataSourceError::Failed)
    );
}

#[test]
fn numbers_in_decimal() {
    for number in [0u64, 1, 9, 10, 11, 99, 100, 101, 1234567890, u64::MAX] {
        assert_eq!(wallet_mdoc::text::decimal(number), number.to_string());
    }
}
