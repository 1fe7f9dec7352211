use wallet_mdoc::crypto::SecretKey;
use p256::pkcs8::der;
use p256::pkcs8::der::Encode;
use wallet_mdoc::x509::{
    encode_der_utf8, push_der_length, Certificate, CertificateError, CertificateType, CertificateUsage, Generator,
    IssuerRegistration, ReaderRegistration, TimeGenerator, DER_OVERFLOW, EXTENDED_KEY_USAGE_MDL,
    EXTENDED_KEY_USAGE_READER_AUTH,
};

fn issuer_registration_mock() -> IssuerRegistration {
    IssuerRegistration {
        json: r#"{"organization":{"displayName":{"nl":"Mijn Organisatie","en":"My Organization"},"legalName":{"nl":"Organisatie","en":"Organization"}}}"#.to_string(),
    }
}

fn reader_registration_mock() -> ReaderRegistration {
    ReaderRegistration {
        json: r#"{"id":"some-service-id","name":{"nl":"Naam","en":"Name"},"purposeStatement":{"en":"Purpose"},"attributes":{"org.iso.18013.5.1.mDL":{"org.iso.18013.5.1":{"family_name":{}}}}}"#
            .to_string(),
    }
}

#[test]
fn mdoc_eku_encoding_works() {
    CertificateUsage::Mdl.to_eku();
    CertificateUsage::ReaderAuth.to_eku();
}

#[test]
fn generate_and_verify_cert() {
    let (ca, ca_privkey) = Certificate::new_ca("myca").unwrap();
    let ca_trustanchor = ca.clone();

    let (cert, _) = Certificate::new(
        &ca,
        &ca_privkey,
        "mycert",
        CertificateType::Mdl(Box::new(issuer_registration_mock()).into()),
    )
    .unwrap();

    cert.verify(CertificateUsage::Mdl, &vec![], &TimeGenerator, &vec![ca_trustanchor])
        .unwrap();
}

#[test]
fn generate_and_verify_cert_reader_auth() {
    let (ca, ca_privkey) = Certificate::new_ca("myca").unwrap();
    let ca_trustanchor = ca.clone();

    let reader_auth = CertificateType::ReaderAuth(Box::new(reader_registration_mock()).into());

    let (cert, _) = Certificate::new(&ca, &ca_privkey, "mycert", reader_auth.clone()).unwrap();

    cert.verify(CertificateUsage::ReaderAuth, &vec![], &TimeGenerator, &vec![ca_trustanchor])
        .unwrap();

    // The parsed CertificateType equals the ReaderAuth usage that the certificate was generated with
    let cert_usage = CertificateType::from_certificate(&cert).unwrap();
    assert_eq!(cert_usage, reader_auth);
}

#[test]
fn parse_oid() {
    let mdl_kp: p256::pkcs8::ObjectIdentifier = "1.0.18013.5.1.2".parse().unwrap();
    assert_eq!(mdl_kp.as_bytes(), CertificateUsage::Mdl.to_eku());
    let reader_kp: p256::pkcs8::ObjectIdentifier = "1.0.18013.5.1.6".parse().unwrap();
    assert_eq!(reader_kp.as_bytes(), CertificateUsage::ReaderAuth.to_eku());
    assert_eq!(CertificateUsage::Mdl.to_eku(), EXTENDED_KEY_USAGE_MDL);
    assert_eq!(CertificateUsage::ReaderAuth.to_eku(), EXTENDED_KEY_USAGE_READER_AUTH);
}

#[test]
fn certificate_type_round_trips_without_registration() {
    let (ca, ca_privkey) = Certificate::new_ca("myca").unwrap();
    for certificate_type in [CertificateType::Mdl(None), CertificateType::ReaderAuth(None)] {
        let (cert, _) = Certificate::new(&ca, &ca_privkey, "mycert", certificate_type.clone()).unwrap();
        assert_eq!(CertificateType::from_certificate(&cert).unwrap(), certificate_type);
        assert_eq!(CertificateUsage::from_certificate(&cert).unwrap(), certificate_type.usage());
    }
    let with_issuer = CertificateType::Mdl(Some(Box::new(issuer_registration_mock())));
    let (cert, _) = Certificate::new(&ca, &ca_privkey, "mycert", with_issuer.clone()).unwrap();
    assert_eq!(CertificateType::from_certificate(&cert).unwrap(), with_issuer);
    assert_eq!(ReaderRegistration::from_certificate(&cert).unwrap(), None);
    assert_eq!(
        IssuerRegistration::from_certificate(&cert).unwrap(),
        Some(issuer_registration_mock())
    );
}

#[test]
fn verification_fails_on_usage_time_and_anchor() {
    let (ca, ca_privkey) = Certificate::new_ca("myca").unwrap();
    let (other_ca, _) = Certificate::new_ca("otherca").unwrap();
    let (cert, _) = Certificate::new(&ca, &ca_privkey, "mycert", CertificateType::Mdl(None)).unwrap();
    let now = std::time::SystemTime::now()
        .duration_since(std::time::UNIX_EPOCH)
        .unwrap()
        .as_secs();

    cert.verify_at(CertificateUsage::Mdl, &vec![], now, &vec![other_ca.clone(), ca.clone()])
        .unwrap();
    assert!(matches!(
        cert.verify_at(CertificateUsage::ReaderAuth, &vec![], now, &vec![ca.clone()]),
        Err(CertificateError::Verification(_))
    ));
    assert!(matches!(
        cert.verify_at(CertificateUsage::Mdl, &vec![], now, &vec![other_ca]),
        Err(CertificateError::Verification(_))
    ));
    assert!(matches!(
        cert.verify_at(CertificateUsage::Mdl, &vec![], now, &vec![]),
        Err(CertificateError::Verification(_))
    ));
    assert!(matches!(
        cert.verify_at(CertificateUsage::Mdl, &vec![], 0, &vec![ca.clone()]),
        Err(CertificateError::Verification(_))
    ));
    assert!(matches!(
        cert.verify_at(
            CertificateUsage::Mdl,
            &vec![],
            now,
            &vec![Certificate::from_der(vec![1, 2, 3])]
        ),
        Err(CertificateError::ValidationParsing(_))
    ));
    assert!(matches!(
        Certificate::from_der(vec![]).verify_at(CertificateUsage::Mdl, &vec![], now, &vec![ca]),
        Err(CertificateError::ValidationParsing(_))
    ));
}

#[test]
fn usage_from_key_usage() {
    let mdl = EXTENDED_KEY_USAGE_MDL.to_vec();
    let reader_auth = EXTENDED_KEY_USAGE_READER_AUTH.to_vec();
    assert_eq!(CertificateUsage::from_key_usage(&vec![mdl.clone()]), Ok(CertificateUsage::Mdl));
    assert_eq!(
        CertificateUsage::from_key_usage(&vec![reader_auth.clone()]),
        Ok(CertificateUsage::ReaderAuth)
    );
    assert_eq!(
        CertificateUsage::from_key_usage(&vec![]),
        Err(CertificateError::IncorrectEkuCount(0))
    );
    assert_eq!(
        CertificateUsage::from_key_usage(&vec![mdl.clone(), reader_auth]),
        Err(CertificateError::IncorrectEkuCount(2))
    );
    assert_eq!(
        CertificateUsage::from_key_usage(&vec![mdl.clone(), mdl]),
        Err(CertificateError::IncorrectEkuCount(2))
    );
    // OID 1.0.18013.5.1.7
    assert_eq!(
        CertificateUsage::from_key_usage(&vec![vec![40, 129, 140, 93, 5, 1, 7]]),
        Err(CertificateError::IncorrectEku("1.0.18013.5.1.7".to_string()))
    );
    assert_eq!(
        CertificateUsage::from_key_usage(&vec![vec![40, 129, 140, 93, 5, 1]]),
        Err(CertificateError::IncorrectEku("1.0.18013.5.1".to_string()))
    );
}

fn certificate_with_extensions(extensions: Vec<rcgen::CustomExtension>) -> Certificate {
    let mut params = rcgen::CertificateParams::new(vec![]);
    params.custom_extensions = extensions;
    Certificate::from_der(rcgen::Certificate::from_params(params).unwrap().serialize_der().unwrap())
}

fn key_usage_extension(oids: &[&[u8]]) -> rcgen::CustomExtension {
    let mut content = vec![0x30, oids.iter().map(|oid| oid.len() as u8 + 2).sum()];
    for oid in oids {
        content.push(0x06);
        content.push(oid.len() as u8);
        content.extend_from_slice(oid);
    }
    rcgen::CustomExtension::from_oid_content(&[2, 5, 29, 37], content)
}

#[test]
fn certificates_with_another_count_of_usages_are_refused() {
    let none = certificate_with_extensions(vec![]);
    assert_eq!(
        CertificateType::from_certificate(&none),
        Err(CertificateError::IncorrectEkuCount(0))
    );
    assert_eq!(
        CertificateUsage::from_certificate(&none),
        Err(CertificateError::IncorrectEkuCount(0))
    );

    // Server authentication is one of the common usages, and does not count.
    let common = certificate_with_extensions(vec![key_usage_extension(&[&[43, 6, 1, 5, 5, 7, 3, 1]])]);
    assert_eq!(
        CertificateType::from_certificate(&common),
        Err(CertificateError::IncorrectEkuCount(0))
    );

    let two = certificate_with_extensions(vec![key_usage_extension(&[
        &EXTENDED_KEY_USAGE_MDL,
        &EXTENDED_KEY_USAGE_READER_AUTH,
    ])]);
    assert_eq!(
        CertificateType::from_certificate(&two),
        Err(CertificateError::IncorrectEkuCount(2))
    );

    let one = certificate_with_extensions(vec![key_usage_extension(&[
        &[43, 6, 1, 5, 5, 7, 3, 1],
        &EXTENDED_KEY_USAGE_READER_AUTH,
    ])]);
    assert_eq!(
        CertificateType::from_certificate(&one),
        Ok(CertificateType::ReaderAuth(None))
    );
}

#[test]
fn certificates_with_an_unknown_usage_are_refused() {
    let unknown = certificate_with_extensions(vec![key_usage_extension(&[&[40, 129, 140, 93, 5, 1, 3]])]);
    assert_eq!(
        CertificateType::from_certificate(&unknown),
        Err(CertificateError::IncorrectEku("1.0.18013.5.1.3".to_string()))
    );
}

#[test]
fn malformed_registrations_are_refused() {
    let usage = || key_usage_extension(&[&EXTENDED_KEY_USAGE_READER_AUTH]);
    let no_string = certificate_with_extensions(vec![
        usage(),
        rcgen::CustomExtension::from_oid_content(&[2, 1, 123, 1], vec![0x04, 0x01, 0x00]),
    ]);
    assert!(matches!(
        CertificateType::from_certificate(&no_string),
        Err(CertificateError::DerEncodingError(_))
    ));
    let no_json = certificate_with_extensions(vec![
        usage(),
        rcgen::CustomExtension::from_oid_content(&[2, 1, 123, 1], vec![0x0c, 0x02, b'{', b'x']),
    ]);
    assert!(matches!(
        CertificateType::from_certificate(&no_json),
        Err(CertificateError::JsonEncodingError(_))
    ));
    let json = certificate_with_extensions(vec![
        usage(),
        rcgen::CustomExtension::from_oid_content(&[2, 1, 123, 1], vec![0x0c, 0x02, b'{', b'}']),
    ]);
    assert_eq!(
        CertificateType::from_certificate(&json),
        Ok(CertificateType::ReaderAuth(Some(Box::new(ReaderRegistration {
            json: "{}".to_string()
        }))))
    );
    // The registration of an issuer is not read from a certificate of a reader.
    let other = certificate_with_extensions(vec![
        usage(),
        rcgen::CustomExtension::from_oid_content(&[2, 1, 123, 2], vec![0x0c, 0x02, b'{', b'x']),
    ]);
    assert_eq!(
        CertificateType::from_certificate(&other),
        Ok(CertificateType::ReaderAuth(None))
    );
    assert!(matches!(
        CertificateType::from_certificate(&Certificate::from_der(vec![0x30, 0x00])),
        Err(CertificateError::ContentParsing(_))
    ));
}

#[test]
fn custom_extensions_of_a_certificate_type() {
    let usage = CertificateUsage::Mdl.to_custom_ext();
    assert_eq!(usage.oid, [2, 5, 29, 37]);
    assert!(usage.critical);
    assert_eq!(usage.content, [0x30, 0x09, 0x06, 0x07, 40, 129, 140, 93, 5, 1, 2]);
    assert_eq!(
        CertificateUsage::ReaderAuth.to_custom_ext().content,
        [0x30, 0x09, 0x06, 0x07, 40, 129, 140, 93, 5, 1, 6]
    );

    let extensions = CertificateType::ReaderAuth(Some(Box::new(ReaderRegistration {
        json: "{}".to_string(),
    })))
    .to_custom_exts()
    .unwrap();
    assert_eq!(extensions.len(), 2);
    assert_eq!(extensions[0], CertificateUsage::ReaderAuth.to_custom_ext());
    assert_eq!(extensions[1].oid, [2, 1, 123, 1]);
    assert!(!extensions[1].critical);
    assert_eq!(extensions[1].content, [0x0c, 0x02, b'{', b'}']);

    let extensions = CertificateType::Mdl(Some(Box::new(issuer_registration_mock())))
        .to_custom_exts()
        .unwrap();
    assert_eq!(extensions[0], CertificateUsage::Mdl.to_custom_ext());
    assert_eq!(extensions[1].oid, [2, 1, 123, 2]);
    assert_eq!(CertificateType::Mdl(None).to_custom_exts().unwrap().len(), 1);
}

#[test]
fn registrations_as_der_strings() {
    for length in [0usize, 1, 125, 126, 253, 254, 300, 65533, 65534, 70000] {
        // A JSON text of the given number of bytes, some of them of more than one.
        let json = format!("\"{}\"", "é".repeat(length / 2));
        let json = if json.len() < length + 2 { format!(" {json}") } else { json };
        let content = IssuerRegistration { json: json.clone() }.to_custom_ext().unwrap().content;
        let bytes = json.as_bytes();
        let mut expected = vec![0x0c];
        match bytes.len() {
            len if len < 0x80 => expected.push(len as u8),
            len if len < 0x100 => expected.extend([0x81, len as u8]),
            len if len < 0x1_0000 => expected.extend([0x82, (len >> 8) as u8, len as u8]),
            len => expected.extend([0x83, (len >> 16) as u8, (len >> 8) as u8, len as u8]),
        }
        expected.extend_from_slice(bytes);
        assert_eq!(content, expected);
    }
}

#[test]
fn certificates_from_pem() {
    let (ca, _) = Certificate::new_ca("myca").unwrap();
    let pem = pem_of("CERTIFICATE", ca.as_bytes());
    assert_eq!(Certificate::from_pem(&pem).unwrap(), ca);
    assert_eq!(Certificate::from_pem(&pem).unwrap().into_bytes(), ca.as_bytes());

    let key = pem_of("PRIVATE KEY", &[1, 2, 3]);
    assert_eq!(
        Certificate::from_pem(&key),
        Err(CertificateError::UnexpectedPemHeader {
            found: "PRIVATE KEY".to_string(),
            expected: "CERTIFICATE".to_string()
        })
    );
    assert!(matches!(Certificate::from_pem("no pem"), Err(CertificateError::Pem(_))));
    assert!(matches!(Certificate::from_pem(""), Err(CertificateError::Pem(_))));
}

fn pem_of(label: &str, der: &[u8]) -> String {
    const ALPHABET: &[u8; 64] = b"ABCDEFGHIJKLMNOPQRSTUVWXYZabcdefghijklmnopqrstuvwxyz0123456789+/";
    let mut body = String::new();
    for chunk in der.chunks(3) {
        let bits = (chunk[0] as u32) << 16
            | (*chunk.get(1).unwrap_or(&0) as u32) << 8
            | *chunk.get(2).unwrap_or(&0) as u32;
        for i in 0..4 {
            if i <= chunk.len() {
                body.push(ALPHABET[(bits >> (18 - 6 * i) & 63) as usize] as char);
            } else {
                body.push('=');
            }
        }
    }
    let lines: Vec<&str> = body
        .as_bytes()
        .chunks(64)
        .map(|line| std::str::from_utf8(line).unwrap())
        .collect();
    format!("-----BEGIN {label}-----\n{}\n-----END {label}-----\n", lines.join("\n"))
}

#[test]
fn subject_and_public_key_of_a_certificate() {
    let (ca, ca_privkey) = Certificate::new_ca("myca").unwrap();
    let subject = ca.subject().unwrap();
    assert_eq!(subject.len(), 1);
    assert_eq!(subject.get_index(0).unwrap(), (&"CN".to_string(), &"myca".to_string()));
    assert_eq!(ca.public_key().unwrap(), ca_privkey.public_key());

    let (cert, privkey) = Certificate::new(&ca, &ca_privkey, "mycert", CertificateType::Mdl(None)).unwrap();
    assert_eq!(cert.subject().unwrap().get("CN").unwrap(), "mycert");
    assert_eq!(cert.public_key().unwrap(), privkey.public_key());
    assert_ne!(cert.public_key().unwrap(), SecretKey::random().public_key());

    assert!(matches!(
        Certificate::from_der(vec![7]).subject(),
        Err(CertificateError::ContentParsing(_))
    ));
    assert!(matches!(
        Certificate::from_der(vec![7]).public_key(),
        Err(CertificateError::ContentParsing(_))
    ));
}

#[test]
fn a_generated_certificate_holds_its_key_and_its_type() {
    let (ca, ca_privkey) = Certificate::new_ca("myca").unwrap();
    assert!(ca.has_key(&ca_privkey));
    assert_eq!(ca.public_key().unwrap(), ca_privkey.public_key());

    let reader_auth = CertificateType::ReaderAuth(Box::new(reader_registration_mock()).into());
    let (cert, privkey) = Certificate::new(&ca, &ca_privkey, "mycert", reader_auth.clone()).unwrap();
    assert!(cert.has_key(&privkey));
    assert!(!cert.has_key(&ca_privkey));
    assert!(!Certificate::from_der(vec![1, 2, 3]).has_key(&privkey));
    assert!(CertificateType::from_certificate(&cert).unwrap().same_as(&reader_auth));

    let mdl = CertificateType::Mdl(Box::new(issuer_registration_mock()).into());
    let (cert, privkey) = Certificate::new(&ca, &ca_privkey, "mycert", mdl.clone()).unwrap();
    assert!(cert.has_key(&privkey));
    assert_eq!(CertificateType::from_certificate(&cert).unwrap(), mdl);
}

#[test]
fn types_of_certificates_are_compared_by_usage_and_registration() {
    let reader = |json: &str| CertificateType::ReaderAuth(Some(Box::new(ReaderRegistration { json: json.to_string() })));
    let issuer = |json: &str| CertificateType::Mdl(Some(Box::new(IssuerRegistration { json: json.to_string() })));
    assert!(reader("{}").same_as(&reader("{}")));
    assert!(issuer("{}").same_as(&issuer("{}")));
    assert!(CertificateType::Mdl(None).same_as(&CertificateType::Mdl(None)));
    assert!(CertificateType::ReaderAuth(None).same_as(&CertificateType::ReaderAuth(None)));
    assert!(!reader("{}").same_as(&reader("[]")));
    assert!(!issuer("{}").same_as(&issuer("[]")));
    assert!(!reader("{}").same_as(&issuer("{}")));
    assert!(!reader("{}").same_as(&CertificateType::ReaderAuth(None)));
    assert!(!CertificateType::Mdl(None).same_as(&issuer("{}")));
    assert!(!CertificateType::Mdl(None).same_as(&CertificateType::ReaderAuth(None)));
}

#[test]
fn der_strings_are_those_of_the_der_crate() {
    for length in [0usize, 1, 127, 128, 255, 256, 65535, 65536, 0xff_ffff, 0x100_0000] {
        let text = "a".repeat(length);
        let reference = der::asn1::Utf8StringRef::new(&text).unwrap().to_der().unwrap();
        assert_eq!(encode_der_utf8(&text).unwrap(), reference);
    }
    let text = "é€😀";
    assert_eq!(
        encode_der_utf8(text).unwrap(),
        [0x0c, 9, 0xc3, 0xa9, 0xe2, 0x82, 0xac, 0xf0, 0x9f, 0x98, 0x80]
    );
    assert_eq!(
        encode_der_utf8(text).unwrap(),
        der::asn1::Utf8StringRef::new(text).unwrap().to_der().unwrap()
    );

    let mut out = vec![7];
    push_der_length(&mut out, 0x0fff_ffff);
    assert_eq!(out, [7, 0x84, 0x0f, 0xff, 0xff, 0xff]);
}

#[test]
fn a_text_beyond_the_limit_is_no_der_string() {
    // With its tag and the five bytes of its length the string is one byte too long.
    let text = "a".repeat(0x0fff_ffff - 5);
    assert_eq!(encode_der_utf8(&text), Err(DER_OVERFLOW.to_string()));
    assert!(der::asn1::Utf8StringRef::new(&text).unwrap().to_der().is_err());
    assert!(matches!(
        IssuerRegistration { json: text }.to_custom_ext(),
        Err(CertificateError::DerEncodingError(_))
    ));
}

#[test]
fn the_system_clock_gives_the_seconds_since_1970() {
    let before = std::time::SystemTime::now()
        .duration_since(std::time::UNIX_EPOCH)
        .unwrap()
        .as_secs();
    let generated = TimeGenerator.generate();
    assert!(before <= generated && generated <= before + 5);
    // After the first of January 2024.
    assert!(generated > 1_704_067_200);
}

#[test]
fn what_a_generator_returned_is_accepted_or_refused() {
    let pkcs8_of = |key: &SecretKey| {
        p256::pkcs8::EncodePrivateKey::to_pkcs8_der(&p256::SecretKey::from_slice(&key.to_bytes()).unwrap())
            .unwrap()
            .as_bytes()
            .to_vec()
    };
    let (ca, ca_privkey) = Certificate::new_ca("myca").unwrap();
    let reader_auth = CertificateType::ReaderAuth(Box::new(reader_registration_mock()).into());
    let (cert, privkey) = Certificate::new(&ca, &ca_privkey, "mycert", reader_auth.clone()).unwrap();
    let der = || cert.as_bytes().to_vec();

    // The certificate with its key and its type is accepted as it is.
    let (accepted, key) = Certificate::from_generated(der(), &pkcs8_of(&privkey), &reader_auth).unwrap();
    assert_eq!(accepted, cert);
    assert_eq!(key.to_bytes(), privkey.to_bytes());
    let (accepted, key) = Certificate::from_generated_ca(der(), &pkcs8_of(&privkey)).unwrap();
    assert_eq!(accepted, cert);
    assert_eq!(key.to_bytes(), privkey.to_bytes());
    let (accepted, key) = Certificate::from_generated_ca(ca.as_bytes().to_vec(), &pkcs8_of(&ca_privkey)).unwrap();
    assert_eq!(accepted, ca);
    assert_eq!(key.to_bytes(), ca_privkey.to_bytes());

    // What is no key in PKCS#8 is an error of the key.
    assert!(matches!(
        Certificate::from_generated(der(), &privkey.to_bytes(), &reader_auth),
        Err(CertificateError::GeneratingPrivateKey(_))
    ));
    assert!(matches!(
        Certificate::from_generated_ca(der(), &[]),
        Err(CertificateError::GeneratingPrivateKey(_))
    ));
    // Another key, no certificate, another type: the generation has failed.
    assert!(matches!(
        Certificate::from_generated(der(), &pkcs8_of(&ca_privkey), &reader_auth),
        Err(CertificateError::GeneratingFailed(_))
    ));
    assert!(matches!(
        Certificate::from_generated_ca(der(), &pkcs8_of(&ca_privkey)),
        Err(CertificateError::GeneratingFailed(_))
    ));
    assert!(matches!(
        Certificate::from_generated_ca(vec![1, 2, 3], &pkcs8_of(&privkey)),
        Err(CertificateError::GeneratingFailed(_))
    ));
    for other in [
        CertificateType::ReaderAuth(None),
        CertificateType::Mdl(None),
        CertificateType::Mdl(Box::new(issuer_registration_mock()).into()),
    ] {
        assert!(matches!(
            Certificate::from_generated(der(), &pkcs8_of(&privkey), &other),
            Err(CertificateError::GeneratingFailed(_))
        ));
    }
    // A certificate of an authority carries no usage.
    assert!(matches!(
        Certificate::from_generated(ca.as_bytes().to_vec(), &pkcs8_of(&ca_privkey), &CertificateType::Mdl(None)),
        Err(CertificateError::GeneratingFailed(_))
    ));
}

struct FixedTime(u64);

impl Generator<u64> for FixedTime {
    fn generate(&self) -> u64 {
        self.0
    }
}

#[test]
fn verification_at_the_time_that_the_generator_gives() {
    let (ca, ca_privkey) = Certificate::new_ca("myca").unwrap();
    let (cert, _) = Certificate::new(&ca, &ca_privkey, "mycert", CertificateType::Mdl(None)).unwrap();
    let now = TimeGenerator.generate();
    let anchors = vec![ca];
    assert_eq!(cert.verify(CertificateUsage::Mdl, &vec![], &FixedTime(now), &anchors), Ok(()));
    assert_eq!(
        cert.verify(CertificateUsage::Mdl, &vec![], &FixedTime(now), &anchors),
        cert.verify_at(CertificateUsage::Mdl, &vec![], now, &anchors)
    );
    // In 1970 the certificate was not valid yet.
    assert!(matches!(
        cert.verify(CertificateUsage::Mdl, &vec![], &FixedTime(0), &anchors),
        Err(CertificateError::Verification(_))
    ));
    assert!(matches!(
        cert.verify(CertificateUsage::ReaderAuth, &vec![], &FixedTime(now), &anchors),
        Err(CertificateError::Verification(_))
    ));
    assert!(matches!(
        Certificate::from_der(vec![]).verify(CertificateUsage::Mdl, &vec![], &FixedTime(now), &anchors),
        Err(CertificateError::ValidationParsing(_))
    ));
}
