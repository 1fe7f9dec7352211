//! Certificates: reading their usage, their policy metadata, their subject
//! and key; verifying their chain to a trust anchor; generating them.

use crate::crypto::{
    p256_public_key_of, p256_secret_scalar, p256_uncompressed_point, SecretKey, VerifyingKey, POINT_LEN,
    TAG_UNCOMPRESSED,
};
use crate::bytes::same_bytes;
use crate::ordered_map::upsert;
use indexmap::IndexMap;
use p256::pkcs8::der::Decode;
use rcgen::{CertificateParams, DnType, KeyPair};
use p256::pkcs8::{DecodePrivateKey, DecodePublicKey, EncodePrivateKey};
use std::hash::RandomState;
use vstd::prelude::*;
use vstd::utf8::encode_utf8;
use x509_parser::certificate::X509Certificate;
use x509_parser::der_parser::Oid;
use x509_parser::objects::{oid2abbrev, oid_registry};
use x509_parser::prelude::FromDer;
use x509_parser::extensions::X509Extension;
use x509_parser::x509::AttributeTypeAndValue;

verus! {

/// Why a certificate was not read, verified or generated. A text names
/// what the library that failed reported.
#[derive(Debug, PartialEq, Eq)]
pub enum CertificateError {
    /// The chain does not lead to a trust anchor, or the usage or the time
    /// does not fit.
    Verification(String),
    /// A certificate or trust anchor could not be parsed for validation.
    ValidationParsing(String),
    /// The content of the certificate could not be parsed.
    ContentParsing(String),
    /// The private key of a generated certificate could not be read.
    GeneratingPrivateKey(String),
    /// The certificate could not be generated.
    GeneratingFailed(String),
    /// The public key of the certificate is no key on P-256.
    KeyParsingFailed(String),
    /// The certificate names another number of usages than one.
    IncorrectEkuCount(usize),
    /// The certificate names a usage that is not known.
    IncorrectEku(String),
    /// The text is no PEM.
    Pem(String),
    /// The PEM holds something else than a certificate.
    UnexpectedPemHeader { found: String, expected: String },
    /// The metadata is no DER string.
    DerEncodingError(String),
    /// The metadata is no JSON document.
    JsonEncodingError(String),
    /// An extension is malformed or stands twice.
    X509Error(String),
}

/// A [`CertificateError`] without the texts of other libraries.
pub enum CertificateErrorKind {
    Verification,
    ValidationParsing,
    ContentParsing,
    GeneratingPrivateKey,
    GeneratingFailed,
    KeyParsingFailed,
    IncorrectEkuCount(usize),
    IncorrectEku(Seq<char>),
    Pem,
    UnexpectedPemHeader { found: Seq<char>, expected: Seq<char> },
    DerEncodingError,
    JsonEncodingError,
    X509Error,
}

impl CertificateError {
    /// The error without the texts of other libraries.
    pub open spec fn kind(self) -> CertificateErrorKind {
        match self {
            CertificateError::Verification(_) => CertificateErrorKind::Verification,
            CertificateError::ValidationParsing(_) => CertificateErrorKind::ValidationParsing,
            CertificateError::ContentParsing(_) => CertificateErrorKind::ContentParsing,
            CertificateError::GeneratingPrivateKey(_) => CertificateErrorKind::GeneratingPrivateKey,
            CertificateError::GeneratingFailed(_) => CertificateErrorKind::GeneratingFailed,
            CertificateError::KeyParsingFailed(_) => CertificateErrorKind::KeyParsingFailed,
            CertificateError::IncorrectEkuCount(count) => CertificateErrorKind::IncorrectEkuCount(
                count,
            ),
            CertificateError::IncorrectEku(oid) => CertificateErrorKind::IncorrectEku(oid@),
            CertificateError::Pem(_) => CertificateErrorKind::Pem,
            CertificateError::UnexpectedPemHeader { found, expected } => {
                CertificateErrorKind::UnexpectedPemHeader { found: found@, expected: expected@ }
            },
            CertificateError::DerEncodingError(_) => CertificateErrorKind::DerEncodingError,
            CertificateError::JsonEncodingError(_) => CertificateErrorKind::JsonEncodingError,
            CertificateError::X509Error(_) => CertificateErrorKind::X509Error,
        }
    }
}

/// The arcs of the object identifier of the extension "extended key
/// usage".
pub const OID_EXT_KEY_USAGE: [u64; 4] = [2, 5, 29, 37];

/// OID 1.0.18013.5.1.2
pub const EXTENDED_KEY_USAGE_MDL: [u8; 7] = [40, 129, 140, 93, 5, 1, 2];

/// OID 1.0.18013.5.1.6
pub const EXTENDED_KEY_USAGE_READER_AUTH: [u8; 7] = [40, 129, 140, 93, 5, 1, 6];

/// The arcs of the object identifier of the extension that carries the
/// registration of a reader.
pub const OID_EXT_READER_AUTH: [u64; 4] = [2, 1, 123, 1];

/// The arcs of the object identifier of the extension that carries the
/// registration of an issuer.
pub const OID_EXT_ISSUER_AUTH: [u64; 4] = [2, 1, 123, 2];

/// The encoding of the object identifier of the extension that carries
/// the registration of a reader.
pub const OID_EXT_READER_AUTH_DER: [u8; 3] = [81, 123, 1];

/// The encoding of the object identifier of the extension that carries
/// the registration of an issuer.
pub const OID_EXT_ISSUER_AUTH_DER: [u8; 3] = [81, 123, 2];

/// What is reported of a generated certificate with another key than
/// came with it.
pub const KEY_MISMATCH: &'static str = "the certificate does not hold the generated key";

/// What is reported of a generated certificate of another type than was
/// asked for.
pub const TYPE_MISMATCH: &'static str = "the certificate is not of the type asked for";

/// The label of a certificate in PEM.
pub const PEM_CERTIFICATE_HEADER: &'static str = "CERTIFICATE";

/// The path length that a generated certificate authority allows.
pub const CA_PATH_LENGTH: u8 = 0;

/// The tag of a DER sequence.
pub const DER_SEQUENCE: u8 = 0x30;

/// The tag of a DER object identifier.
pub const DER_OBJECT_IDENTIFIER: u8 = 0x06;

/// What a certificate says of its extended key usages.
pub enum KeyUsageReading {
    /// The certificate cannot be parsed.
    Unparsable,
    /// The extension is malformed or stands twice.
    Malformed,
    /// The certificate holds no such extension.
    Absent,
    /// The usages that are none of the common ones, each by the encoding
    /// of its object identifier.
    Present(Seq<Seq<u8>>),
}

/// What a certificate says under the object identifier of an extension.
pub enum ExtensionReading {
    /// The certificate cannot be parsed.
    Unparsable,
    /// The certificate holds no such extension.
    Absent,
    /// The value of the first such extension.
    Present(Seq<u8>),
}

/// How the verification of a chain ends.
pub enum ChainOutcome {
    /// The certificate or a trust anchor cannot be parsed.
    Unparsable,
    /// No valid chain leads to a trust anchor.
    Rejected,
    /// A valid chain leads to a trust anchor.
    Valid,
}

/// How the verification of a certificate ends: for a usage, with
/// intermediate certificates, at a time in seconds since 1970, against
/// the certificates of trusted authorities.
pub open spec fn chain_verification(
    der: Seq<u8>,
    usage: Seq<u8>,
    intermediates: Seq<Seq<u8>>,
    time: u64,
    trust_anchors: Seq<Seq<u8>>,
) -> ChainOutcome {
    if !validation_parses(der, trust_anchors) {
        ChainOutcome::Unparsable
    } else if chain_verifies(der, usage, intermediates, time, trust_anchors) {
        ChainOutcome::Valid
    } else {
        ChainOutcome::Rejected
    }
}

/// Whether a result reports how the verification of a chain ended: an
/// error of the parsing, an error of the verification, or no error.
pub open spec fn reports(outcome: ChainOutcome, verified: Result<(), CertificateError>) -> bool {
    match outcome {
        ChainOutcome::Unparsable => verified matches Err(error) && error is ValidationParsing,
        ChainOutcome::Rejected => verified matches Err(error) && error is Verification,
        ChainOutcome::Valid => verified is Ok,
    }
}

/// The value of the first extension under an object identifier.
pub open spec fn first_extension(extensions: Seq<(Seq<u8>, Seq<u8>)>, oid: Seq<u8>) -> Option<
    Seq<u8>,
>
    decreases extensions.len(),
{
    if extensions.len() == 0 {
        None
    } else if extensions[0].0 == oid {
        Some(extensions[0].1)
    } else {
        first_extension(extensions.drop_first(), oid)
    }
}

/// The extension of a certificate under an object identifier.
pub open spec fn x509_extension(der: Seq<u8>, oid: Seq<u8>) -> ExtensionReading {
    match x509_extensions(der) {
        None => ExtensionReading::Unparsable,
        Some(extensions) => match first_extension(extensions, oid) {
            None => ExtensionReading::Absent,
            Some(value) => ExtensionReading::Present(value),
        },
    }
}

/// The name of an attribute of a subject: its abbreviation, or, where it
/// has none, the dotted text of its object identifier.
pub open spec fn attribute_name(oid: Seq<u8>, abbreviation: Option<Seq<char>>) -> Seq<char> {
    match abbreviation {
        Some(abbreviation) => abbreviation,
        None => oid_id_string(oid),
    }
}

/// The subject of a certificate: each attribute by its name, with its
/// text.
pub open spec fn x509_subject(der: Seq<u8>) -> Option<Seq<(Seq<char>, Seq<char>)>> {
    match x509_subject_attributes(der) {
        None => None,
        Some(attributes) => Some(
            Seq::new(
                attributes.len(),
                |k: int| (attribute_name(attributes[k].0, attributes[k].1), attributes[k].2),
            ),
        ),
    }
}

/// The greatest second arc that an object identifier can be written
/// with.
pub const OID_SECOND_ARC_LIMIT: u64 = 18446744073709551535;

/// Whether some arcs are those of an object identifier that can be
/// written: at least two, the first at most 2, the second below 40
/// unless the first is 2.
pub open spec fn is_object_identifier(arcs: Seq<u64>) -> bool {
    &&& arcs.len() >= 2
    &&& arcs[0] < 3
    &&& arcs[1] < OID_SECOND_ARC_LIMIT
    &&& (arcs[0] < 2 ==> arcs[1] < 40)
}

/// Whether the identifier of each of some extensions can be written.
pub open spec fn identified(extensions: Seq<CustomExtension>) -> bool {
    forall|k: int|
        0 <= k < extensions.len() ==> is_object_identifier((#[trigger] extensions[k]).oid@)
}

/// The public key of a certificate on P-256, without compression.
pub open spec fn certificate_key(der: Seq<u8>) -> Option<Seq<u8>> {
    match x509_public_key_info(der) {
        Some(spki) => p256_public_key_info_point(spki),
        None => None,
    }
}

/// The tag of a DER string of the type UTF8String.
pub const DER_UTF8_STRING: u8 = 0x0c;

/// The DER encoding of a length below 2^32: the length itself below 128,
/// else the number of its bytes, marked, and its bytes.
pub open spec fn der_length(length: int) -> Seq<u8> {
    if length < 0x80 {
        seq![length as u8]
    } else if length < 0x100 {
        seq![0x81u8, length as u8]
    } else if length < 0x1_0000 {
        seq![0x82u8, (length / 0x100) as u8, (length % 0x100) as u8]
    } else if length < 0x100_0000 {
        seq![
            0x83u8,
            (length / 0x1_0000) as u8,
            (length / 0x100 % 0x100) as u8,
            (length % 0x100) as u8,
        ]
    } else {
        seq![
            0x84u8,
            (length / 0x100_0000) as u8,
            (length / 0x1_0000 % 0x100) as u8,
            (length / 0x100 % 0x100) as u8,
            (length % 0x100) as u8,
        ]
    }
}

/// The DER string of the type UTF8String with a text: the tag, the
/// length of the text in UTF-8, and the text in UTF-8.
pub open spec fn utf8_string_der(text: Seq<char>) -> Seq<u8> {
    seq![DER_UTF8_STRING] + der_length(encode_utf8(text).len() as int) + encode_utf8(text)
}

/// The label and the content of the first PEM block of a text.
pub uninterp spec fn pem_block(text: Seq<char>) -> Option<(Seq<char>, Seq<u8>)>;

/// The extended key usages of a certificate.
pub uninterp spec fn x509_other_key_usages(der: Seq<u8>) -> KeyUsageReading;

/// The extensions of a certificate, each by the encoding of its object
/// identifier, with its value.
pub uninterp spec fn x509_extensions(der: Seq<u8>) -> Option<Seq<(Seq<u8>, Seq<u8>)>>;

/// The attributes of the subject of a certificate: each by the encoding
/// of its object identifier, with its abbreviation, where it has one,
/// and its text.
pub uninterp spec fn x509_subject_attributes(der: Seq<u8>) -> Option<
    Seq<(Seq<u8>, Option<Seq<char>>, Seq<char>)>,
>;

/// The encoded public key information of a certificate.
pub uninterp spec fn x509_public_key_info(der: Seq<u8>) -> Option<Seq<u8>>;

/// The point that public key information names, without compression.
pub uninterp spec fn p256_public_key_info_point(spki: Seq<u8>) -> Option<Seq<u8>>;

/// The dotted text of an object identifier.
pub uninterp spec fn oid_id_string(oid: Seq<u8>) -> Seq<char>;

/// The text of a DER string of the type UTF8String.
pub uninterp spec fn der_utf8_text(der: Seq<u8>) -> Option<Seq<char>>;

/// The greatest length of a DER value, and of its whole encoding, that
/// is written.
pub const DER_LENGTH_LIMIT: usize = 0x0fff_ffff;

/// Whether a text is short enough for a DER string: the whole string,
/// with its tag and length, stays within the limit.
pub open spec fn der_utf8_fits(text: Seq<char>) -> bool {
    utf8_string_der(text).len() <= DER_LENGTH_LIMIT
}

/// Whether a text is a JSON document.
pub uninterp spec fn is_json_document(text: Seq<char>) -> bool;

/// Whether a certificate can be parsed as the one that a chain ends in.
pub uninterp spec fn end_entity_parses(der: Seq<u8>) -> bool;

/// Whether a certificate can be parsed as that of a trusted authority.
pub uninterp spec fn trust_anchor_parses(der: Seq<u8>) -> bool;

/// Whether each of some certificates can be parsed as that of a trusted
/// authority.
pub open spec fn trust_anchors_parse(trust_anchors: Seq<Seq<u8>>) -> bool {
    forall|k: int| 0 <= k < trust_anchors.len() ==> trust_anchor_parses(#[trigger] trust_anchors[k])
}

/// Whether a certificate and the certificates of trusted authorities can
/// be parsed for validation.
pub open spec fn validation_parses(der: Seq<u8>, trust_anchors: Seq<Seq<u8>>) -> bool {
    trust_anchors_parse(trust_anchors) && end_entity_parses(der)
}

/// Whether a valid chain leads from a certificate to a trusted
/// authority: for a usage, with intermediate certificates, at a time in
/// seconds since 1970.
pub uninterp spec fn chain_verifies(
    der: Seq<u8>,
    usage: Seq<u8>,
    intermediates: Seq<Seq<u8>>,
    time: u64,
    trust_anchors: Seq<Seq<u8>>,
) -> bool;

/// The scalar of a secret key in PKCS#8.
pub uninterp spec fn p256_pkcs8_scalar(pkcs8: Seq<u8>) -> Option<Seq<u8>>;

/// The PKCS#8 document of a secret scalar.
pub uninterp spec fn p256_scalar_pkcs8(scalar: Seq<u8>) -> Option<Seq<u8>>;

/// `x509_parser::pem::parse_x509_pem`: the label and the content of the
/// first PEM block, or what the parser reports.
#[verifier::external_body]
pub(crate) fn parse_pem(pem: &str) -> (block: Result<(String, Vec<u8>), String>)
    ensures
        block.is_ok() == pem_block(pem@).is_some(),
        block.is_ok() ==> block.unwrap().0@ == pem_block(pem@).unwrap().0 && block.unwrap().1@
            == pem_block(pem@).unwrap().1,
{
    let (_, block) = x509_parser::pem::parse_x509_pem(pem.as_bytes()).map_err(|e| e.to_string())?;
    Ok((block.label, block.contents))
}

/// `X509Certificate::from_der` and `extended_key_usage` of x509_parser:
/// the usages that the parser files under "other", each by the bytes of
/// its object identifier.
#[verifier::external_body]
pub(crate) fn read_other_key_usages(der: &[u8]) -> (reading: Result<
    Option<Vec<Vec<u8>>>,
    CertificateError,
>)
    ensures
        match x509_other_key_usages(der@) {
            KeyUsageReading::Unparsable => reading is Err && reading.unwrap_err()
                is ContentParsing,
            KeyUsageReading::Malformed => reading is Err && reading.unwrap_err() is X509Error,
            KeyUsageReading::Absent => reading is Ok && reading.unwrap() is None,
            KeyUsageReading::Present(usages) => reading is Ok && reading.unwrap() is Some
                && reading.unwrap().unwrap().deep_view() == usages,
        },
{
    let (_, cert) = X509Certificate::from_der(der).map_err(
        |e| CertificateError::ContentParsing(e.to_string()),
    )?;
    let usage = cert.extended_key_usage().map_err(|e| CertificateError::X509Error(e.to_string()))?;
    Ok(usage.map(|eku| eku.value.other.iter().map(|oid| oid.as_bytes().to_vec()).collect()))
}

/// `X509Certificate::from_der` and `iter_extensions` of x509_parser: the
/// extensions in their order, each by the bytes of its object identifier,
/// with its value.
#[verifier::external_body]
pub(crate) fn read_extensions(der: &[u8]) -> (extensions: Result<Vec<(Vec<u8>, Vec<u8>)>, String>)
    ensures
        extensions.is_ok() == x509_extensions(der@).is_some(),
        extensions.is_ok() ==> extensions.unwrap().deep_view() == x509_extensions(der@).unwrap(),
{
    let (_, cert) = X509Certificate::from_der(der).map_err(|e| e.to_string())?;
    let pair = |ext: &X509Extension| (ext.oid.as_bytes().to_vec(), ext.value.to_vec());
    Ok(cert.iter_extensions().map(pair).collect())
}

/// `X509Certificate::from_der` and `subject` of x509_parser, with
/// `oid2abbrev` for the abbreviation of each attribute and `as_str` for
/// its text: the attributes in their order, or nothing where the
/// certificate cannot be parsed or an attribute is no text.
#[verifier::external_body]
pub(crate) fn read_subject_attributes(der: &[u8]) -> (subject: Result<
    Vec<(Vec<u8>, Option<String>, String)>,
    String,
>)
    ensures
        subject.is_ok() == x509_subject_attributes(der@).is_some(),
        subject.is_ok() ==> subject.unwrap().deep_view() == x509_subject_attributes(
            der@,
        ).unwrap(),
{
    let (_, cert) = X509Certificate::from_der(der).map_err(|e| e.to_string())?;
    let pair = |attr: &AttributeTypeAndValue| {
        let oid = attr.attr_type();
        let name = oid2abbrev(oid, oid_registry()).ok().map(str::to_string);
        let text = attr.as_str().map_err(|e| e.to_string())?;
        Ok((oid.as_bytes().to_vec(), name, text.to_string()))
    };
    cert.subject.iter_attributes().map(pair).collect()
}

/// `X509Certificate::from_der` and `public_key` of x509_parser: the
/// encoded public key information.
#[verifier::external_body]
pub(crate) fn read_public_key_info(der: &[u8]) -> (spki: Result<Vec<u8>, String>)
    ensures
        spki.is_ok() == x509_public_key_info(der@).is_some(),
        spki.is_ok() ==> spki.unwrap()@ == x509_public_key_info(der@).unwrap(),
{
    let (_, cert) = X509Certificate::from_der(der).map_err(
        |e| e.to_string(),
    )?;
    Ok(cert.public_key().raw.to_vec())
}

/// `p256::ecdsa::VerifyingKey::from_public_key_der`, then
/// `to_encoded_point` without compression: the 65 bytes of the point,
/// which encode a public key and stand for themselves.
#[verifier::external_body]
pub(crate) fn p256_point_of_public_key_info(spki: &[u8]) -> (point: Result<Vec<u8>, String>)
    ensures
        point.is_ok() == p256_public_key_info_point(spki@).is_some(),
        point.is_ok() ==> point.unwrap()@ == p256_public_key_info_point(spki@).unwrap(),
        point.is_ok() ==> point.unwrap()@.len() == POINT_LEN && point.unwrap()@[0]
            == TAG_UNCOMPRESSED && p256_uncompressed_point(point.unwrap()@) == Some(
            point.unwrap()@,
        ),
{
    let key = p256::ecdsa::VerifyingKey::from_public_key_der(spki).map_err(|e| e.to_string())?;
    Ok(key.to_encoded_point(false).as_bytes().to_vec())
}

/// `Oid::to_id_string` of asn1-rs, as x509_parser holds object
/// identifiers: the arcs in decimal, separated by dots.
#[verifier::external_body]
pub(crate) fn oid_to_id_string(oid: &[u8]) -> (text: String)
    ensures
        text@ == oid_id_string(oid@),
{
    Oid::new(std::borrow::Cow::Borrowed(oid)).to_id_string()
}

/// `Utf8StringRef::from_der` of the crate der: the text of a UTF8String.
#[verifier::external_body]
pub(crate) fn decode_der_utf8(der: &[u8]) -> (text: Result<String, String>)
    ensures
        text.is_ok() == der_utf8_text(der@).is_some(),
        text.is_ok() ==> text.unwrap()@ == der_utf8_text(der@).unwrap(),
{
    let mut reader = p256::pkcs8::der::SliceReader::new(der).map_err(|e| e.to_string())?;
    let text = p256::pkcs8::der::asn1::Utf8StringRef::decode(&mut reader).map_err(
        |e| e.to_string(),
    )?;
    Ok(text.as_str().to_string())
}

/// What is reported of a text that is too long for a DER string.
pub const DER_OVERFLOW: &'static str = "the text is too long for a DER string";

/// Appends the DER encoding of a length.
pub fn push_der_length(out: &mut Vec<u8>, length: usize)
    requires
        length <= DER_LENGTH_LIMIT,
    ensures
        final(out)@ == old(out)@ + der_length(length as int),
{
    if length < 0x80 {
        out.push(length as u8);
    } else if length < 0x100 {
        out.push(0x81);
        out.push(length as u8);
    } else if length < 0x1_0000 {
        out.push(0x82);
        out.push((length / 0x100) as u8);
        out.push((length % 0x100) as u8);
    } else if length < 0x100_0000 {
        out.push(0x83);
        out.push((length / 0x1_0000) as u8);
        out.push((length / 0x100 % 0x100) as u8);
        out.push((length % 0x100) as u8);
    } else {
        out.push(0x84);
        out.push((length / 0x100_0000) as u8);
        out.push((length / 0x1_0000 % 0x100) as u8);
        out.push((length / 0x100 % 0x100) as u8);
        out.push((length % 0x100) as u8);
    }
    assert(out@ =~= old(out)@ + der_length(length as int));
}

/// A text as a DER string of the type UTF8String, unless the string
/// would be longer than the limit.
pub fn encode_der_utf8(text: &str) -> (der: Result<Vec<u8>, String>)
    ensures
        der.is_ok() == der_utf8_fits(text@),
        der.is_ok() ==> der.unwrap()@ == utf8_string_der(text@),
{
    let bytes = text.as_bytes();
    if bytes.len() > DER_LENGTH_LIMIT {
        return Err(DER_OVERFLOW.to_owned());
    }
    let mut der: Vec<u8> = Vec::new();
    der.push(DER_UTF8_STRING);
    push_der_length(&mut der, bytes.len());
    if bytes.len() > DER_LENGTH_LIMIT - der.len() {
        return Err(DER_OVERFLOW.to_owned());
    }
    crate::cbor::push_raw(&mut der, bytes);
    assert(der@ =~= utf8_string_der(text@));
    Ok(der)
}

/// `serde_json::from_str` to a `serde_json::Value`: whether a text is a
/// JSON document, and if not, what the parser reports.
#[verifier::external_body]
pub(crate) fn check_json(text: &str) -> (checked: Result<(), String>)
    ensures
        checked.is_ok() == is_json_document(text@),
{
    serde_json::from_str::<serde_json::Value>(text).map(|_| ()).map_err(|e| e.to_string())
}

/// `EndEntityCert::try_from` of webpki: whether a certificate can be
/// parsed as the one that a chain ends in, and if not, what the parser
/// reports.
#[verifier::external_body]
pub(crate) fn parse_end_entity(der: &[u8]) -> (parsed: Result<(), String>)
    ensures
        parsed.is_ok() == end_entity_parses(der@),
{
    webpki::EndEntityCert::try_from(der).map(|_| ()).map_err(|e| e.to_string())
}

/// `TrustAnchor::try_from_cert_der` of webpki: whether a certificate can
/// be parsed as that of a trusted authority, and if not, what the parser
/// reports.
#[verifier::external_body]
pub(crate) fn parse_trust_anchor(der: &[u8]) -> (parsed: Result<(), String>)
    ensures
        parsed.is_ok() == trust_anchor_parses(der@),
{
    webpki::TrustAnchor::try_from_cert_der(der).map(|_| ()).map_err(|e| e.to_string())
}

/// `EndEntityCert::verify_for_usage` of webpki, with ECDSA on P-256 with
/// SHA-256 as the only signature algorithm and without revocation lists:
/// whether a valid chain leads to a trust anchor, and if not, what the
/// verification reports.
#[verifier::external_body]
pub(crate) fn verify_chain(
    der: &[u8],
    usage: &'static [u8],
    intermediates: &Vec<Vec<u8>>,
    time: u64,
    trust_anchors: &Vec<Certificate>,
) -> (verified: Result<(), String>)
    requires
        validation_parses(der@, trust_anchors.deep_view()),
    ensures
        verified.is_ok() == chain_verifies(
            der@,
            usage@,
            intermediates.deep_view(),
            time,
            trust_anchors.deep_view(),
        ),
{
    let anchors = trust_anchors.iter().map(|c| webpki::TrustAnchor::try_from_cert_der(&c.0));
    let anchors: Vec<_> = anchors.map(|anchor| anchor.expect("a trust anchor")).collect();
    let chain: Vec<&[u8]> = intermediates.iter().map(|c| c.as_slice()).collect();
    let cert = webpki::EndEntityCert::try_from(der).expect("a certificate");
    let time = webpki::Time::from_seconds_since_unix_epoch(time);
    let usage = webpki::KeyUsage::required(usage);
    let algorithms = [&webpki::ECDSA_P256_SHA256];
    let verified = cert.verify_for_usage(&algorithms, &anchors, &chain, time, usage, &[]);
    verified.map_err(|e| e.to_string())
}

/// `p256::SecretKey::from_pkcs8_der`, then `to_bytes`: the scalar of a
/// secret key in PKCS#8, 32 bytes that are a secret key.
#[verifier::external_body]
pub(crate) fn p256_scalar_of_pkcs8(pkcs8: &[u8]) -> (scalar: Result<Vec<u8>, String>)
    ensures
        scalar.is_ok() == p256_pkcs8_scalar(pkcs8@).is_some(),
        scalar.is_ok() ==> scalar.unwrap()@ == p256_pkcs8_scalar(pkcs8@).unwrap(),
        scalar.is_ok() ==> p256_secret_scalar(scalar.unwrap()@) == Some(scalar.unwrap()@),
{
    let key = p256::SecretKey::from_pkcs8_der(pkcs8).map_err(|e| e.to_string())?;
    Ok(key.to_bytes().to_vec())
}

/// `p256::SecretKey::from_slice`, then `to_pkcs8_der`: the PKCS#8
/// document of a secret key.
#[verifier::external_body]
pub(crate) fn p256_pkcs8_of_scalar(scalar: &[u8]) -> (pkcs8: Result<Vec<u8>, String>)
    ensures
        pkcs8.is_ok() == p256_scalar_pkcs8(scalar@).is_some(),
        pkcs8.is_ok() ==> pkcs8.unwrap()@ == p256_scalar_pkcs8(scalar@).unwrap(),
{
    let key = p256::SecretKey::from_slice(scalar).map_err(|e| e.to_string())?;
    Ok(key.to_pkcs8_der().map_err(|e| e.to_string())?.as_bytes().to_vec())
}

/// `rcgen::Certificate::from_params` and `serialize_der`: a self-signed
/// certificate of a certificate authority with a common name, a path
/// length and a fresh key, and that key in PKCS#8.
#[verifier::external_body]
pub(crate) fn generate_self_signed(common_name: &str, path_length: u8) -> (generated: Result<
    (Vec<u8>, Vec<u8>),
    String,
>) {
    let mut params = rcgen::CertificateParams::new(vec![]);
    params.is_ca = rcgen::IsCa::Ca(rcgen::BasicConstraints::Constrained(path_length));
    params.distinguished_name.push(rcgen::DnType::CommonName, common_name);
    let cert = rcgen::Certificate::from_params(params).map_err(|e| e.to_string())?;
    let der = cert.serialize_der().map_err(|e| e.to_string())?;
    Ok((der, cert.get_key_pair().serialized_der().to_vec()))
}

/// `rcgen::Certificate::from_params` and `serialize_der_with_signer`, on
/// parameters with `CustomExtension::from_oid_content` and
/// `set_criticality` for each extension: a certificate that is no
/// authority, with a common name, the given extensions and a fresh key,
/// signed by the authority with the given certificate and key, and the
/// fresh key in PKCS#8. Extensions whose identifiers cannot be written
/// are left out, on which it panics.
#[verifier::external_body]
pub(crate) fn generate_signed(
    common_name: &str,
    extensions: &Vec<CustomExtension>,
    ca: &[u8],
    ca_pkcs8: &[u8],
) -> (generated: Result<(Vec<u8>, Vec<u8>), String>)
    requires
        identified(extensions@),
{
    let text = |e: rcgen::RcgenError| e.to_string();
    let mut params = CertificateParams::new(vec![]);
    params.distinguished_name.push(DnType::CommonName, common_name);
    for e in extensions {
        let mut extension = rcgen::CustomExtension::from_oid_content(&e.oid, e.content.clone());
        extension.set_criticality(e.critical);
        params.custom_extensions.push(extension);
    }
    let cert = rcgen::Certificate::from_params(params).map_err(text)?;
    let key = KeyPair::from_der(ca_pkcs8).map_err(text)?;
    let ca = CertificateParams::from_ca_cert_der(ca, key).map_err(text)?;
    let ca = rcgen::Certificate::from_params(ca).map_err(text)?;
    let der = cert.serialize_der_with_signer(&ca).map_err(text)?;
    Ok((der, cert.get_key_pair().serialized_der().to_vec()))
}

/// `SystemTime::now` of std: the seconds since 1970 on the system's
/// clock, and none where the clock stands before 1970.
#[verifier::external_body]
pub(crate) fn system_time_seconds() -> (seconds: Option<u64>) {
    let now = std::time::SystemTime::now();
    now.duration_since(std::time::UNIX_EPOCH).ok().map(|elapsed| elapsed.as_secs())
}

/// A source of values that the caller supplies: of the time, so that a
/// verification can be repeated.
pub trait Generator<T> {
    /// Whether `value` is one that the source gave. What that says of
    /// the value is for each source to state: a source that states
    /// nothing admits every value.
    open spec fn gives(&self, value: T) -> bool {
        true
    }

    fn generate(&self) -> (value: T)
        ensures
            self.gives(value),
    ;
}

/// The system's clock, in seconds since 1970.
pub struct TimeGenerator;

impl Generator<u64> for TimeGenerator {
    /// The seconds since 1970 on the system's clock: 0 where the clock
    /// stands before 1970.
    fn generate(&self) -> u64 {
        match system_time_seconds() {
            Some(seconds) => seconds,
            None => 0,
        }
    }
}

/// The subject of a certificate: its attributes by their names.
pub type Subject = IndexMap<String, String>;

/// The attributes that a subject holds by their names, in insertion
/// order.
pub uninterp spec fn subject_entries(map: IndexMap<String, String, RandomState>) -> Seq<
    (Seq<char>, Seq<char>),
>;

/// `IndexMap::new`: the empty map.
#[verifier::external_body]
pub(crate) fn subject_new() -> (map: Subject)
    ensures
        subject_entries(map) == Seq::<(Seq<char>, Seq<char>)>::empty(),
{
    IndexMap::new()
}

/// `IndexMap::insert`: a new name goes last with its text; for a name
/// that is held the text is replaced in place.
#[verifier::external_body]
pub(crate) fn subject_insert(map: &mut Subject, name: String, text: String)
    ensures
        subject_entries(*final(map)) == upsert(subject_entries(*old(map)), name@, text@),
{
    map.insert(name, text);
}

/// An X.509 certificate in DER.
#[derive(Debug, PartialEq, Eq)]
pub struct Certificate(Vec<u8>);

impl View for Certificate {
    type V = Seq<u8>;

    closed spec fn view(&self) -> Seq<u8> {
        self.0@
    }
}

impl DeepView for Certificate {
    type V = Seq<u8>;

    open spec fn deep_view(&self) -> Seq<u8> {
        self@
    }
}

impl Clone for Certificate {
    fn clone(&self) -> (copy: Self)
        ensures
            copy@ == self@,
    {
        Certificate(self.0.clone())
    }
}

/// An extension of a certificate to generate: the arcs of its object
/// identifier, whether it is critical, and its value.
#[derive(Debug, PartialEq, Eq)]
pub struct CustomExtension {
    pub oid: Vec<u64>,
    pub critical: bool,
    pub content: Vec<u8>,
}

/// The subject as a map holds it: each name once, where it first stands,
/// with the text that stands last under it.
pub open spec fn subject_of(attributes: Seq<(Seq<char>, Seq<char>)>) -> Seq<
    (Seq<char>, Seq<char>),
>
    decreases attributes.len(),
{
    if attributes.len() == 0 {
        Seq::empty()
    } else {
        upsert(subject_of(attributes.drop_last()), attributes.last().0, attributes.last().1)
    }
}

/// The value of the first extension of a certificate under the object
/// identifier with the given bytes.
pub fn read_extension(der: &[u8], oid: &[u8]) -> (reading: Result<Option<Vec<u8>>, CertificateError>)
    ensures
        match x509_extension(der@, oid@) {
            ExtensionReading::Unparsable => reading is Err && reading.unwrap_err()
                is ContentParsing,
            ExtensionReading::Absent => reading is Ok && reading.unwrap() is None,
            ExtensionReading::Present(value) => reading is Ok && reading.unwrap() is Some
                && reading.unwrap().unwrap()@ == value,
        },
{
    match read_extensions(der) {
        Err(message) => Err(CertificateError::ContentParsing(message)),
        Ok(extensions) => {
            let ghost all = extensions.deep_view();
            let mut i: usize = 0;
            assert(all.skip(0) =~= all);
            while i < extensions.len()
                invariant
                    i <= extensions.len(),
                    all == extensions.deep_view(),
                    x509_extensions(der@) == Some(all),
                    first_extension(all, oid@) == first_extension(all.skip(i as int), oid@),
                decreases extensions.len() - i,
            {
                proof {
                    assert(all.skip(i as int)[0] == (extensions[i as int].0@, extensions[i as int].1@));
                    assert(all.skip(i as int).drop_first() =~= all.skip(i as int + 1));
                }
                if same_bytes(extensions[i].0.as_slice(), oid) {
                    return Ok(Some(extensions[i].1.clone()));
                }
                i += 1;
            }
            assert(all.skip(extensions.len() as int) =~= Seq::empty());
            Ok(None)
        },
    }
}

/// The subject of a certificate: each attribute by its name, with its
/// text, in their order.
pub fn read_subject(der: &[u8]) -> (subject: Result<Vec<(String, String)>, String>)
    ensures
        subject.is_ok() == x509_subject(der@).is_some(),
        subject.is_ok() ==> subject.unwrap().deep_view() == x509_subject(der@).unwrap(),
{
    match read_subject_attributes(der) {
        Err(message) => Err(message),
        Ok(attributes) => {
            let ghost all = attributes.deep_view();
            let mut subject: Vec<(String, String)> = Vec::new();
            let mut i: usize = 0;
            while i < attributes.len()
                invariant
                    i <= attributes.len(),
                    all == attributes.deep_view(),
                    subject@.len() == i,
                    forall|k: int|
                        0 <= k < i ==> (#[trigger] subject@[k]).deep_view() == (
                            attribute_name(all[k].0, all[k].1),
                            all[k].2,
                        ),
                decreases attributes.len() - i,
            {
                let attribute = &attributes[i];
                assert(all[i as int] == (attribute.0@, attribute.1.deep_view(), attribute.2@));
                let name = match &attribute.1 {
                    Some(abbreviation) => abbreviation.clone(),
                    None => oid_to_id_string(attribute.0.as_slice()),
                };
                subject.push((name, attribute.2.clone()));
                i += 1;
            }
            assert(subject.deep_view() =~= x509_subject(der@).unwrap());
            Ok(subject)
        },
    }
}

impl Certificate {
    /// The certificate with the given DER.
    pub fn from_der(der: Vec<u8>) -> (certificate: Certificate)
        ensures
            certificate@ == der@,
    {
        Certificate(der)
    }

    /// The DER of the certificate.
    pub fn into_bytes(self) -> (der: Vec<u8>)
        ensures
            der@ == self@,
    {
        self.0
    }

    /// The certificate in DER.
    pub fn as_bytes(&self) -> (bytes: &[u8])
        ensures
            bytes@ == self@,
    {
        self.0.as_slice()
    }

    /// The certificate that the first block of a PEM text holds.
    pub fn from_pem(pem: &str) -> (certificate: Result<Certificate, CertificateError>)
        ensures
            match pem_block(pem@) {
                None => certificate is Err && certificate.unwrap_err() is Pem,
                Some((label, contents)) => if label == PEM_CERTIFICATE_HEADER@ {
                    certificate is Ok && certificate.unwrap()@ == contents
                } else {
                    certificate is Err && certificate.unwrap_err().kind() == (
                    CertificateErrorKind::UnexpectedPemHeader {
                        found: label,
                        expected: PEM_CERTIFICATE_HEADER@,
                    })
                },
            },
    {
        match parse_pem(pem) {
            Err(message) => Err(CertificateError::Pem(message)),
            Ok((label, contents)) => {
                let expected = PEM_CERTIFICATE_HEADER.to_owned();
                if label == expected {
                    Ok(Certificate(contents))
                } else {
                    Err(CertificateError::UnexpectedPemHeader { found: label, expected })
                }
            },
        }
    }

    /// Verify the certificate against the specified trust anchors at a
    /// given time, in seconds since 1970: its chain, built with ECDSA on
    /// P-256 with SHA-256, leads to one of them, its extended key usage
    /// is `usage`, and the time lies within its validity.
    pub fn verify_at(
        &self,
        usage: CertificateUsage,
        intermediate_certs: &Vec<Vec<u8>>,
        time: u64,
        trust_anchors: &Vec<Certificate>,
    ) -> (verified: Result<(), CertificateError>)
        ensures
            match chain_verification(
                self@,
                usage.eku(),
                intermediate_certs.deep_view(),
                time,
                trust_anchors.deep_view(),
            ) {
                ChainOutcome::Unparsable => verified is Err && verified.unwrap_err()
                    is ValidationParsing,
                ChainOutcome::Rejected => verified is Err && verified.unwrap_err()
                    is Verification,
                ChainOutcome::Valid => verified is Ok,
            },
    {
        let mut i: usize = 0;
        while i < trust_anchors.len()
            invariant
                i <= trust_anchors.len(),
                trust_anchors_parse(trust_anchors.deep_view().take(i as int)),
            decreases trust_anchors.len() - i,
        {
            if let Err(message) = parse_trust_anchor(trust_anchors[i].0.as_slice()) {
                proof {
                    assert(trust_anchors.deep_view()[i as int] == trust_anchors[i as int]@);
                }
                return Err(CertificateError::ValidationParsing(message));
            }
            proof {
                let anchors = trust_anchors.deep_view();
                assert(anchors[i as int] == trust_anchors[i as int]@);
                assert forall|k: int| 0 <= k < i + 1 implies trust_anchor_parses(
                    #[trigger] anchors.take(i + 1)[k],
                ) by {
                    if k < i {
                        assert(anchors.take(i as int)[k] == anchors[k]);
                    }
                }
            }
            i += 1;
        }
        assert(trust_anchors.deep_view().take(i as int) =~= trust_anchors.deep_view());
        match parse_end_entity(self.0.as_slice()) {
            Err(message) => Err(CertificateError::ValidationParsing(message)),
            Ok(()) => match verify_chain(
                self.0.as_slice(),
                usage.to_eku(),
                intermediate_certs,
                time,
                trust_anchors,
            ) {
                Err(message) => Err(CertificateError::Verification(message)),
                Ok(()) => Ok(()),
            },
        }
    }

    /// Verify the certificate against the specified trust anchors, at
    /// the time that the generator gives: the outcome is that of
    /// [`Certificate::verify_at`] at that time.
    pub fn verify<G: Generator<u64>>(
        &self,
        usage: CertificateUsage,
        intermediate_certs: &Vec<Vec<u8>>,
        time: &G,
        trust_anchors: &Vec<Certificate>,
    ) -> (verified: Result<(), CertificateError>)
        ensures
            exists|at: u64|
                time.gives(at) && #[trigger] reports(
                    chain_verification(
                        self@,
                        usage.eku(),
                        intermediate_certs.deep_view(),
                        at,
                        trust_anchors.deep_view(),
                    ),
                    verified,
                ),
    {
        let at = time.generate();
        let verified = self.verify_at(usage, intermediate_certs, at, trust_anchors);
        assert(reports(
            chain_verification(
                self@,
                usage.eku(),
                intermediate_certs.deep_view(),
                at,
                trust_anchors.deep_view(),
            ),
            verified,
        ));
        verified
    }

    /// The public key of the certificate.
    pub fn public_key(&self) -> (key: Result<VerifyingKey, CertificateError>)
        ensures
            match x509_public_key_info(self@) {
                None => key is Err && key.unwrap_err() is ContentParsing,
                Some(spki) => match p256_public_key_info_point(spki) {
                    None => key is Err && key.unwrap_err() is KeyParsingFailed,
                    Some(point) => key is Ok && key.unwrap()@ == point,
                },
            },
    {
        match read_public_key_info(self.0.as_slice()) {
            Err(message) => Err(CertificateError::ContentParsing(message)),
            Ok(spki) => match p256_point_of_public_key_info(spki.as_slice()) {
                Err(message) => Err(CertificateError::KeyParsingFailed(message)),
                Ok(point) => Ok(VerifyingKey::from_sec1_bytes(point.as_slice()).unwrap()),
            },
        }
    }

    /// The subject of the certificate: its attributes by their names.
    pub fn subject(&self) -> (subject: Result<Subject, CertificateError>)
        ensures
            match x509_subject(self@) {
                None => subject is Err && subject.unwrap_err() is ContentParsing,
                Some(attributes) => subject is Ok && subject_entries(subject.unwrap())
                    == subject_of(attributes),
            },
    {
        match read_subject(self.0.as_slice()) {
            Err(message) => Err(CertificateError::ContentParsing(message)),
            Ok(attributes) => {
                let ghost pairs = attributes.deep_view();
                let mut subject = subject_new();
                let mut i: usize = 0;
                assert(pairs.take(0) =~= Seq::empty());
                while i < attributes.len()
                    invariant
                        i <= attributes.len(),
                        pairs == attributes.deep_view(),
                        subject_entries(subject) == subject_of(pairs.take(i as int)),
                    decreases attributes.len() - i,
                {
                    proof {
                        let next = pairs.take(i as int + 1);
                        assert(next.drop_last() =~= pairs.take(i as int));
                        assert(next.last() == (attributes[i as int].0@, attributes[i as int].1@));
                    }
                    subject_insert(
                        &mut subject,
                        attributes[i].0.clone(),
                        attributes[i].1.clone(),
                    );
                    i += 1;
                }
                assert(pairs.take(attributes.len() as int) =~= pairs);
                Ok(subject)
            },
        }
    }

    /// The text that the certificate carries in the extension with the
    /// given object identifier, if it holds that extension: a JSON
    /// document.
    pub fn extract_custom_ext(&self, oid: &[u8]) -> (json: Result<Option<String>, CertificateError>)
        ensures
            match custom_extension_text(self@, oid@) {
                Ok(Some(text)) => json is Ok && json.unwrap() is Some && json.unwrap().unwrap()@
                    == text,
                Ok(None) => json is Ok && json.unwrap() is None,
                Err(kind) => json is Err && json.unwrap_err().kind() == kind,
            },
    {
        match read_extension(self.0.as_slice(), oid) {
            Err(error) => Err(error),
            Ok(None) => Ok(None),
            Ok(Some(value)) => match decode_der_utf8(value.as_slice()) {
                Err(message) => Err(CertificateError::DerEncodingError(message)),
                Ok(text) => match check_json(text.as_str()) {
                    Err(message) => Err(CertificateError::JsonEncodingError(message)),
                    Ok(()) => Ok(Some(text)),
                },
            },
        }
    }

    /// Generate a new self-signed CA certificate. What the generator
    /// returns is accepted as [`Certificate::from_generated_ca`] says:
    /// the public key of the certificate is that of the key.
    pub fn new_ca(common_name: &str) -> (generated: Result<
        (Certificate, SecretKey),
        CertificateError,
    >)
        ensures
            generated matches Err(error) ==> error is GeneratingFailed
                || error is GeneratingPrivateKey,
            generated matches Ok((certificate, key)) ==> certificate_key(certificate@) == Some(
                p256_public_key_of(key@),
            ),
    {
        match generate_self_signed(common_name, CA_PATH_LENGTH) {
            Err(message) => Err(CertificateError::GeneratingFailed(message)),
            Ok((der, pkcs8)) => Self::from_generated_ca(der, pkcs8.as_slice()),
        }
    }

    /// What is accepted of a generated certificate of an authority and
    /// the key in PKCS#8 that came with it: the key must be a secret key
    /// on P-256, else the error is that of the key; the public key of
    /// the certificate must be that of the key, else the generation has
    /// failed.
    pub fn from_generated_ca(der: Vec<u8>, pkcs8: &[u8]) -> (accepted: Result<
        (Certificate, SecretKey),
        CertificateError,
    >)
        ensures
            match p256_pkcs8_scalar(pkcs8@) {
                None => accepted matches Err(error) && error is GeneratingPrivateKey,
                Some(scalar) => if certificate_key(der@) == Some(p256_public_key_of(scalar)) {
                    accepted matches Ok((certificate, key)) && certificate@ == der@ && key@
                        == scalar
                } else {
                    accepted matches Err(error) && error is GeneratingFailed
                },
            },
    {
        let key = match Self::generated_key(pkcs8) {
            Ok(key) => key,
            Err(error) => {
                return Err(error);
            },
        };
        let certificate = Certificate(der);
        if certificate.has_key(&key) {
            Ok((certificate, key))
        } else {
            Err(CertificateError::GeneratingFailed(KEY_MISMATCH.to_owned()))
        }
    }

    /// What is accepted of a generated certificate and the key in PKCS#8
    /// that came with it, where a certificate of `certificate_type` was
    /// asked for: the key must be a secret key on P-256, else the error
    /// is that of the key; the public key of the certificate must be
    /// that of the key and the certificate must read as one of that
    /// type, else the generation has failed.
    pub fn from_generated(der: Vec<u8>, pkcs8: &[u8], certificate_type: &CertificateType) -> (accepted:
        Result<(Certificate, SecretKey), CertificateError>)
        ensures
            match p256_pkcs8_scalar(pkcs8@) {
                None => accepted matches Err(error) && error is GeneratingPrivateKey,
                Some(scalar) => if certificate_key(der@) == Some(p256_public_key_of(scalar))
                    && crate::x509::certificate_type(der@) == Ok::<
                    CertificateTypeView,
                    CertificateErrorKind,
                >(certificate_type@) {
                    accepted matches Ok((certificate, key)) && certificate@ == der@ && key@
                        == scalar
                } else {
                    accepted matches Err(error) && error is GeneratingFailed
                },
            },
    {
        let (certificate, key) = match Self::from_generated_ca(der, pkcs8) {
            Ok(accepted) => accepted,
            Err(error) => {
                return Err(error);
            },
        };
        match CertificateType::from_certificate(&certificate) {
            Ok(found) => {
                if found.same_as(certificate_type) {
                    Ok((certificate, key))
                } else {
                    Err(CertificateError::GeneratingFailed(TYPE_MISMATCH.to_owned()))
                }
            },
            Err(_) => Err(CertificateError::GeneratingFailed(TYPE_MISMATCH.to_owned())),
        }
    }

    /// Generate a new certificate signed with the specified CA
    /// certificate. It carries the usage and, where there is any, the
    /// registration of `certificate_type` in its extensions. What the
    /// generator returns is accepted as [`Certificate::from_generated`]
    /// says: the certificate is of the type that was asked for, and its
    /// public key is that of the key.
    pub fn new(
        ca: &Certificate,
        ca_privkey: &SecretKey,
        common_name: &str,
        certificate_type: CertificateType,
    ) -> (generated: Result<(Certificate, SecretKey), CertificateError>)
        ensures
            certificate_extensions(certificate_type@) is Err ==> (generated matches Err(error)
                && error is DerEncodingError),
            generated matches Err(error) ==> (error is DerEncodingError <==> certificate_extensions(
                certificate_type@,
            ) is Err),
            generated matches Err(error) ==> error is GeneratingFailed
                || error is GeneratingPrivateKey || error is DerEncodingError,
            generated matches Ok((certificate, key)) ==> crate::x509::certificate_type(certificate@) == Ok::<
                CertificateTypeView,
                CertificateErrorKind,
            >(certificate_type@) && certificate_key(certificate@) == Some(
                p256_public_key_of(key@),
            ),
    {
        let extensions = match certificate_type.to_custom_exts() {
            Ok(extensions) => extensions,
            Err(error) => {
                return Err(error);
            },
        };
        proof {
            lemma_extensions_identified(certificate_type@);
            assert forall|k: int| 0 <= k < extensions@.len() implies is_object_identifier(
                (#[trigger] extensions@[k]).oid@,
            ) by {
                assert(extension_views(extensions@)[k].0 == extensions@[k].oid@);
            }
        }
        let scalar = ca_privkey.to_bytes();
        let ca_pkcs8 = match p256_pkcs8_of_scalar(scalar.as_slice()) {
            Ok(pkcs8) => pkcs8,
            Err(message) => {
                return Err(CertificateError::GeneratingPrivateKey(message));
            },
        };
        match generate_signed(common_name, &extensions, ca.0.as_slice(), ca_pkcs8.as_slice()) {
            Err(message) => Err(CertificateError::GeneratingFailed(message)),
            Ok((der, pkcs8)) => Self::from_generated(der, pkcs8.as_slice(), &certificate_type),
        }
    }

    /// Whether the public key of the certificate is that of a secret
    /// key.
    pub fn has_key(&self, key: &SecretKey) -> (same: bool)
        ensures
            same == (certificate_key(self@) == Some(p256_public_key_of(key@))),
    {
        match self.public_key() {
            Ok(found) => {
                let expected = key.public_key();
                same_bytes(found.to_sec1_bytes().as_slice(), expected.to_sec1_bytes().as_slice())
            },
            Err(_) => false,
        }
    }

    /// The secret key that a generated certificate came with.
    fn generated_key(pkcs8: &[u8]) -> (key: Result<SecretKey, CertificateError>)
        ensures
            match p256_pkcs8_scalar(pkcs8@) {
                None => key matches Err(error) && error is GeneratingPrivateKey,
                Some(scalar) => key matches Ok(found) && found@ == scalar,
            },
    {
        match p256_scalar_of_pkcs8(pkcs8) {
            Err(message) => Err(CertificateError::GeneratingPrivateKey(message)),
            Ok(scalar) => Ok(SecretKey::from_bytes(scalar.as_slice()).unwrap()),
        }
    }
}

/// The text that a certificate carries in an extension, if it holds the
/// extension: the value is a DER string, and the string a JSON document.
pub open spec fn custom_extension_text(der: Seq<u8>, oid: Seq<u8>) -> Result<
    Option<Seq<char>>,
    CertificateErrorKind,
> {
    match x509_extension(der, oid) {
        ExtensionReading::Unparsable => Err(CertificateErrorKind::ContentParsing),
        ExtensionReading::Absent => Ok(None),
        ExtensionReading::Present(value) => match der_utf8_text(value) {
            None => Err(CertificateErrorKind::DerEncodingError),
            Some(text) => if is_json_document(text) {
                Ok(Some(text))
            } else {
                Err(CertificateErrorKind::JsonEncodingError)
            },
        },
    }
}

/// Usage of a [`Certificate`], representing its Extended Key Usage (EKU).
/// [`Certificate::verify()`] receives this as parameter and enforces that
/// it is present in the certificate being verified.
#[derive(Debug, Clone, Copy, PartialEq, Eq, Structural)]
pub enum CertificateUsage {
    Mdl,
    ReaderAuth,
}

/// The usage that a list of extended key usages names: the one usage of
/// the list, if it is one of the two that are known.
pub open spec fn usage_of(other: Seq<Seq<u8>>) -> Result<CertificateUsage, CertificateErrorKind> {
    if other.len() != 1 {
        Err(CertificateErrorKind::IncorrectEkuCount(other.len() as usize))
    } else if other[0] == EXTENDED_KEY_USAGE_MDL@ {
        Ok(CertificateUsage::Mdl)
    } else if other[0] == EXTENDED_KEY_USAGE_READER_AUTH@ {
        Ok(CertificateUsage::ReaderAuth)
    } else {
        Err(CertificateErrorKind::IncorrectEku(oid_id_string(other[0])))
    }
}

/// The usage of a certificate.
pub open spec fn certificate_usage(der: Seq<u8>) -> Result<CertificateUsage, CertificateErrorKind> {
    match x509_other_key_usages(der) {
        KeyUsageReading::Unparsable => Err(CertificateErrorKind::ContentParsing),
        KeyUsageReading::Malformed => Err(CertificateErrorKind::X509Error),
        KeyUsageReading::Absent => Err(CertificateErrorKind::IncorrectEkuCount(0)),
        KeyUsageReading::Present(other) => usage_of(other),
    }
}

/// A certificate with another number than one of usages that are none
/// of the common ones is refused for that number; one whose single such
/// usage is none of the two known is refused for that usage. Its type is
/// then not read either.
pub proof fn lemma_usage_errors(der: Seq<u8>, other: Seq<Seq<u8>>)
    requires
        x509_other_key_usages(der) == KeyUsageReading::Present(other),
    ensures
        other.len() != 1 ==> certificate_usage(der) == Err::<
            CertificateUsage,
            CertificateErrorKind,
        >(CertificateErrorKind::IncorrectEkuCount(other.len() as usize)) && certificate_type(der)
            == Err::<CertificateTypeView, CertificateErrorKind>(
            CertificateErrorKind::IncorrectEkuCount(other.len() as usize),
        ),
        other.len() == 1 && other[0] != EXTENDED_KEY_USAGE_MDL@ && other[0]
            != EXTENDED_KEY_USAGE_READER_AUTH@ ==> certificate_usage(der) == Err::<
            CertificateUsage,
            CertificateErrorKind,
        >(CertificateErrorKind::IncorrectEku(oid_id_string(other[0]))) && certificate_type(der)
            == Err::<CertificateTypeView, CertificateErrorKind>(
            CertificateErrorKind::IncorrectEku(oid_id_string(other[0])),
        ),
        certificate_usage(der) is Ok <==> other.len() == 1 && (other[0] == EXTENDED_KEY_USAGE_MDL@
            || other[0] == EXTENDED_KEY_USAGE_READER_AUTH@),
{
}

/// A certificate without extended key usages is refused for their
/// number, zero.
pub proof fn lemma_usage_absent(der: Seq<u8>)
    requires
        x509_other_key_usages(der) is Absent,
    ensures
        certificate_usage(der) == Err::<CertificateUsage, CertificateErrorKind>(
            CertificateErrorKind::IncorrectEkuCount(0),
        ),
        certificate_type(der) == Err::<CertificateTypeView, CertificateErrorKind>(
            CertificateErrorKind::IncorrectEkuCount(0),
        ),
{
}

impl CertificateUsage {
    /// The encoding of the object identifier of this usage.
    pub open spec fn eku(self) -> Seq<u8> {
        match self {
            CertificateUsage::Mdl => EXTENDED_KEY_USAGE_MDL@,
            CertificateUsage::ReaderAuth => EXTENDED_KEY_USAGE_READER_AUTH@,
        }
    }

    /// The usage of a certificate: of its extended key usages exactly one
    /// must be none of the common ones, and that one must be known.
    pub fn from_certificate(cert: &Certificate) -> (usage: Result<Self, CertificateError>)
        ensures
            match certificate_usage(cert@) {
                Ok(expected) => usage == Ok::<CertificateUsage, CertificateError>(expected),
                Err(kind) => usage is Err && usage.unwrap_err().kind() == kind,
            },
    {
        match read_other_key_usages(cert.as_bytes()) {
            Err(error) => Err(error),
            Ok(None) => Err(CertificateError::IncorrectEkuCount(0)),
            Ok(Some(other)) => Self::from_key_usage(&other),
        }
    }

    /// The usage that a list of extended key usages names.
    pub fn from_key_usage(other: &Vec<Vec<u8>>) -> (usage: Result<Self, CertificateError>)
        ensures
            match usage_of(other.deep_view()) {
                Ok(expected) => usage == Ok::<CertificateUsage, CertificateError>(expected),
                Err(kind) => usage is Err && usage.unwrap_err().kind() == kind,
            },
    {
        if other.len() != 1 {
            return Err(CertificateError::IncorrectEkuCount(other.len()));
        }
        let key_usage_oid = &other[0];
        assert(other.deep_view()[0] == key_usage_oid@);
        if same_bytes(key_usage_oid.as_slice(), EXTENDED_KEY_USAGE_MDL.as_slice()) {
            return Ok(Self::Mdl);
        } else if same_bytes(key_usage_oid.as_slice(), EXTENDED_KEY_USAGE_READER_AUTH.as_slice()) {
            return Ok(Self::ReaderAuth);
        }
        Err(CertificateError::IncorrectEku(oid_to_id_string(key_usage_oid.as_slice())))
    }

    /// The encoding of the object identifier of this usage.
    pub fn to_eku(&self) -> (eku: &'static [u8])
        ensures
            eku@ == self.eku(),
    {
        match self {
            CertificateUsage::Mdl => &EXTENDED_KEY_USAGE_MDL,
            CertificateUsage::ReaderAuth => &EXTENDED_KEY_USAGE_READER_AUTH,
        }
    }

    /// The value of the extension "extended key usage" that names this
    /// usage alone: a DER sequence of its object identifier.
    pub open spec fn extension_content(self) -> Seq<u8> {
        seq![DER_SEQUENCE, (self.eku().len() + 2) as u8, DER_OBJECT_IDENTIFIER, self.eku().len() as u8]
            + self.eku()
    }

    /// The extension of a certificate to generate that names this usage:
    /// "extended key usage", critical, with this usage alone.
    pub fn to_custom_ext(&self) -> (extension: CustomExtension)
        ensures
            extension.oid@ == OID_EXT_KEY_USAGE@,
            extension.critical,
            extension.content@ == self.extension_content(),
    {
        let eku = self.to_eku();
        let mut content: Vec<u8> = Vec::new();
        content.push(DER_SEQUENCE);
        content.push((eku.len() + 2) as u8);
        content.push(DER_OBJECT_IDENTIFIER);
        content.push(eku.len() as u8);
        crate::cbor::push_raw(&mut content, eku);
        assert(content@ =~= self.extension_content());
        let mut oid: Vec<u64> = Vec::new();
        oid.push(OID_EXT_KEY_USAGE[0]);
        oid.push(OID_EXT_KEY_USAGE[1]);
        oid.push(OID_EXT_KEY_USAGE[2]);
        oid.push(OID_EXT_KEY_USAGE[3]);
        assert(oid@ =~= OID_EXT_KEY_USAGE@);
        CustomExtension { oid, critical: true, content }
    }
}

/// The registration of an issuer that its certificate carries: a JSON
/// document.
#[derive(Debug, PartialEq, Eq)]
pub struct IssuerRegistration {
    pub json: String,
}

/// The registration of a reader that its certificate carries: a JSON
/// document.
#[derive(Debug, PartialEq, Eq)]
pub struct ReaderRegistration {
    pub json: String,
}

impl Clone for IssuerRegistration {
    fn clone(&self) -> (copy: Self)
        ensures
            copy.json@ == self.json@,
    {
        IssuerRegistration { json: self.json.clone() }
    }
}

impl Clone for ReaderRegistration {
    fn clone(&self) -> (copy: Self)
        ensures
            copy.json@ == self.json@,
    {
        ReaderRegistration { json: self.json.clone() }
    }
}

/// The extension that carries a registration: not critical, the JSON
/// document as a DER string.
pub open spec fn registration_extension(oid: Seq<u64>, json: Seq<char>) -> Result<
    (Seq<u64>, bool, Seq<u8>),
    CertificateErrorKind,
> {
    if der_utf8_fits(json) {
        Ok((oid, false, utf8_string_der(json)))
    } else {
        Err(CertificateErrorKind::DerEncodingError)
    }
}

/// The extension of a certificate to generate that carries a
/// registration under an object identifier: the JSON document as a DER
/// string. It is not critical: the verification of a chain refuses a
/// critical extension that it does not know.
fn registration_to_custom_ext(arcs: &[u64], json: &str) -> (extension: Result<
    CustomExtension,
    CertificateError,
>)
    ensures
        match registration_extension(arcs@, json@) {
            Ok((oid, critical, content)) => extension is Ok && extension.unwrap().oid@ == oid
                && extension.unwrap().critical == critical && extension.unwrap().content@
                == content,
            Err(kind) => extension is Err && extension.unwrap_err().kind() == kind,
        },
{
    match encode_der_utf8(json) {
        Err(message) => Err(CertificateError::DerEncodingError(message)),
        Ok(content) => {
            let mut oid: Vec<u64> = Vec::new();
            let mut i: usize = 0;
            while i < arcs.len()
                invariant
                    i <= arcs.len(),
                    oid@ == arcs@.take(i as int),
                decreases arcs.len() - i,
            {
                oid.push(arcs[i]);
                assert(arcs@.take(i as int + 1) =~= arcs@.take(i as int).push(arcs@[i as int]));
                i += 1;
            }
            assert(arcs@.take(arcs.len() as int) =~= arcs@);
            Ok(CustomExtension { oid, critical: false, content })
        },
    }
}

impl IssuerRegistration {
    /// The registration that a certificate carries, if it carries one.
    pub fn from_certificate(cert: &Certificate) -> (registration: Result<
        Option<IssuerRegistration>,
        CertificateError,
    >)
        ensures
            match custom_extension_text(cert@, OID_EXT_ISSUER_AUTH_DER@) {
                Ok(Some(text)) => registration is Ok && registration.unwrap() is Some
                    && registration.unwrap().unwrap().json@ == text,
                Ok(None) => registration is Ok && registration.unwrap() is None,
                Err(kind) => registration is Err && registration.unwrap_err().kind() == kind,
            },
    {
        match cert.extract_custom_ext(OID_EXT_ISSUER_AUTH_DER.as_slice()) {
            Err(error) => Err(error),
            Ok(None) => Ok(None),
            Ok(Some(json)) => Ok(Some(IssuerRegistration { json })),
        }
    }

    /// The extension that carries this registration.
    pub fn to_custom_ext(&self) -> (extension: Result<CustomExtension, CertificateError>)
        ensures
            match registration_extension(OID_EXT_ISSUER_AUTH@, self.json@) {
                Ok((oid, critical, content)) => extension is Ok && extension.unwrap().oid@ == oid
                    && extension.unwrap().critical == critical && extension.unwrap().content@
                    == content,
                Err(kind) => extension is Err && extension.unwrap_err().kind() == kind,
            },
    {
        registration_to_custom_ext(OID_EXT_ISSUER_AUTH.as_slice(), self.json.as_str())
    }
}

impl ReaderRegistration {
    /// The registration that a certificate carries, if it carries one.
    pub fn from_certificate(cert: &Certificate) -> (registration: Result<
        Option<ReaderRegistration>,
        CertificateError,
    >)
        ensures
            match custom_extension_text(cert@, OID_EXT_READER_AUTH_DER@) {
                Ok(Some(text)) => registration is Ok && registration.unwrap() is Some
                    && registration.unwrap().unwrap().json@ == text,
                Ok(None) => registration is Ok && registration.unwrap() is None,
                Err(kind) => registration is Err && registration.unwrap_err().kind() == kind,
            },
    {
        match cert.extract_custom_ext(OID_EXT_READER_AUTH_DER.as_slice()) {
            Err(error) => Err(error),
            Ok(None) => Ok(None),
            Ok(Some(json)) => Ok(Some(ReaderRegistration { json })),
        }
    }

    /// The extension that carries this registration.
    pub fn to_custom_ext(&self) -> (extension: Result<CustomExtension, CertificateError>)
        ensures
            match registration_extension(OID_EXT_READER_AUTH@, self.json@) {
                Ok((oid, critical, content)) => extension is Ok && extension.unwrap().oid@ == oid
                    && extension.unwrap().critical == critical && extension.unwrap().content@
                    == content,
                Err(kind) => extension is Err && extension.unwrap_err().kind() == kind,
            },
    {
        registration_to_custom_ext(OID_EXT_READER_AUTH.as_slice(), self.json.as_str())
    }
}

/// The usage of a certificate with the registration that it carries.
/// Acts as configuration for the [`Certificate::new`] function.
#[derive(Debug, PartialEq, Eq)]
pub enum CertificateType {
    Mdl(Option<Box<IssuerRegistration>>),
    ReaderAuth(Option<Box<ReaderRegistration>>),
}

pub enum CertificateTypeView {
    Mdl(Option<Seq<char>>),
    ReaderAuth(Option<Seq<char>>),
}

impl View for CertificateType {
    type V = CertificateTypeView;

    open spec fn view(&self) -> CertificateTypeView {
        match self {
            CertificateType::Mdl(registration) => CertificateTypeView::Mdl(
                match registration {
                    Some(registration) => Some(registration.json@),
                    None => None,
                },
            ),
            CertificateType::ReaderAuth(registration) => CertificateTypeView::ReaderAuth(
                match registration {
                    Some(registration) => Some(registration.json@),
                    None => None,
                },
            ),
        }
    }
}

impl Clone for CertificateType {
    fn clone(&self) -> (copy: Self)
        ensures
            copy@ == self@,
    {
        match self {
            CertificateType::Mdl(None) => CertificateType::Mdl(None),
            CertificateType::Mdl(Some(registration)) => CertificateType::Mdl(
                Some(Box::new(IssuerRegistration { json: registration.json.clone() })),
            ),
            CertificateType::ReaderAuth(None) => CertificateType::ReaderAuth(None),
            CertificateType::ReaderAuth(Some(registration)) => CertificateType::ReaderAuth(
                Some(Box::new(ReaderRegistration { json: registration.json.clone() })),
            ),
        }
    }
}

/// The type of a certificate: its usage, and the registration that it
/// carries under the object identifier of that usage.
pub open spec fn certificate_type(der: Seq<u8>) -> Result<CertificateTypeView, CertificateErrorKind> {
    match certificate_usage(der) {
        Err(kind) => Err(kind),
        Ok(CertificateUsage::Mdl) => match custom_extension_text(der, OID_EXT_ISSUER_AUTH_DER@) {
            Err(kind) => Err(kind),
            Ok(registration) => Ok(CertificateTypeView::Mdl(registration)),
        },
        Ok(CertificateUsage::ReaderAuth) => match custom_extension_text(
            der,
            OID_EXT_READER_AUTH_DER@,
        ) {
            Err(kind) => Err(kind),
            Ok(registration) => Ok(CertificateTypeView::ReaderAuth(registration)),
        },
    }
}

/// The usage of a type of certificate.
pub open spec fn usage_of_type(certificate_type: CertificateTypeView) -> CertificateUsage {
    match certificate_type {
        CertificateTypeView::Mdl(_) => CertificateUsage::Mdl,
        CertificateTypeView::ReaderAuth(_) => CertificateUsage::ReaderAuth,
    }
}

/// The extensions of a certificate of a type: the usage and, where there
/// is one, the registration.
pub open spec fn certificate_extensions(certificate_type: CertificateTypeView) -> Result<
    Seq<(Seq<u64>, bool, Seq<u8>)>,
    CertificateErrorKind,
> {
    let usage = (
        OID_EXT_KEY_USAGE@,
        true,
        usage_of_type(certificate_type).extension_content(),
    );
    match certificate_type {
        CertificateTypeView::Mdl(Some(json)) => match registration_extension(
            OID_EXT_ISSUER_AUTH@,
            json,
        ) {
            Ok(registration) => Ok(seq![usage, registration]),
            Err(kind) => Err(kind),
        },
        CertificateTypeView::ReaderAuth(Some(json)) => match registration_extension(
            OID_EXT_READER_AUTH@,
            json,
        ) {
            Ok(registration) => Ok(seq![usage, registration]),
            Err(kind) => Err(kind),
        },
        _ => Ok(seq![usage]),
    }
}

/// Extensions as plain values.
pub open spec fn extension_views(extensions: Seq<CustomExtension>) -> Seq<
    (Seq<u64>, bool, Seq<u8>),
> {
    Seq::new(
        extensions.len(),
        |i: int| (extensions[i].oid@, extensions[i].critical, extensions[i].content@),
    )
}

/// The identifiers of the extensions of a certificate of any type can be
/// written.
pub proof fn lemma_extensions_identified(certificate_type: CertificateTypeView)
    ensures
        certificate_extensions(certificate_type) matches Ok(extensions) ==> forall|k: int|
            0 <= k < extensions.len() ==> is_object_identifier((#[trigger] extensions[k]).0),
{
}

impl CertificateType {
    /// Whether two types of certificate are the same: of the same usage,
    /// with the same registration or none.
    pub fn same_as(&self, other: &CertificateType) -> (same: bool)
        ensures
            same == (self@ == other@),
    {
        match (self, other) {
            (CertificateType::Mdl(None), CertificateType::Mdl(None)) => true,
            (CertificateType::Mdl(Some(left)), CertificateType::Mdl(Some(right))) => left.json
                == right.json,
            (CertificateType::ReaderAuth(None), CertificateType::ReaderAuth(None)) => true,
            (
                CertificateType::ReaderAuth(Some(left)),
                CertificateType::ReaderAuth(Some(right)),
            ) => left.json == right.json,
            _ => false,
        }
    }

    /// The type of a certificate.
    pub fn from_certificate(cert: &Certificate) -> (found: Result<Self, CertificateError>)
        ensures
            match certificate_type(cert@) {
                Ok(expected) => found is Ok && found.unwrap()@ == expected,
                Err(kind) => found is Err && found.unwrap_err().kind() == kind,
            },
    {
        let usage = match CertificateUsage::from_certificate(cert) {
            Ok(usage) => usage,
            Err(error) => {
                return Err(error);
            },
        };
        match usage {
            CertificateUsage::Mdl => match IssuerRegistration::from_certificate(cert) {
                Err(error) => Err(error),
                Ok(None) => Ok(CertificateType::Mdl(None)),
                Ok(Some(registration)) => Ok(CertificateType::Mdl(Some(Box::new(registration)))),
            },
            CertificateUsage::ReaderAuth => match ReaderRegistration::from_certificate(cert) {
                Err(error) => Err(error),
                Ok(None) => Ok(CertificateType::ReaderAuth(None)),
                Ok(Some(registration)) => Ok(
                    CertificateType::ReaderAuth(Some(Box::new(registration))),
                ),
            },
        }
    }

    /// The usage of this type of certificate.
    pub fn usage(&self) -> (usage: CertificateUsage)
        ensures
            usage == usage_of_type(self@),
    {
        match self {
            CertificateType::Mdl(_) => CertificateUsage::Mdl,
            CertificateType::ReaderAuth(_) => CertificateUsage::ReaderAuth,
        }
    }

    /// The extensions of a certificate of this type to generate.
    pub fn to_custom_exts(&self) -> (extensions: Result<Vec<CustomExtension>, CertificateError>)
        ensures
            match certificate_extensions(self@) {
                Ok(expected) => extensions is Ok && extension_views(extensions.unwrap()@)
                    == expected,
                Err(kind) => extensions is Err && extensions.unwrap_err().kind() == kind,
            },
    {
        let usage = self.usage();
        let mut extensions: Vec<CustomExtension> = Vec::new();
        extensions.push(usage.to_custom_ext());
        match self {
            CertificateType::ReaderAuth(Some(reader_registration)) => {
                match reader_registration.to_custom_ext() {
                    Ok(ext_reader_auth) => extensions.push(ext_reader_auth),
                    Err(error) => {
                        return Err(error);
                    },
                }
            },
            CertificateType::Mdl(Some(issuer_registration)) => {
                match issuer_registration.to_custom_ext() {
                    Ok(ext_issuer_auth) => extensions.push(ext_issuer_auth),
                    Err(error) => {
                        return Err(error);
                    },
                }
            },
            _ => {},
        }
        assert(certificate_extensions(self@) matches Ok(expected) && extension_views(extensions@)
            =~= expected);
        Ok(extensions)
    }
}

} // verus!
