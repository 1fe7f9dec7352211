//! Example values: the request and the credential of the standard's
//! example, and a source of credentials that holds it.

use crate::cbor::{
    array_head, bytes, head, map_head, null, push_array_head, push_bytes, push_head,
    push_map_head, push_null, push_raw, push_text, text, MAJOR_TAG,
};
use crate::cose::{CoseKey, KeyType, Label, ParamValue, CURVE_P256, KEY_TYPE_EC2, PARAM_CURVE, PARAM_X, PARAM_Y};
use crate::crypto::ec2_cose_key;
use crate::device_retrieval::{
    requested_attribute_entries, requested_attributes_insert, requested_attributes_new,
    requested_name_spaces_insert, requested_name_spaces_new, ItemsRequest, ItemsRequestView,
    RequestedAttributesView,
};
use crate::disclosure::SessionStatus;
use crate::identifiers::{
    identifier_set_insert, identifier_set_items, identifier_set_new, AttributeIdentifier,
    AttributeIdentifierView,
};
use crate::mdocs::{
    first_occurrences, name_space_entries, name_spaces_insert, name_spaces_new, Entry, EntryView,
    IssuerAuth, IssuerAuthView, IssuerSigned, IssuerSignedView, Mdoc, MdocView, StoredMdoc,
};
use crate::ordered_map::{lemma_key_absent, upsert};
use crate::proposed_document::ProposedDocument;
use crate::cose::{protected_header, protected_header_es256, sig_structure, signature_input};
use crate::crypto::{
    aes256_gcm_seal, p256_public_key_of, p256_shared_secret, session_key_bytes, session_nonce,
    verifying_key_of_cose, CryptoError, SecretKey, SessionKey, SessionKeyUser, VerifyingKey,
    HASH_INPUT_LIMIT,
};
use crate::device_retrieval::{
    device_request_bytes, reader_authentication, reader_authentication_bytes, request_verdict,
    DeviceRequest, DocRequest, ReaderAuth, RequestVerdict, DEVICE_REQUEST_VERSION,
};
use crate::disclosure::{SessionData, SessionDataView};
use crate::cose::cose_key_bytes;
use crate::engagement::{
    engagement_bytes, DeviceEngagement, Engagement, Handover, HandoverView, ReaderEngagement,
    SessionTranscript, SessionTranscriptView, SessionType,
};
use crate::errors::Error;
use crate::keys::{ecdsa_p256_signature, sign_message};
use crate::proposed_document::stored_view;
use crate::session::{
    is_list_of, list_position, matched_doc_type, matched_doc_types, matched_views, stored_lists,
    AwaitingRequest, Matched,
};
use crate::text::{decimal, decimal_digits};
use crate::x509::{
    certificate_extensions, certificate_key, certificate_type, chain_verification, Certificate,
    CertificateError, CertificateErrorKind, CertificateType, CertificateTypeView,
    CertificateUsage, Generator, ReaderRegistration, TimeGenerator,
};
use indexmap::IndexSet;
use vstd::prelude::*;

verus! {

pub const RP_CA_CN: &'static str = "ca.rp.example.com";

pub const RP_CERT_CN: &'static str = "cert.rp.example.com";

pub const SESSION_URL: &'static str = "http://example.com/disclosure";

pub const RETURN_URL: &'static str = "http://example.com/return";

/// The document type of the example credential.
pub const EXAMPLE_DOC_TYPE: &'static str = "org.iso.18013.5.1.mDL";

/// The name space of the example credential.
pub const EXAMPLE_NAMESPACE: &'static str = "org.iso.18013.5.1";

/// The attributes of the example credential, in its order.
pub const EXAMPLE_ATTRIBUTES: [&'static str; 5] = [
    "family_name",
    "issue_date",
    "expiry_date",
    "document_number",
    "driving_privileges",
];

/// The name of the device key of the example credential.
pub const EXAMPLE_KEY_IDENTIFIER: &'static str = "example_key_identifier";

/// The number of the tag of a full date.
pub const TAG_FULL_DATE: u64 = 1004;

/// The x coordinate of the device key of the example credential: that of
/// the base point of P-256.
pub const EXAMPLE_KEY_X: [u8; 32] = [
    0x6b, 0x17, 0xd1, 0xf2, 0xe1, 0x2c, 0x42, 0x47, 0xf8, 0xbc, 0xe6, 0xe5, 0x63, 0xa4, 0x40, 0xf2,
    0x77, 0x03, 0x7d, 0x81, 0x2d, 0xeb, 0x33, 0xa0, 0xf4, 0xa1, 0x39, 0x45, 0xd8, 0x98, 0xc2, 0x96,
];

/// The y coordinate of the device key of the example credential.
pub const EXAMPLE_KEY_Y: [u8; 32] = [
    0x4f, 0xe3, 0x42, 0xe2, 0xfe, 0x1a, 0x7f, 0x9b, 0x8e, 0xe7, 0xeb, 0x4a, 0x7c, 0x0f, 0x9e, 0x16,
    0x2b, 0xce, 0x33, 0x57, 0x6b, 0x31, 0x5e, 0xce, 0xcb, 0xb6, 0x40, 0x68, 0x37, 0xbf, 0x51, 0xf5,
];

/// The length of the salt of an example entry.
pub const EXAMPLE_SALT_LEN: usize = 16;

/// The name under which storage keeps a credential.
pub type MdocIdentifier = String;

/// The intents of a request that retains nothing: each attribute once,
/// where it first stands, with the intent `false`.
pub open spec fn intents(attributes: Seq<Seq<char>>) -> RequestedAttributesView
    decreases attributes.len(),
{
    if attributes.len() == 0 {
        Seq::empty()
    } else {
        upsert(intents(attributes.drop_last()), attributes.last(), false)
    }
}

/// Build an [`ItemsRequest`] from a list of attributes of one name space.
pub fn items_request(doc_type: String, name_space: String, attributes: Vec<String>) -> (request:
    ItemsRequest)
    ensures
        request@ == (ItemsRequestView {
            doc_type: doc_type@,
            name_spaces: seq![(name_space@, intents(attributes.deep_view()))],
            request_info: None,
        }),
{
    let ghost names = attributes.deep_view();
    let mut requested = requested_attributes_new();
    let mut i: usize = 0;
    assert(names.take(0) =~= Seq::empty());
    while i < attributes.len()
        invariant
            i <= attributes.len(),
            names == attributes.deep_view(),
            requested_attribute_entries(requested) == intents(names.take(i as int)),
        decreases attributes.len() - i,
    {
        proof {
            let next = names.take(i as int + 1);
            assert(next.drop_last() =~= names.take(i as int));
            assert(next.last() == attributes[i as int]@);
        }
        requested_attributes_insert(&mut requested, attributes[i].clone(), false);
        i += 1;
    }
    assert(names.take(attributes.len() as int) =~= names);
    let mut name_spaces = requested_name_spaces_new();
    proof {
        lemma_key_absent(Seq::<(Seq<char>, RequestedAttributesView)>::empty(), name_space@);
    }
    requested_name_spaces_insert(&mut name_spaces, name_space, requested);
    let request = ItemsRequest { doc_type, name_spaces, request_info: None };
    assert(request@.name_spaces =~= seq![(name_space@, intents(names))]);
    request
}

/// The names of the example attributes.
pub open spec fn example_attributes() -> Seq<Seq<char>> {
    seq![
        "family_name"@,
        "issue_date"@,
        "expiry_date"@,
        "document_number"@,
        "driving_privileges"@,
    ]
}

/// The names of the example attributes.
pub fn example_attribute_names() -> (names: Vec<String>)
    ensures
        names.deep_view() == example_attributes(),
{
    let mut names: Vec<String> = Vec::new();
    names.push("family_name".to_owned());
    names.push("issue_date".to_owned());
    names.push("expiry_date".to_owned());
    names.push("document_number".to_owned());
    names.push("driving_privileges".to_owned());
    assert(names.deep_view() =~= example_attributes());
    names
}

/// The request for all attributes of the example credential.
pub fn example_items_request() -> (request: ItemsRequest)
    ensures
        request@ == (ItemsRequestView {
            doc_type: EXAMPLE_DOC_TYPE@,
            name_spaces: seq![(EXAMPLE_NAMESPACE@, intents(example_attributes()))],
            request_info: None,
        }),
{
    items_request(
        EXAMPLE_DOC_TYPE.to_owned(),
        EXAMPLE_NAMESPACE.to_owned(),
        example_attribute_names(),
    )
}

/// The request for the example document type that asks for no attribute.
pub fn emtpy_items_request() -> (request: ItemsRequest)
    ensures
        request@ == (ItemsRequestView {
            doc_type: EXAMPLE_DOC_TYPE@,
            name_spaces: seq![(EXAMPLE_NAMESPACE@, Seq::<(Seq<char>, bool)>::empty())],
            request_info: None,
        }),
{
    let request = items_request(
        EXAMPLE_DOC_TYPE.to_owned(),
        EXAMPLE_NAMESPACE.to_owned(),
        Vec::new(),
    );
    assert(Seq::<String>::empty().map_values(|s: String| s@) =~= Seq::<Seq<char>>::empty());
    request
}

/// The salt of an example entry: its digest number, sixteen times.
pub open spec fn example_salt(digest_id: u64) -> Seq<u8> {
    Seq::new(EXAMPLE_SALT_LEN as nat, |i: int| digest_id as u8)
}

/// The encoding of a full date.
pub open spec fn full_date(date: Seq<char>) -> Seq<u8> {
    head(MAJOR_TAG as int, TAG_FULL_DATE as int) + text(date)
}

/// The encoding of the driving privileges of the example: one vehicle
/// category.
pub open spec fn example_privileges() -> Seq<u8> {
    array_head(1) + map_head(1) + text("vehicle_category_code"@) + text("A"@)
}

/// The entries of the example credential.
pub open spec fn example_entries() -> Seq<EntryView> {
    seq![
        EntryView {
            digest_id: 0,
            random: example_salt(0),
            element_identifier: "family_name"@,
            element_value: text("Doe"@),
        },
        EntryView {
            digest_id: 3,
            random: example_salt(3),
            element_identifier: "issue_date"@,
            element_value: full_date("2019-10-20"@),
        },
        EntryView {
            digest_id: 4,
            random: example_salt(4),
            element_identifier: "expiry_date"@,
            element_value: full_date("2024-10-20"@),
        },
        EntryView {
            digest_id: 7,
            random: example_salt(7),
            element_identifier: "document_number"@,
            element_value: text("123456789"@),
        },
        EntryView {
            digest_id: 9,
            random: example_salt(9),
            element_identifier: "driving_privileges"@,
            element_value: example_privileges(),
        },
    ]
}

/// The signature block of the example credential: an envelope without
/// content, and the example device key.
pub open spec fn example_issuer_auth() -> IssuerAuthView {
    IssuerAuthView {
        cose: array_head(4) + bytes(Seq::empty()) + map_head(0) + null() + bytes(Seq::empty()),
        device_key: ec2_cose_key(EXAMPLE_KEY_X@, EXAMPLE_KEY_Y@),
    }
}

/// The example credential.
pub open spec fn example_mdoc() -> MdocView {
    MdocView {
        doc_type: EXAMPLE_DOC_TYPE@,
        private_key_id: EXAMPLE_KEY_IDENTIFIER@,
        issuer_signed: IssuerSignedView {
            name_spaces: Some(seq![(EXAMPLE_NAMESPACE@, example_entries())]),
            issuer_auth: example_issuer_auth(),
        },
    }
}

/// An entry of the example credential.
fn example_entry(digest_id: u64, element_identifier: &str, element_value: Vec<u8>) -> (entry: Entry)
    ensures
        entry@ == (EntryView {
            digest_id,
            random: example_salt(digest_id),
            element_identifier: element_identifier@,
            element_value: element_value@,
        }),
{
    let mut random: Vec<u8> = Vec::new();
    let mut i: usize = 0;
    while i < EXAMPLE_SALT_LEN
        invariant
            i <= EXAMPLE_SALT_LEN,
            random@.len() == i,
            forall|j: int| 0 <= j < i ==> random@[j] == digest_id as u8,
        decreases EXAMPLE_SALT_LEN - i,
    {
        random.push(digest_id as u8);
        i += 1;
    }
    assert(random@ =~= example_salt(digest_id));
    Entry { digest_id, random, element_identifier: element_identifier.to_owned(), element_value }
}

/// The encoding of a text.
fn encoded_text(content: &str) -> (encoded: Vec<u8>)
    ensures
        encoded@ == text(content@),
{
    let mut out: Vec<u8> = Vec::new();
    push_text(&mut out, content);
    assert(out@ =~= text(content@));
    out
}

/// The encoding of a full date.
fn encoded_date(date: &str) -> (encoded: Vec<u8>)
    ensures
        encoded@ == full_date(date@),
{
    let mut out: Vec<u8> = Vec::new();
    push_head(&mut out, MAJOR_TAG, TAG_FULL_DATE);
    push_text(&mut out, date);
    assert(out@ =~= full_date(date@));
    out
}

/// Create the example `Mdoc`.
pub fn create_example_mdoc() -> (mdoc: Mdoc)
    ensures
        mdoc@ == example_mdoc(),
{
    let mut privileges: Vec<u8> = Vec::new();
    push_array_head(&mut privileges, 1);
    push_map_head(&mut privileges, 1);
    push_text(&mut privileges, "vehicle_category_code");
    push_text(&mut privileges, "A");
    assert(privileges@ =~= example_privileges());
    let mut entries: Vec<Entry> = Vec::new();
    entries.push(example_entry(0, "family_name", encoded_text("Doe")));
    entries.push(example_entry(3, "issue_date", encoded_date("2019-10-20")));
    entries.push(example_entry(4, "expiry_date", encoded_date("2024-10-20")));
    entries.push(example_entry(7, "document_number", encoded_text("123456789")));
    entries.push(example_entry(9, "driving_privileges", privileges));
    assert(entries.deep_view() =~= example_entries());
    let mut name_spaces = name_spaces_new();
    proof {
        lemma_key_absent(Seq::<(Seq<char>, Seq<EntryView>)>::empty(), EXAMPLE_NAMESPACE@);
    }
    name_spaces_insert(&mut name_spaces, EXAMPLE_NAMESPACE.to_owned(), entries);
    assert(name_space_entries(name_spaces) =~= seq![(EXAMPLE_NAMESPACE@, example_entries())]);
    let mut cose: Vec<u8> = Vec::new();
    push_array_head(&mut cose, 4);
    push_bytes(&mut cose, Vec::new().as_slice());
    push_map_head(&mut cose, 0);
    push_null(&mut cose);
    push_bytes(&mut cose, Vec::new().as_slice());
    assert(cose@ =~= example_issuer_auth().cose);
    let mut x: Vec<u8> = Vec::new();
    push_raw(&mut x, EXAMPLE_KEY_X.as_slice());
    let mut y: Vec<u8> = Vec::new();
    push_raw(&mut y, EXAMPLE_KEY_Y.as_slice());
    assert(x@ =~= EXAMPLE_KEY_X@);
    assert(y@ =~= EXAMPLE_KEY_Y@);
    let mut params: Vec<(Label, ParamValue)> = Vec::new();
    params.push((Label::Int(PARAM_CURVE), ParamValue::Integer(CURVE_P256)));
    params.push((Label::Int(PARAM_X), ParamValue::Bytes(x)));
    params.push((Label::Int(PARAM_Y), ParamValue::Bytes(y)));
    let device_key = CoseKey { kty: KeyType::Assigned(KEY_TYPE_EC2), params };
    assert(device_key@.params =~= example_issuer_auth().device_key.params);
    Mdoc {
        doc_type: EXAMPLE_DOC_TYPE.to_owned(),
        private_key_id: EXAMPLE_KEY_IDENTIFIER.to_owned(),
        issuer_signed: IssuerSigned {
            name_spaces: Some(name_spaces),
            issuer_auth: IssuerAuth { cose, device_key },
        },
    }
}

/// Create `ProposedDocument` based on the example `Mdoc`.
pub fn create_example_proposed_document() -> (proposed: ProposedDocument<MdocIdentifier>)
    ensures
        proposed.source_identifier@ == "id_1234"@,
        proposed@.private_key_id == example_mdoc().private_key_id,
        proposed@.doc_type == example_mdoc().doc_type,
        proposed@.issuer_signed == example_mdoc().issuer_signed,
        proposed@.device_signed_challenge == vstd::utf8::encode_utf8("signing_challenge"@),
{
    let mdoc = create_example_mdoc();
    let mut challenge: Vec<u8> = Vec::new();
    push_raw(&mut challenge, "signing_challenge".as_bytes());
    assert(challenge@ =~= vstd::utf8::encode_utf8("signing_challenge"@));
    ProposedDocument {
        source_identifier: "id_1234".to_owned(),
        private_key_id: mdoc.private_key_id,
        doc_type: mdoc.doc_type,
        issuer_signed: mdoc.issuer_signed,
        device_signed_challenge: challenge,
    }
}

/// The `AttributeIdentifier`s contained in the example `Mdoc`.
pub fn example_mdoc_attribute_identifiers() -> (set: IndexSet<AttributeIdentifier>)
    ensures
        identifier_set_items(set) == example_mdoc().attribute_identifiers(),
{
    create_example_mdoc().issuer_signed_attribute_identifiers()
}

/// The identifiers of some attributes within the example document type
/// and name space.
pub open spec fn example_identifiers(attributes: Seq<Seq<char>>) -> Seq<AttributeIdentifierView> {
    Seq::new(attributes.len(), |i: int| (EXAMPLE_DOC_TYPE@, EXAMPLE_NAMESPACE@, attributes[i]))
}

/// Create an ordered set of `AttributeIdentifier`s within the example doc
/// type and name space for a given set of attributes.
pub fn example_identifiers_from_attributes(attributes: Vec<String>) -> (set: IndexSet<
    AttributeIdentifier,
>)
    ensures
        identifier_set_items(set) == first_occurrences(
            example_identifiers(attributes.deep_view()),
        ),
{
    let ghost ids = example_identifiers(attributes.deep_view());
    let mut set = identifier_set_new();
    let mut i: usize = 0;
    assert(ids.take(0) =~= Seq::empty());
    while i < attributes.len()
        invariant
            i <= attributes.len(),
            ids == example_identifiers(attributes.deep_view()),
            identifier_set_items(set) == first_occurrences(ids.take(i as int)),
        decreases attributes.len() - i,
    {
        let identifier: AttributeIdentifier = (
            EXAMPLE_DOC_TYPE.to_owned(),
            EXAMPLE_NAMESPACE.to_owned(),
            attributes[i].clone(),
        );
        proof {
            let next = ids.take(i as int + 1);
            assert(next.drop_last() =~= ids.take(i as int));
            assert(next.last() == identifier@);
        }
        identifier_set_insert(&mut set, identifier);
        i += 1;
    }
    assert(ids.take(attributes.len() as int) =~= ids);
    set
}

/// Why a source of credentials gave none.
#[derive(Debug, Clone, Copy, PartialEq, Eq, Structural)]
pub enum MdocDataSourceError {
    Failed,
}

/// A source of credentials that holds some credentials of the example
/// document type, or fails.
#[derive(Debug)]
pub struct MockMdocDataSource {
    pub mdocs: Vec<Mdoc>,
    pub has_error: bool,
}

impl Default for MockMdocDataSource {
    fn default() -> (source: Self)
        ensures
            !source.has_error,
            source.mdocs@.len() == 1,
            source.mdocs@[0]@ == example_mdoc(),
    {
        let mut mdocs: Vec<Mdoc> = Vec::new();
        mdocs.push(create_example_mdoc());
        MockMdocDataSource { mdocs, has_error: false }
    }
}

/// The name under which the mock source keeps the credential at a
/// position: "id_" and the position, counted from one.
pub open spec fn mock_identifier(position: int) -> Seq<char> {
    "id_"@ + decimal_digits((position + 1) as nat)
}

impl MockMdocDataSource {
    /// The credentials of the requested document types, one list for each
    /// type of which the source holds any: all that the source holds, if
    /// the example document type is among the requested, and nothing
    /// else.
    pub fn mdoc_by_doc_types(&self, doc_types: &Vec<String>) -> (found: Result<
        Vec<Vec<StoredMdoc<MdocIdentifier>>>,
        MdocDataSourceError,
    >)
        ensures
            self.has_error ==> found is Err,
            !self.has_error ==> found is Ok,
            !self.has_error && !doc_types.deep_view().contains(EXAMPLE_DOC_TYPE@)
                ==> found.unwrap()@.len() == 0,
            !self.has_error && doc_types.deep_view().contains(EXAMPLE_DOC_TYPE@) ==> {
                &&& found.unwrap()@.len() == 1
                &&& found.unwrap()@[0]@.len() == self.mdocs@.len()
                &&& forall|k: int|
                    0 <= k < self.mdocs@.len() ==> (#[trigger] found.unwrap()@[0]@[k]).id@
                        == mock_identifier(k) && found.unwrap()@[0]@[k].mdoc@ == self.mdocs@[k]@
            },
    {
        if self.has_error {
            return Err(MdocDataSourceError::Failed);
        }
        let example = EXAMPLE_DOC_TYPE.to_owned();
        let mut requested = false;
        let mut i: usize = 0;
        while i < doc_types.len()
            invariant
                i <= doc_types.len(),
                example@ == EXAMPLE_DOC_TYPE@,
                requested == doc_types.deep_view().take(i as int).contains(EXAMPLE_DOC_TYPE@),
            decreases doc_types.len() - i,
        {
            proof {
                let before = doc_types.deep_view().take(i as int);
                let next = doc_types.deep_view().take(i as int + 1);
                assert(next =~= before.push(doc_types[i as int]@));
                if before.contains(EXAMPLE_DOC_TYPE@) {
                    let k = choose|k: int| 0 <= k < before.len() && before[k] == EXAMPLE_DOC_TYPE@;
                    assert(next[k] == EXAMPLE_DOC_TYPE@);
                }
                if doc_types[i as int]@ == EXAMPLE_DOC_TYPE@ {
                    assert(next[i as int] == EXAMPLE_DOC_TYPE@);
                }
                if next.contains(EXAMPLE_DOC_TYPE@) {
                    let k = choose|k: int| 0 <= k < next.len() && next[k] == EXAMPLE_DOC_TYPE@;
                    if k < i {
                        assert(before[k] == EXAMPLE_DOC_TYPE@);
                    }
                }
            }
            if doc_types[i] == example {
                requested = true;
            }
            i += 1;
        }
        assert(doc_types.deep_view().take(doc_types.len() as int) =~= doc_types.deep_view());
        let mut found: Vec<Vec<StoredMdoc<MdocIdentifier>>> = Vec::new();
        if requested {
            let mut stored_mdocs: Vec<StoredMdoc<MdocIdentifier>> = Vec::new();
            let mut k: usize = 0;
            while k < self.mdocs.len()
                invariant
                    k <= self.mdocs.len(),
                    stored_mdocs@.len() == k,
                    forall|j: int|
                        0 <= j < k ==> (#[trigger] stored_mdocs@[j]).id@ == mock_identifier(j)
                            && stored_mdocs@[j].mdoc@ == self.mdocs@[j]@,
                decreases self.mdocs.len() - k,
            {
                let mut id = "id_".to_owned();
                let number = decimal((k + 1) as u64);
                id.append(number.as_str());
                stored_mdocs.push(StoredMdoc { id, mdoc: self.mdocs[k].clone() });
                k += 1;
            }
            found.push(stored_mdocs);
        }
        Ok(found)
    }
}

/// Whether the reader's certificate carries a registration.
#[derive(Debug, Clone, Copy, PartialEq, Eq, Structural)]
pub enum ReaderCertificateKind {
    NoReaderRegistration,
    WithReaderRegistration,
}

/// The text of a JSON string with a given content.
pub uninterp spec fn json_string(content: Seq<char>) -> Seq<char>;

/// `serde_json::to_string` on a text: the text as a JSON string, in
/// quotes, with what JSON requires escaped.
#[verifier::external_body]
pub(crate) fn to_json_string(content: &str) -> (quoted: String)
    ensures
        quoted@ == json_string(content@),
{
    serde_json::Value::String(content.to_string()).to_string()
}

/// The members of a JSON object that authorizes some attributes: each
/// attribute with an empty object, separated by commas.
pub open spec fn authorized_members(attributes: Seq<Seq<char>>) -> Seq<char>
    decreases attributes.len(),
{
    if attributes.len() == 0 {
        Seq::empty()
    } else if attributes.len() == 1 {
        json_string(attributes[0]) + ":{}"@
    } else {
        authorized_members(attributes.drop_last()) + ","@ + json_string(attributes.last())
            + ":{}"@
    }
}

/// The JSON object that authorizes a reader to ask for some attributes
/// of one name space of one document type.
pub open spec fn authorized_attributes(
    doc_type: Seq<char>,
    name_space: Seq<char>,
    attributes: Seq<Seq<char>>,
) -> Seq<char> {
    "{"@ + json_string(doc_type) + ":{"@ + json_string(name_space) + ":{"@ + authorized_members(
        attributes,
    ) + "}}}"@
}

/// Build the attributes of a registration from a list of attributes: the
/// JSON object that authorizes a reader to ask for them.
pub fn reader_registration_attributes(doc_type: &str, name_space: &str, attributes: &Vec<String>) -> (
    json: String)
    ensures
        json@ == authorized_attributes(doc_type@, name_space@, attributes.deep_view()),
{
    let ghost names = attributes.deep_view();
    let mut members = String::new();
    let mut i: usize = 0;
    assert(names.take(0) =~= Seq::empty());
    while i < attributes.len()
        invariant
            i <= attributes.len(),
            names == attributes.deep_view(),
            members@ == authorized_members(names.take(i as int)),
        decreases attributes.len() - i,
    {
        proof {
            let next = names.take(i as int + 1);
            assert(next.drop_last() =~= names.take(i as int));
            assert(next.last() == attributes[i as int]@);
            assert(next[0] == names[0]);
        }
        if i > 0 {
            members.append(",");
        }
        let quoted = to_json_string(attributes[i].as_str());
        members.append(quoted.as_str());
        members.append(":{}");
        assert(members@ =~= authorized_members(names.take(i as int + 1)));
        i += 1;
    }
    assert(names.take(attributes.len() as int) =~= names);
    let mut json = "{".to_owned();
    json.append(to_json_string(doc_type).as_str());
    json.append(":{");
    json.append(to_json_string(name_space).as_str());
    json.append(":{");
    json.append(members.as_str());
    json.append("}}}");
    assert(json@ =~= authorized_attributes(doc_type@, name_space@, names));
    json
}

/// The registration of the example reader: its name, and the
/// authorization to ask for some attributes.
pub open spec fn example_registration(attributes: Seq<char>) -> Seq<char> {
    "{\"name\":{\"en\":\"Example reader\"},\"attributes\":"@ + attributes + "}"@
}

/// The registration of the example reader, which may ask for all
/// attributes of the example credential.
pub fn reader_registration_mock() -> (registration: ReaderRegistration)
    ensures
        registration.json@ == example_registration(
            authorized_attributes(EXAMPLE_DOC_TYPE@, EXAMPLE_NAMESPACE@, example_attributes()),
        ),
{
    let attributes = reader_registration_attributes(
        EXAMPLE_DOC_TYPE,
        EXAMPLE_NAMESPACE,
        &example_attribute_names(),
    );
    let mut json = "{\"name\":{\"en\":\"Example reader\"},\"attributes\":".to_owned();
    json.append(attributes.as_str());
    json.append("}");
    ReaderRegistration { json }
}

/// The key of a reader with its certificate.
pub struct PrivateKey {
    pub signing_key: SecretKey,
    pub cert_bts: Certificate,
}

impl PrivateKey {
    pub fn new(signing_key: SecretKey, cert_bts: Certificate) -> (key: Self)
        ensures
            key.signing_key@ == signing_key@,
            key.cert_bts@ == cert_bts@,
    {
        PrivateKey { signing_key, cert_bts }
    }
}

/// The type of the certificate of a reader with a registration, or
/// without one.
pub open spec fn reader_certificate_type(
    reader_registration: Option<ReaderRegistration>,
) -> CertificateTypeView {
    CertificateTypeView::ReaderAuth(
        match reader_registration {
            Some(registration) => Some(registration.json@),
            None => None,
        },
    )
}

/// Whether a key is that of a reader with a registration, or without
/// one: its certificate is one for the authentication of a reader, it
/// carries that registration, and its public key is that of the signing
/// key.
pub open spec fn is_reader_key(
    key: PrivateKey,
    reader_registration: Option<ReaderRegistration>,
) -> bool {
    &&& certificate_type(key.cert_bts@) == Ok::<CertificateTypeView, CertificateErrorKind>(
        reader_certificate_type(reader_registration),
    )
    &&& certificate_key(key.cert_bts@) == Some(p256_public_key_of(key.signing_key@))
}

/// Convenience function for creating a [`PrivateKey`], based on a CA
/// certificate and signing key: the key of a reader with a certificate
/// that carries the registration.
pub fn create_private_key(
    ca: &Certificate,
    ca_signing_key: &SecretKey,
    reader_registration: Option<ReaderRegistration>,
) -> (key: Result<PrivateKey, CertificateError>)
    ensures
        certificate_extensions(reader_certificate_type(reader_registration)) is Err ==> (
        key matches Err(error) && error is DerEncodingError),
        key matches Err(error) ==> (error is DerEncodingError <==> certificate_extensions(
            reader_certificate_type(reader_registration),
        ) is Err),
        key matches Err(error) ==> error is GeneratingFailed || error is GeneratingPrivateKey
            || error is DerEncodingError,
        key matches Ok(found) ==> is_reader_key(found, reader_registration),
{
    let registration = match reader_registration {
        Some(registration) => Some(Box::new(registration)),
        None => None,
    };
    match Certificate::new(
        ca,
        ca_signing_key,
        RP_CERT_CN,
        CertificateType::ReaderAuth(registration),
    ) {
        Ok((certificate, signing_key)) => Ok(PrivateKey::new(signing_key, certificate)),
        Err(error) => Err(error),
    }
}

/// Create a basic `SessionTranscript` we can use for testing: that of a
/// reader and a device with fresh keys, after a handover by QR code.
pub fn create_basic_session_transcript() -> (transcript: SessionTranscript)
    ensures
        transcript@.handover == HandoverView::QRHandover,
{
    let (reader_engagement, _reader_private_key) = Engagement::new_reader_engagement(
        SESSION_URL.to_owned(),
    );
    let (device_engagement, _device_private_key) = Engagement::new_device_engagement(
        "https://example.com".to_owned(),
    );
    SessionTranscript::new(
        SessionType::SameDevice,
        &reader_engagement,
        &device_engagement,
        Handover::QRHandover,
    )
}

/// Create a `DocRequest` including reader authentication, based on a
/// `SessionTranscript` and `PrivateKey`: the request, signed for the
/// session with the key.
pub fn create_doc_request(
    items_request: ItemsRequest,
    session_transcript: &SessionTranscript,
    private_key: &PrivateKey,
) -> (request: Option<DocRequest>)
    ensures
        match ecdsa_p256_signature(
            private_key.signing_key@,
            sig_structure(
                protected_header_es256(),
                reader_authentication_bytes(session_transcript@, items_request@),
            ),
        ) {
            None => request is None,
            Some(signature) => request matches Some(signed) && signed.items_request
                == items_request && (signed.reader_auth matches Some(auth) && auth.protected@
                == protected_header_es256() && auth.certificate@ == private_key.cert_bts@
                && auth.signature@ == signature),
        },
{
    let protected = protected_header();
    let payload = reader_authentication(session_transcript, &items_request);
    let input = signature_input(protected.as_slice(), payload.as_slice());
    match sign_message(&private_key.signing_key, input.as_slice()) {
        None => None,
        Some(signature) => Some(
            DocRequest {
                items_request,
                reader_auth: Some(
                    ReaderAuth { protected, certificate: private_key.cert_bts.clone(), signature },
                ),
            },
        ),
    }
}

/// Why a transport did not deliver.
#[derive(Debug, PartialEq, Eq)]
pub enum HttpClientError {
    /// What was received cannot be decoded.
    Cbor(String),
    /// The request failed.
    Request(String),
}

/// What a mock transport answers: an error, or a message with a status.
#[derive(Debug, PartialEq, Eq)]
pub enum MockHttpClientResponse {
    Error(HttpClientError),
    SessionStatus(SessionStatus),
}

impl MockHttpClientResponse {
    /// The message that the transport answers, or its error.
    pub fn session_data(self) -> (response: Result<SessionData, HttpClientError>)
        ensures
            match self {
                MockHttpClientResponse::Error(error) => response == Err::<
                    SessionData,
                    HttpClientError,
                >(error),
                MockHttpClientResponse::SessionStatus(status) => response matches Ok(message)
                    && message.data is None && message.status == Some(status),
            },
    {
        match self {
            MockHttpClientResponse::Error(error) => Err(error),
            MockHttpClientResponse::SessionStatus(status) => Ok(
                SessionData { data: None, status: Some(status) },
            ),
        }
    }
}

/// This type contains the minimum logic to respond with the correct
/// verifier messages in a disclosure session: a reader with a fresh
/// certificate authority, certificate and engagement, which requests the
/// attributes of the example credential.
pub struct MockVerifierSession {
    pub session_type: SessionType,
    pub return_url: Option<String>,
    pub reader_registration: Option<ReaderRegistration>,
    pub trust_anchors: Vec<Certificate>,
    pub private_key: PrivateKey,
    pub reader_engagement: ReaderEngagement,
    pub reader_ephemeral_key: SecretKey,
    pub reader_engagement_bytes_override: Option<Vec<u8>>,
    pub items_requests: Vec<ItemsRequest>,
}

/// Why a mock session did not start.
#[derive(Debug, PartialEq, Eq)]
pub enum MockSessionError {
    /// The reader's certificates were not generated.
    Certificate(CertificateError),
    /// The reader's key did not sign.
    Signing,
    /// The source of credentials failed.
    DataSource(MdocDataSourceError),
    /// The session failed.
    Session(Error),
}

impl MockVerifierSession {
    /// The transcript of the session with a device, as the reader sees
    /// it.
    pub open spec fn transcript_with(&self, device_engagement: DeviceEngagement) -> SessionTranscriptView {
        SessionTranscriptView {
            device_engagement_bytes: engagement_bytes(device_engagement),
            ereader_key_bytes: cose_key_bytes(self.reader_engagement.security.e_sender_key_bytes@),
            handover: HandoverView::QRHandover,
        }
    }

    /// The signature of the reader's key over one of its requests for
    /// the session with a device, if the key signs.
    pub open spec fn signature_for(&self, device_engagement: DeviceEngagement, k: int) -> Option<
        Seq<u8>,
    > {
        ecdsa_p256_signature(
            self.private_key.signing_key@,
            sig_structure(
                protected_header_es256(),
                reader_authentication_bytes(
                    self.transcript_with(device_engagement),
                    self.items_requests@[k]@,
                ),
            ),
        )
    }

    /// Whether the reader's key signs each of its requests for the
    /// session with a device.
    pub open spec fn signs_all(&self, device_engagement: DeviceEngagement) -> bool {
        forall|k: int|
            0 <= k < self.items_requests@.len() ==> (#[trigger] self.signature_for(
                device_engagement,
                k,
            )) is Some
    }

    /// Whether a request for a document is one of the reader's requests,
    /// signed for the session with a device: with the algorithm ES256 in
    /// its protected header, the reader's certificate, and the signature
    /// of the reader's key.
    pub open spec fn is_doc_request_for(
        &self,
        device_engagement: DeviceEngagement,
        k: int,
        request: DocRequest,
    ) -> bool {
        &&& request.items_request@ == self.items_requests@[k]@
        &&& request.reader_auth matches Some(auth) && auth.protected@ == protected_header_es256()
            && auth.certificate@ == self.private_key.cert_bts@ && Some(auth.signature@)
            == self.signature_for(device_engagement, k)
    }

    /// Whether a request is that of the reader in the session with a
    /// device: each of its requests for documents, in their order, signed
    /// for the session.
    pub open spec fn is_request_for(
        &self,
        device_engagement: DeviceEngagement,
        request: DeviceRequest,
    ) -> bool {
        &&& request.version@ == DEVICE_REQUEST_VERSION@
        &&& request.doc_requests@.len() == self.items_requests@.len()
        &&& forall|k: int|
            0 <= k < self.items_requests@.len() ==> self.is_doc_request_for(
                device_engagement,
                k,
                #[trigger] request.doc_requests@[k],
            )
    }

    /// Whether a message is a request of the reader in the session with
    /// a device, encoded and encrypted under a key with the nonce of the
    /// reader; or, where the encryption fails, the error that says so.
    pub open spec fn is_sealed_request(
        &self,
        device_engagement: DeviceEngagement,
        request: DeviceRequest,
        key: Seq<u8>,
        message: Result<SessionData, MockSessionError>,
    ) -> bool {
        &&& self.is_request_for(device_engagement, request)
        &&& match aes256_gcm_seal(
            key,
            session_nonce(SessionKeyUser::Reader),
            device_request_bytes(request),
        ) {
            Some(sealed) => message matches Ok(found) && found@ == (SessionDataView {
                data: Some(sealed),
                status: None,
            }),
            None => message == Err::<SessionData, MockSessionError>(
                MockSessionError::Session(Error::Crypto(CryptoError::Aes)),
            ),
        }
    }

    /// Whether a message is the answer of the reader to the engagement
    /// of a device. The device's key must be a key on P-256, else its
    /// fault is the error; the transcript must be short enough to be hashed, else
    /// the error is that of the key derivation; the reader's key must
    /// sign each request, else the error is that of the signing; then the
    /// answer is the reader's request, encoded and encrypted with the
    /// reader's session key.
    pub open spec fn answers(
        &self,
        device_engagement: DeviceEngagement,
        message: Result<SessionData, MockSessionError>,
    ) -> bool {
        match verifying_key_of_cose(device_engagement.security.e_sender_key_bytes@) {
            Err(error) => message == Err::<SessionData, MockSessionError>(
                MockSessionError::Session(Error::Crypto(error)),
            ),
            Ok(device_point) => {
                let tagged = self.transcript_with(device_engagement).tagged_bytes();
                let key = session_key_bytes(
                    p256_shared_secret(self.reader_ephemeral_key@, device_point),
                    tagged,
                    SessionKeyUser::Reader,
                );
                if tagged.len() >= HASH_INPUT_LIMIT {
                    message == Err::<SessionData, MockSessionError>(
                        MockSessionError::Session(Error::Crypto(CryptoError::Hkdf)),
                    )
                } else if !self.signs_all(device_engagement) {
                    message == Err::<SessionData, MockSessionError>(MockSessionError::Signing)
                } else {
                    exists|request: DeviceRequest| #[trigger]
                        self.is_sealed_request(device_engagement, request, key, message)
                }
            },
        }
    }

    /// A reader with a fresh certificate authority, a certificate that
    /// carries the registration, and an engagement at `session_url`.
    pub fn new(
        session_type: SessionType,
        session_url: String,
        return_url: Option<String>,
        reader_registration: Option<ReaderRegistration>,
    ) -> (session: Result<Self, CertificateError>)
        ensures
            certificate_extensions(reader_certificate_type(reader_registration)) is Err
                ==> session is Err,
            session matches Err(error) ==> error is GeneratingFailed || error
                is GeneratingPrivateKey || error is DerEncodingError,
            session matches Ok(verifier) ==> {
                &&& verifier.session_type == session_type
                &&& verifier.return_url == return_url
                &&& verifier.reader_registration == reader_registration
                &&& is_reader_key(verifier.private_key, reader_registration)
                &&& verifier.trust_anchors@.len() == 1
                &&& verifier.reader_engagement.names(
                    session_url@,
                    p256_public_key_of(verifier.reader_ephemeral_key@),
                )
                &&& verifier.reader_engagement_bytes_override is None
                &&& verifier.items_requests@.len() == 1
                &&& verifier.items_requests@[0]@ == example_request()
            },
    {
        // Generate trust anchors, signing key and certificate containing `ReaderRegistration`.
        let (ca, ca_privkey) = match Certificate::new_ca(RP_CA_CN) {
            Ok(generated) => generated,
            Err(error) => {
                return Err(error);
            },
        };
        let registration = match &reader_registration {
            Some(registration) => Some(registration.clone()),
            None => None,
        };
        let private_key = match create_private_key(&ca, &ca_privkey, registration) {
            Ok(key) => key,
            Err(error) => {
                return Err(error);
            },
        };
        let mut trust_anchors: Vec<Certificate> = Vec::new();
        trust_anchors.push(ca);
        // Generate the `ReaderEngagement` that would be be sent in the UL.
        let (reader_engagement, reader_ephemeral_key) = Engagement::new_reader_engagement(
            session_url,
        );
        // Set up the default item requests
        let mut items_requests: Vec<ItemsRequest> = Vec::new();
        items_requests.push(example_items_request());
        Ok(
            MockVerifierSession {
                session_type,
                return_url,
                reader_registration,
                trust_anchors,
                private_key,
                reader_engagement,
                reader_engagement_bytes_override: None,
                reader_ephemeral_key,
                items_requests,
            },
        )
    }

    /// The bytes that the reader sends as its engagement: those that
    /// override it, if there are any, or its encoding.
    pub fn reader_engagement_bytes(&self) -> (encoded: Vec<u8>)
        requires
            self.reader_engagement.security.e_sender_key_bytes.params.len() < usize::MAX,
        ensures
            encoded@ == (match self.reader_engagement_bytes_override {
                Some(bytes) => bytes@,
                None => engagement_bytes(self.reader_engagement),
            }),
    {
        match &self.reader_engagement_bytes_override {
            Some(bytes) => bytes.clone(),
            None => self.reader_engagement.to_cbor(),
        }
    }

    /// The certificates that the holder must trust for this reader.
    pub fn trust_anchors(&self) -> (anchors: Vec<Certificate>)
        ensures
            anchors.deep_view() == self.trust_anchors.deep_view(),
    {
        let mut anchors: Vec<Certificate> = Vec::new();
        let mut i: usize = 0;
        while i < self.trust_anchors.len()
            invariant
                i <= self.trust_anchors.len(),
                anchors@.len() == i,
                forall|j: int| 0 <= j < i ==> (#[trigger] anchors@[j])@ == self.trust_anchors@[j]@,
            decreases self.trust_anchors.len() - i,
        {
            anchors.push(self.trust_anchors[i].clone());
            i += 1;
        }
        assert(anchors.deep_view() =~= self.trust_anchors.deep_view());
        anchors
    }

    /// The transcript of the session with a device, as the reader sees
    /// it.
    pub fn transcript(&self, device_engagement: &DeviceEngagement) -> (transcript:
        SessionTranscript)
        requires
            self.reader_engagement.security.e_sender_key_bytes.params.len() < usize::MAX,
            device_engagement.security.e_sender_key_bytes.params.len() < usize::MAX,
        ensures
            transcript@ == self.transcript_with(*device_engagement),
    {
        SessionTranscript::new(
            self.session_type,
            &self.reader_engagement,
            device_engagement,
            Handover::QRHandover,
        )
    }

    /// The request of the reader in the session with a device: each of
    /// its requests for documents, signed for the session.
    #[verifier::rlimit(50)]
    pub fn device_request(&self, device_engagement: &DeviceEngagement) -> (request: Option<
        DeviceRequest,
    >)
        requires
            self.reader_engagement.security.e_sender_key_bytes.params.len() < usize::MAX,
            device_engagement.security.e_sender_key_bytes.params.len() < usize::MAX,
        ensures
            self.signs_all(*device_engagement) ==> (request matches Some(found)
                && self.is_request_for(*device_engagement, found)),
            !self.signs_all(*device_engagement) ==> request is None,
    {
        let session_transcript = self.transcript(device_engagement);
        let mut doc_requests: Vec<DocRequest> = Vec::new();
        let mut k: usize = 0;
        while k < self.items_requests.len()
            invariant
                k <= self.items_requests.len(),
                doc_requests@.len() == k,
                session_transcript@ == self.transcript_with(*device_engagement),
                forall|j: int|
                    0 <= j < k ==> (#[trigger] self.signature_for(*device_engagement, j)) is Some,
                forall|j: int|
                    0 <= j < k ==> self.is_doc_request_for(
                        *device_engagement,
                        j,
                        #[trigger] doc_requests@[j],
                    ),
            decreases self.items_requests.len() - k,
        {
            let items_request = self.items_requests[k].clone();
            match create_doc_request(items_request, &session_transcript, &self.private_key) {
                Some(doc_request) => {
                    assert(self.is_doc_request_for(*device_engagement, k as int, doc_request));
                    doc_requests.push(doc_request);
                },
                None => {
                    assert(self.signature_for(*device_engagement, k as int) is None);
                    return None;
                },
            }
            k += 1;
        }
        Some(DeviceRequest { version: DEVICE_REQUEST_VERSION.to_owned(), doc_requests })
    }

    /// The message with which the reader answers the engagement of a
    /// device: its request, encoded and encrypted with its session key.
    pub fn device_request_session_data(&self, device_engagement: &DeviceEngagement) -> (message:
        Result<SessionData, MockSessionError>)
        requires
            self.reader_engagement.security.e_sender_key_bytes.params.len() < usize::MAX,
            device_engagement.security.e_sender_key_bytes.params.len() < usize::MAX,
        ensures
            self.answers(*device_engagement, message),
    {
        // Create the session transcript and encryption key.
        let session_transcript = self.transcript(device_engagement);
        let device_public_key = match VerifyingKey::try_from_cose(
            &device_engagement.security.e_sender_key_bytes,
        ) {
            Ok(key) => key,
            Err(error) => {
                return Err(MockSessionError::Session(Error::Crypto(error)));
            },
        };
        let tagged = session_transcript.tagged_bytes();
        if tagged.len() as u64 >= HASH_INPUT_LIMIT {
            return Err(MockSessionError::Session(Error::Crypto(CryptoError::Hkdf)));
        }
        let mut reader_key = SessionKey::new(
            &self.reader_ephemeral_key,
            &device_public_key,
            &session_transcript,
            SessionKeyUser::Reader,
        ).unwrap();
        // Create a `DocRequest` for every `ItemRequest`.
        let device_request = match self.device_request(device_engagement) {
            Some(request) => request,
            None => {
                return Err(MockSessionError::Signing);
            },
        };
        let encoded = device_request.to_cbor();
        let ghost key = reader_key.bytes();
        let message = match SessionData::encrypt(encoded.as_slice(), &mut reader_key) {
            Ok(message) => Ok(message),
            Err(error) => Err(MockSessionError::Session(Error::Crypto(error))),
        };
        assert(self.is_sealed_request(*device_engagement, device_request, key, message));
        message
    }
}

/// The request for all attributes of the example credential.
pub open spec fn example_request() -> ItemsRequestView {
    ItemsRequestView {
        doc_type: EXAMPLE_DOC_TYPE@,
        name_spaces: seq![(EXAMPLE_NAMESPACE@, intents(example_attributes()))],
        request_info: None,
    }
}

impl MockMdocDataSource {
    /// Whether a list is what the source gives of its credentials: each
    /// under its name, in their order.
    pub open spec fn stores(&self, list: Seq<(MdocIdentifier, MdocView)>) -> bool {
        &&& list.len() == self.mdocs@.len()
        &&& forall|k: int|
            0 <= k < list.len() ==> (#[trigger] list[k]).0@ == mock_identifier(k) && list[k].1
                == self.mdocs@[k]@
    }
}

/// Whether a mock reader is the one that a mock session starts with: in
/// a session on one device, at the example addresses, with a
/// registration if its certificate is to carry one, one trust anchor,
/// and the request for the example credential.
pub open spec fn is_mock_reader(
    verifier: MockVerifierSession,
    certificate_kind: ReaderCertificateKind,
) -> bool {
    &&& verifier.session_type == SessionType::SameDevice
    &&& verifier.return_url matches Some(url) && url@ == RETURN_URL@
    &&& match certificate_kind {
        ReaderCertificateKind::NoReaderRegistration => verifier.reader_registration is None,
        ReaderCertificateKind::WithReaderRegistration => verifier.reader_registration matches Some(
            registration,
        ) && registration.json@ == example_registration(
            authorized_attributes(EXAMPLE_DOC_TYPE@, EXAMPLE_NAMESPACE@, example_attributes()),
        ),
    }
    &&& verifier.trust_anchors@.len() == 1
    &&& verifier.reader_engagement.names(
        SESSION_URL@,
        p256_public_key_of(verifier.reader_ephemeral_key@),
    )
    &&& verifier.reader_engagement_bytes_override is None
    &&& verifier.items_requests@.len() == 1
    &&& verifier.items_requests@[0]@ == example_request()
}

/// Whether a session is what a mock session starts as, with a mock
/// reader, the credentials that the source gave, and the engagement that
/// the device sent: the transcript binds that engagement and the key of
/// the reader after a handover by QR code; the session key of the device
/// has not served; the certificate of the reader is the signer of the
/// request, and a chain leads from it to the reader's trust anchor; and
/// what was found is what the request for the example credential finds
/// among the credentials of the source, if they are of the example
/// document type.
pub open spec fn is_started(
    matched: Matched<MdocIdentifier>,
    verifier: MockVerifierSession,
    list: Seq<(MdocIdentifier, MdocView)>,
    sent: Seq<u8>,
) -> bool {
    &&& matched.transcript@ == (SessionTranscriptView {
        device_engagement_bytes: sent,
        ereader_key_bytes: cose_key_bytes(verifier.reader_engagement.security.e_sender_key_bytes@),
        handover: HandoverView::QRHandover,
    })
    &&& matched.device_key.agent() == SessionKeyUser::Device
    &&& !matched.device_key.spent()
    &&& matched.reader_certificate matches Some(certificate) && certificate@
        == verifier.private_key.cert_bts@ && exists|time: u64| #[trigger]
        chain_verification(
            certificate@,
            CertificateUsage::ReaderAuth.eku(),
            Seq::empty(),
            time,
            verifier.trust_anchors.deep_view(),
        ) is Valid
    &&& matched_views(matched.doc_types@) == seq![
        matched_doc_type(
            example_request(),
            if is_list_of(list, EXAMPLE_DOC_TYPE@) {
                list
            } else {
                Seq::empty()
            },
            matched.transcript@,
        ),
    ]
}

/// Perform a disclosure session start with test defaults: a fresh mock
/// reader receives the engagement of the device, and its request is
/// decrypted, verified and matched against the credentials of the
/// source. What the device sent is appended to `payloads`.
pub fn disclosure_session_start(
    session_type: SessionType,
    certificate_kind: ReaderCertificateKind,
    payloads: &mut Vec<Vec<u8>>,
    mdoc_data_source: &MockMdocDataSource,
) -> (started: Result<(Matched<MdocIdentifier>, MockVerifierSession), MockSessionError>)
    ensures
        final(payloads)@.len() <= old(payloads)@.len() + 1,
        started is Ok ==> final(payloads)@.len() == old(payloads)@.len() + 1,
        forall|k: int| 0 <= k < old(payloads)@.len() ==> final(payloads)@[k] == old(payloads)@[k],
        mdoc_data_source.has_error ==> started is Err,
        started matches Err(MockSessionError::Certificate(error)) ==> final(payloads)@
            == old(payloads)@ && (error is GeneratingFailed || error is GeneratingPrivateKey
            || error is DerEncodingError),
        started matches Ok((matched, verifier)) ==> is_mock_reader(verifier, certificate_kind)
            && exists|list: Seq<(MdocIdentifier, MdocView)>|
            mdoc_data_source.stores(list) && #[trigger] is_started(
                matched,
                verifier,
                list,
                final(payloads)@.last()@,
            ),
{
    // Create a reader registration with all of the example attributes,
    // if we should have a reader registration at all.
    let reader_registration = match certificate_kind {
        ReaderCertificateKind::NoReaderRegistration => None,
        ReaderCertificateKind::WithReaderRegistration => Some(reader_registration_mock()),
    };
    // Create a mock session.
    let verifier_session = match MockVerifierSession::new(
        SessionType::SameDevice,
        SESSION_URL.to_owned(),
        Some(RETURN_URL.to_owned()),
        reader_registration,
    ) {
        Ok(session) => session,
        Err(error) => {
            return Err(MockSessionError::Certificate(error));
        },
    };
    // Starting disclosure.
    let (session, message) = match AwaitingRequest::start(
        session_type,
        &verifier_session.reader_engagement,
        RETURN_URL.to_owned(),
        Handover::QRHandover,
    ) {
        Ok(started) => started,
        Err(error) => {
            return Err(MockSessionError::Session(error));
        },
    };
    payloads.push(message);
    let response = match verifier_session.device_request_session_data(&session.device_engagement) {
        Ok(response) => response,
        Err(error) => {
            return Err(error);
        },
    };
    match session.decrypt(&response) {
        Ok(_) => {},
        Err(error) => {
            return Err(MockSessionError::Session(error));
        },
    }
    let device_request = match verifier_session.device_request(&session.device_engagement) {
        Some(request) => request,
        None => {
            return Err(MockSessionError::Signing);
        },
    };
    let doc_types = device_request.doc_types();
    let stored_mdocs = match mdoc_data_source.mdoc_by_doc_types(&doc_types) {
        Ok(stored_mdocs) => stored_mdocs,
        Err(error) => {
            return Err(MockSessionError::DataSource(error));
        },
    };
    let time = TimeGenerator.generate();
    let ghost requests = device_request.doc_requests@;
    let ghost list = stored_view(stored_mdocs@[0]@);
    let ghost transcript = session.transcript@;
    let ghost sent = payloads@.last()@;
    let ghost anchors = verifier_session.trust_anchors.deep_view();
    proof {
        assert(verifier_session.is_doc_request_for(session.device_engagement, 0, requests[0]));
        assert(doc_types.deep_view()[0] == EXAMPLE_DOC_TYPE@);
        assert(stored_lists(stored_mdocs@) =~= seq![list]);
        assert(mdoc_data_source.stores(list));
        lemma_single_request(requests, list, transcript);
        lemma_single_verdict(requests, transcript, time, anchors);
    }
    match session.process(&device_request, stored_mdocs, time, &verifier_session.trust_anchors) {
        Ok(matched) => {
            assert(is_started(matched, verifier_session, list, sent));
            Ok((matched, verifier_session))
        },
        Err(error) => Err(MockSessionError::Session(error)),
    }
}

/// What one request finds among one list of credentials: what it finds
/// in the list, if the list is of its document type, and else what it
/// finds among none.
pub proof fn lemma_single_request(
    requests: Seq<DocRequest>,
    list: Seq<(MdocIdentifier, MdocView)>,
    transcript: SessionTranscriptView,
)
    requires
        requests.len() == 1,
    ensures
        matched_doc_types(requests, seq![list], transcript) == seq![
            matched_doc_type(
                requests[0].items_request@,
                if is_list_of(list, requests[0].items_request@.doc_type) {
                    list
                } else {
                    Seq::empty()
                },
                transcript,
            ),
        ],
{
    let doc_type = requests[0].items_request@.doc_type;
    let lists = seq![list];
    assert(requests.drop_first() =~= Seq::empty());
    assert(lists.drop_first() =~= Seq::<Seq<(MdocIdentifier, MdocView)>>::empty());
    assert(list_position(lists.drop_first(), doc_type) == 0);
    assert(list_position(lists, doc_type) == (if is_list_of(list, doc_type) {
        0int
    } else {
        1int
    }));
    assert(lists[0] == list);
    let rest = if is_list_of(list, doc_type) {
        lists.remove(0)
    } else {
        lists
    };
    assert(matched_doc_types(requests.drop_first(), rest, transcript) =~= Seq::empty());
    assert(matched_doc_types(requests, lists, transcript) =~= seq![
        matched_doc_type(
            requests[0].items_request@,
            if is_list_of(list, doc_type) {
                list
            } else {
                Seq::empty()
            },
            transcript,
        ),
    ]);
}

/// Where the one request of a reader is found trusted, it is signed, and
/// a chain leads from the certificate of its signer to a trust anchor.
pub proof fn lemma_single_verdict(
    requests: Seq<DocRequest>,
    transcript: SessionTranscriptView,
    time: u64,
    trust_anchors: Seq<Seq<u8>>,
)
    requires
        requests.len() == 1,
    ensures
        request_verdict(requests, transcript, time, trust_anchors) is Trusted ==> requests[0].reader_auth
            is Some && request_verdict(requests, transcript, time, trust_anchors)
            == RequestVerdict::Trusted(Some(requests[0].reader_auth->Some_0.certificate@))
            && chain_verification(
            requests[0].reader_auth->Some_0.certificate@,
            CertificateUsage::ReaderAuth.eku(),
            Seq::empty(),
            time,
            trust_anchors,
        ) is Valid,
{
    crate::device_retrieval::lemma_first_unsigned(requests, transcript, 0);
    if request_verdict(requests, transcript, time, trust_anchors) is Trusted {
        crate::device_retrieval::lemma_signed(requests, transcript, 0, 0);
    }
}

} // verus!
