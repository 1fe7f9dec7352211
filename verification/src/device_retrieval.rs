//! What a reader asks for: document types and, by name space, the
//! attributes of each.

use crate::cbor::{
    array_head, boolean, bytes, encoded_item, map_head, null, push_array_head, push_boolean,
    push_bytes, push_encoded_item, push_map_head, push_null, push_raw, push_text,
    push_unsigned, text, unsigned,
};
use crate::cose::{sig_structure, signature_input};
use crate::engagement::{SessionTranscript, SessionTranscriptView};
use crate::errors::{CoseError, Error, HolderError};
use crate::keys::{ecdsa_p256_verifies, verify_signature};
use crate::x509::{
    chain_verification, p256_public_key_info_point, x509_public_key_info, Certificate,
    CertificateError, CertificateUsage, ChainOutcome,
};
use crate::identifiers::{
    identifier_set_insert, identifier_set_items, identifier_set_new, AttributeIdentifier,
    AttributeIdentifierView,
};
use crate::mdocs::first_occurrences;
use crate::ordered_map::{key_position, lemma_key_absent, upsert};
use indexmap::{IndexMap, IndexSet};
use std::hash::RandomState;
use vstd::prelude::*;

verus! {

/// The attributes requested of one name space, each with the reader's
/// intent to retain it.
pub type RequestedAttributes = IndexMap<String, bool>;

/// The mathematical value of [`RequestedAttributes`].
pub type RequestedAttributesView = Seq<(Seq<char>, bool)>;

/// The attributes requested, by name space.
pub type RequestedNameSpaces = IndexMap<String, IndexMap<String, bool>>;

/// The mathematical value of [`RequestedNameSpaces`].
pub type RequestedNameSpacesView = Seq<(Seq<char>, Seq<(Seq<char>, bool)>)>;

/// The attributes that a map holds with the intent to retain each, in
/// insertion order.
pub uninterp spec fn requested_attribute_entries(
    map: IndexMap<String, bool, RandomState>,
) -> RequestedAttributesView;

/// The name spaces that a map holds with the attributes requested of
/// each, in insertion order.
pub uninterp spec fn requested_name_space_entries(
    map: IndexMap<String, IndexMap<String, bool, RandomState>, RandomState>,
) -> RequestedNameSpacesView;

/// `IndexMap::new`: the empty map.
#[verifier::external_body]
pub(crate) fn requested_attributes_new() -> (map: RequestedAttributes)
    ensures
        requested_attribute_entries(map) == Seq::<(Seq<char>, bool)>::empty(),
{
    IndexMap::new()
}

/// `IndexMap::len`: the number of attributes held.
#[verifier::external_body]
pub(crate) fn requested_attributes_len(map: &RequestedAttributes) -> (n: usize)
    ensures
        n == requested_attribute_entries(*map).len(),
{
    map.len()
}

/// `IndexMap::get_index`: the attribute and the intent at a position of
/// the insertion order, or `None` at or beyond the length. A map holds
/// each key once: the attribute returned stands at no other position.
#[verifier::external_body]
pub(crate) fn requested_attributes_get_index(map: &RequestedAttributes, index: usize) -> (item:
    Option<(&String, &bool)>)
    ensures
        index < requested_attribute_entries(*map).len() ==> item.is_some() && item.unwrap().0@
            == requested_attribute_entries(*map)[index as int].0 && *item.unwrap().1
            == requested_attribute_entries(*map)[index as int].1,
        index < requested_attribute_entries(*map).len() ==> forall|j: int|
            0 <= j < requested_attribute_entries(*map).len() && j != index ==> (
            #[trigger] requested_attribute_entries(*map)[j]).0 != item.unwrap().0@,
        index >= requested_attribute_entries(*map).len() ==> item.is_none(),
{
    map.get_index(index)
}

/// `IndexMap::insert`: a new attribute goes last; for one that is held
/// the intent is replaced in place and the former intent is returned.
#[verifier::external_body]
pub(crate) fn requested_attributes_insert(
    map: &mut RequestedAttributes,
    attribute: String,
    intent_to_retain: bool,
) -> (former: Option<bool>)
    ensures
        requested_attribute_entries(*final(map)) == upsert(
            requested_attribute_entries(*old(map)),
            attribute@,
            intent_to_retain,
        ),
        former.is_none() == (key_position(requested_attribute_entries(*old(map)), attribute@)
            == requested_attribute_entries(*old(map)).len()),
        former.is_some() ==> former.unwrap() == requested_attribute_entries(
            *old(map),
        )[key_position(requested_attribute_entries(*old(map)), attribute@)].1,
{
    map.insert(attribute, intent_to_retain)
}

/// `IndexMap::new`: the empty map.
#[verifier::external_body]
pub(crate) fn requested_name_spaces_new() -> (map: RequestedNameSpaces)
    ensures
        requested_name_space_entries(map) == Seq::<(Seq<char>, Seq<(Seq<char>, bool)>)>::empty(),
{
    IndexMap::new()
}

/// `IndexMap::len`: the number of name spaces held.
#[verifier::external_body]
pub(crate) fn requested_name_spaces_len(map: &RequestedNameSpaces) -> (n: usize)
    ensures
        n == requested_name_space_entries(*map).len(),
{
    map.len()
}

/// `IndexMap::get_index`: the name space and its attributes at a position
/// of the insertion order, or `None` at or beyond the length. A map holds
/// each key once: the name space returned stands at no other position.
#[verifier::external_body]
pub(crate) fn requested_name_spaces_get_index(map: &RequestedNameSpaces, index: usize) -> (item:
    Option<(&String, &RequestedAttributes)>)
    ensures
        index < requested_name_space_entries(*map).len() ==> item.is_some() && item.unwrap().0@
            == requested_name_space_entries(*map)[index as int].0 && requested_attribute_entries(
            *item.unwrap().1,
        ) == requested_name_space_entries(*map)[index as int].1,
        index < requested_name_space_entries(*map).len() ==> forall|j: int|
            0 <= j < requested_name_space_entries(*map).len() && j != index ==> (
            #[trigger] requested_name_space_entries(*map)[j]).0 != item.unwrap().0@,
        index >= requested_name_space_entries(*map).len() ==> item.is_none(),
{
    map.get_index(index)
}

/// `IndexMap::insert`: a new name space goes last; for one that is held
/// the attributes are replaced in place and the former ones are returned.
#[verifier::external_body]
pub(crate) fn requested_name_spaces_insert(
    map: &mut RequestedNameSpaces,
    name_space: String,
    attributes: RequestedAttributes,
) -> (former: Option<RequestedAttributes>)
    ensures
        requested_name_space_entries(*final(map)) == upsert(
            requested_name_space_entries(*old(map)),
            name_space@,
            requested_attribute_entries(attributes),
        ),
        former.is_none() == (key_position(requested_name_space_entries(*old(map)), name_space@)
            == requested_name_space_entries(*old(map)).len()),
        former.is_some() ==> requested_attribute_entries(former.unwrap())
            == requested_name_space_entries(*old(map))[key_position(
            requested_name_space_entries(*old(map)),
            name_space@,
        )].1,
{
    map.insert(name_space, attributes)
}

/// A copy of the attributes requested of one name space.
pub fn clone_requested_attributes(attributes: &RequestedAttributes) -> (copy: RequestedAttributes)
    ensures
        requested_attribute_entries(copy) == requested_attribute_entries(*attributes),
{
    let mut copy = requested_attributes_new();
    let ghost source = requested_attribute_entries(*attributes);
    let n = requested_attributes_len(attributes);
    let mut i: usize = 0;
    assert(source.take(0) =~= Seq::empty());
    while i < n
        invariant
            i <= n,
            n == source.len(),
            source == requested_attribute_entries(*attributes),
            requested_attribute_entries(copy) == source.take(i as int),
        decreases n - i,
    {
        let (attribute, intent_to_retain) = requested_attributes_get_index(attributes, i).unwrap();
        proof {
            let before = requested_attribute_entries(copy);
            assert forall|k: int| 0 <= k < before.len() implies (#[trigger] before[k]).0
                != attribute@ by {
                assert(before[k] == source[k]);
            }
            lemma_key_absent(before, attribute@);
            assert(source.take(i as int + 1) =~= source.take(i as int).push(source[i as int]));
        }
        requested_attributes_insert(&mut copy, attribute.clone(), *intent_to_retain);
        i += 1;
    }
    assert(source.take(n as int) =~= source);
    copy
}

/// A copy of the attributes requested, by name space.
pub fn clone_requested_name_spaces(name_spaces: &RequestedNameSpaces) -> (copy:
    RequestedNameSpaces)
    ensures
        requested_name_space_entries(copy) == requested_name_space_entries(*name_spaces),
{
    let mut copy = requested_name_spaces_new();
    let ghost source = requested_name_space_entries(*name_spaces);
    let n = requested_name_spaces_len(name_spaces);
    let mut i: usize = 0;
    assert(source.take(0) =~= Seq::empty());
    while i < n
        invariant
            i <= n,
            n == source.len(),
            source == requested_name_space_entries(*name_spaces),
            requested_name_space_entries(copy) == source.take(i as int),
        decreases n - i,
    {
        let (name_space, attributes) = requested_name_spaces_get_index(name_spaces, i).unwrap();
        proof {
            let before = requested_name_space_entries(copy);
            assert forall|k: int| 0 <= k < before.len() implies (#[trigger] before[k]).0
                != name_space@ by {
                assert(before[k] == source[k]);
            }
            lemma_key_absent(before, name_space@);
            assert(source.take(i as int + 1) =~= source.take(i as int).push(source[i as int]));
        }
        requested_name_spaces_insert(
            &mut copy,
            name_space.clone(),
            clone_requested_attributes(attributes),
        );
        i += 1;
    }
    assert(source.take(n as int) =~= source);
    copy
}

/// The request for attributes of one document type.
#[derive(Debug, PartialEq, Eq)]
pub struct ItemsRequest {
    pub doc_type: String,
    pub name_spaces: RequestedNameSpaces,
    /// Further information on the request: one encoded item.
    pub request_info: Option<Vec<u8>>,
}

pub struct ItemsRequestView {
    pub doc_type: Seq<char>,
    pub name_spaces: RequestedNameSpacesView,
    pub request_info: Option<Seq<u8>>,
}

impl View for ItemsRequest {
    type V = ItemsRequestView;

    open spec fn view(&self) -> ItemsRequestView {
        ItemsRequestView {
            doc_type: self.doc_type@,
            name_spaces: requested_name_space_entries(self.name_spaces),
            request_info: match self.request_info {
                Some(info) => Some(info@),
                None => None,
            },
        }
    }
}

impl Clone for ItemsRequest {
    fn clone(&self) -> (copy: Self)
        ensures
            copy@ == self@,
    {
        ItemsRequest {
            doc_type: self.doc_type.clone(),
            name_spaces: clone_requested_name_spaces(&self.name_spaces),
            request_info: match &self.request_info {
                Some(info) => Some(info.clone()),
                None => None,
            },
        }
    }
}

/// The identifiers of the attributes requested of one name space.
pub open spec fn requested_of_name_space(
    doc_type: Seq<char>,
    name_space: Seq<char>,
    attributes: RequestedAttributesView,
) -> Seq<AttributeIdentifierView> {
    Seq::new(attributes.len(), |j: int| (doc_type, name_space, attributes[j].0))
}

/// The identifiers of all attributes requested, name space by name space.
pub open spec fn requested_of_name_spaces(
    doc_type: Seq<char>,
    name_spaces: RequestedNameSpacesView,
) -> Seq<AttributeIdentifierView>
    decreases name_spaces.len(),
{
    if name_spaces.len() == 0 {
        Seq::empty()
    } else {
        requested_of_name_spaces(doc_type, name_spaces.drop_last()) + requested_of_name_space(
            doc_type,
            name_spaces.last().0,
            name_spaces.last().1,
        )
    }
}

/// The encoding of the attributes requested of one name space: each
/// attribute and the intent to retain it.
pub open spec fn requested_attributes_items(attributes: RequestedAttributesView) -> Seq<u8>
    decreases attributes.len(),
{
    if attributes.len() == 0 {
        Seq::empty()
    } else {
        requested_attributes_items(attributes.drop_last()) + text(attributes.last().0) + boolean(
            attributes.last().1,
        )
    }
}

/// The encoding of the name spaces requested: each name space and the map
/// of its attributes.
pub open spec fn requested_name_spaces_items(name_spaces: RequestedNameSpacesView) -> Seq<u8>
    decreases name_spaces.len(),
{
    if name_spaces.len() == 0 {
        Seq::empty()
    } else {
        requested_name_spaces_items(name_spaces.drop_last()) + text(name_spaces.last().0)
            + map_head(name_spaces.last().1.len() as int) + requested_attributes_items(
            name_spaces.last().1,
        )
    }
}

impl ItemsRequestView {
    /// The identifiers of the attributes requested, each once, in the
    /// order of the request.
    pub open spec fn attribute_identifiers(self) -> Seq<AttributeIdentifierView> {
        first_occurrences(requested_of_name_spaces(self.doc_type, self.name_spaces))
    }

    /// The encoding of the request: a map of the document type, the name
    /// spaces and, where there is any, the further information.
    pub open spec fn bytes(self) -> Seq<u8> {
        map_head(
            if self.request_info.is_some() {
                3
            } else {
                2
            },
        ) + text("docType"@) + text(self.doc_type) + text("nameSpaces"@) + map_head(
            self.name_spaces.len() as int,
        ) + requested_name_spaces_items(self.name_spaces) + match self.request_info {
            Some(info) => text("requestInfo"@) + info,
            None => Seq::empty(),
        }
    }
}

/// Appends the encoding of the attributes requested of one name space.
fn push_requested_attributes(out: &mut Vec<u8>, attributes: &RequestedAttributes)
    ensures
        final(out)@ == old(out)@ + map_head(requested_attribute_entries(*attributes).len() as int)
            + requested_attributes_items(requested_attribute_entries(*attributes)),
{
    let ghost entries = requested_attribute_entries(*attributes);
    let n = requested_attributes_len(attributes);
    push_map_head(out, n);
    let ghost start = out@;
    let mut j: usize = 0;
    proof {
        assert(entries.take(0) =~= Seq::empty());
        assert(start + requested_attributes_items(entries.take(0)) =~= start);
    }
    while j < n
        invariant
            j <= n,
            n == entries.len(),
            entries == requested_attribute_entries(*attributes),
            out@ == start + requested_attributes_items(entries.take(j as int)),
        decreases n - j,
    {
        let (attribute, intent_to_retain) = requested_attributes_get_index(attributes, j).unwrap();
        push_text(out, attribute.as_str());
        push_boolean(out, *intent_to_retain);
        proof {
            let next = entries.take(j as int + 1);
            assert(next.drop_last() =~= entries.take(j as int));
            assert(next.last() == entries[j as int]);
            assert(out@ =~= start + requested_attributes_items(next));
        }
        j += 1;
    }
    assert(entries.take(n as int) =~= entries);
}

/// Appends the encoding of the name spaces requested.
fn push_requested_name_spaces(out: &mut Vec<u8>, name_spaces: &RequestedNameSpaces)
    ensures
        final(out)@ == old(out)@ + map_head(
            requested_name_space_entries(*name_spaces).len() as int,
        ) + requested_name_spaces_items(requested_name_space_entries(*name_spaces)),
{
    let ghost entries = requested_name_space_entries(*name_spaces);
    let n = requested_name_spaces_len(name_spaces);
    push_map_head(out, n);
    let ghost start = out@;
    let mut i: usize = 0;
    proof {
        assert(entries.take(0) =~= Seq::empty());
        assert(start + requested_name_spaces_items(entries.take(0)) =~= start);
    }
    while i < n
        invariant
            i <= n,
            n == entries.len(),
            entries == requested_name_space_entries(*name_spaces),
            out@ == start + requested_name_spaces_items(entries.take(i as int)),
        decreases n - i,
    {
        let (name_space, attributes) = requested_name_spaces_get_index(name_spaces, i).unwrap();
        push_text(out, name_space.as_str());
        push_requested_attributes(out, attributes);
        proof {
            let next = entries.take(i as int + 1);
            assert(next.drop_last() =~= entries.take(i as int));
            assert(next.last() == entries[i as int]);
            assert(out@ =~= start + requested_name_spaces_items(next));
        }
        i += 1;
    }
    assert(entries.take(n as int) =~= entries);
}

impl ItemsRequest {
    /// The identifiers of the attributes requested, each once, in the
    /// order of the request.
    pub fn attribute_identifiers(&self) -> (set: IndexSet<AttributeIdentifier>)
        ensures
            identifier_set_items(set) == self@.attribute_identifiers(),
    {
        let mut set = identifier_set_new();
        let ghost nss = requested_name_space_entries(self.name_spaces);
        let ghost doc_type = self.doc_type@;
        let n = requested_name_spaces_len(&self.name_spaces);
        let mut i: usize = 0;
        assert(nss.take(0) =~= Seq::empty());
        while i < n
            invariant
                i <= n,
                n == nss.len(),
                nss == requested_name_space_entries(self.name_spaces),
                doc_type == self.doc_type@,
                identifier_set_items(set) == first_occurrences(
                    requested_of_name_spaces(doc_type, nss.take(i as int)),
                ),
            decreases n - i,
        {
            let (name_space, attributes) = requested_name_spaces_get_index(
                &self.name_spaces,
                i,
            ).unwrap();
            let ghost done = requested_of_name_spaces(doc_type, nss.take(i as int));
            let ghost ids = requested_of_name_space(doc_type, nss[i as int].0, nss[i as int].1);
            let m = requested_attributes_len(attributes);
            let mut j: usize = 0;
            assert(done + ids.take(0) =~= done);
            while j < m
                invariant
                    j <= m,
                    m == nss[i as int].1.len(),
                    requested_attribute_entries(*attributes) == nss[i as int].1,
                    name_space@ == nss[i as int].0,
                    doc_type == self.doc_type@,
                    ids == requested_of_name_space(doc_type, nss[i as int].0, nss[i as int].1),
                    identifier_set_items(set) == first_occurrences(done + ids.take(j as int)),
                decreases m - j,
            {
                let (attribute, _) = requested_attributes_get_index(attributes, j).unwrap();
                let identifier: AttributeIdentifier = (
                    self.doc_type.clone(),
                    name_space.clone(),
                    attribute.clone(),
                );
                proof {
                    assert(identifier@ == ids[j as int]);
                    let next = done + ids.take(j as int + 1);
                    assert(next.drop_last() =~= done + ids.take(j as int));
                    assert(next.last() == ids[j as int]);
                }
                identifier_set_insert(&mut set, identifier);
                j += 1;
            }
            proof {
                assert(ids.take(j as int) =~= ids);
                let next = nss.take(i as int + 1);
                assert(next.drop_last() =~= nss.take(i as int));
                assert(next.last() == nss[i as int]);
            }
            i += 1;
        }
        assert(nss.take(n as int) =~= nss);
        set
    }

    /// The encoding of this request.
    pub fn to_cbor(&self) -> (encoded: Vec<u8>)
        ensures
            encoded@ == self@.bytes(),
    {
        let mut out: Vec<u8> = Vec::new();
        push_map_head(
            &mut out,
            if self.request_info.is_some() {
                3
            } else {
                2
            },
        );
        push_text(&mut out, "docType");
        push_text(&mut out, self.doc_type.as_str());
        push_text(&mut out, "nameSpaces");
        push_requested_name_spaces(&mut out, &self.name_spaces);
        match &self.request_info {
            Some(info) => {
                push_text(&mut out, "requestInfo");
                push_raw(&mut out, info.as_slice());
            },
            None => {},
        }
        assert(out@ =~= self@.bytes());
        out
    }
}

/// The signature of a reader over a request: the protected header of its
/// envelope, the certificate of the signer that the envelope carries, and
/// the signature. What was signed travels apart.
#[derive(Debug, PartialEq, Eq)]
pub struct ReaderAuth {
    pub protected: Vec<u8>,
    pub certificate: Certificate,
    pub signature: Vec<u8>,
}

/// The request for a document, with the signature of the reader.
#[derive(Debug, PartialEq, Eq)]
pub struct DocRequest {
    pub items_request: ItemsRequest,
    pub reader_auth: Option<ReaderAuth>,
}

/// What a reader requests in a session.
#[derive(Debug, PartialEq, Eq)]
pub struct DeviceRequest {
    pub version: String,
    pub doc_requests: Vec<DocRequest>,
}

/// The version of the request structure.
pub const DEVICE_REQUEST_VERSION: &'static str = "1.0";

/// The text that opens what a reader signs.
pub open spec fn reader_authentication_label() -> Seq<char> {
    "ReaderAuthentication"@
}

/// The encoding of what a reader signs for a request in a session: the
/// label, the transcript, and the request as an encoded item; all of it
/// as an encoded item.
pub open spec fn reader_authentication_bytes(
    transcript: SessionTranscriptView,
    request: ItemsRequestView,
) -> Seq<u8> {
    encoded_item(
        array_head(3) + text(reader_authentication_label()) + transcript.bytes() + encoded_item(
            request.bytes(),
        ),
    )
}

/// What a reader signs for a request in a session.
pub fn reader_authentication(transcript: &SessionTranscript, request: &ItemsRequest) -> (payload:
    Vec<u8>)
    ensures
        payload@ == reader_authentication_bytes(transcript@, request@),
{
    let mut inner: Vec<u8> = Vec::new();
    push_array_head(&mut inner, 3);
    push_text(&mut inner, "ReaderAuthentication");
    transcript.push_cbor(&mut inner);
    let items = request.to_cbor();
    push_encoded_item(&mut inner, items.as_slice());
    let mut payload: Vec<u8> = Vec::new();
    push_encoded_item(&mut payload, inner.as_slice());
    assert(payload@ =~= reader_authentication_bytes(transcript@, request@));
    payload
}

/// Why the signature of a reader over a request does not hold, if it
/// does not: the key of the certificate cannot be read, or the signature
/// does not verify under it.
pub enum SignatureFault {
    Certificate,
    Key,
    Signature,
}

/// Whether the signature of a reader over a request in a session holds
/// under the key of the certificate that comes with it.
#[verifier::opaque]
pub open spec fn reader_signature(
    protected: Seq<u8>,
    certificate: Seq<u8>,
    signature: Seq<u8>,
    transcript: SessionTranscriptView,
    request: ItemsRequestView,
) -> Option<SignatureFault> {
    match x509_public_key_info(certificate) {
        None => Some(SignatureFault::Certificate),
        Some(spki) => match p256_public_key_info_point(spki) {
            None => Some(SignatureFault::Key),
            Some(point) => if ecdsa_p256_verifies(
                point,
                sig_structure(protected, reader_authentication_bytes(transcript, request)),
                signature,
            ) {
                None
            } else {
                Some(SignatureFault::Signature)
            },
        },
    }
}

/// Whether an error is the one that tells of a fault of a signature:
/// for a certificate that cannot be read, that its content cannot be
/// parsed; for a key that is none, that the key cannot be parsed; for a
/// signature that does not verify, that the verification failed.
pub open spec fn tells_of(error: Error, fault: SignatureFault) -> bool {
    match fault {
        SignatureFault::Certificate => error matches Error::Holder(
            HolderError::CertificateError(certificate),
        ) && certificate is ContentParsing,
        SignatureFault::Key => error matches Error::Holder(
            HolderError::CertificateError(certificate),
        ) && certificate is KeyParsingFailed,
        SignatureFault::Signature => error == Error::Cose(
            CoseError::EcdsaSignatureVerificationFailed,
        ),
    }
}

impl ReaderAuth {
    /// Verifies the signature over a request in a session under the key
    /// of the certificate that comes with it.
    pub fn verify_signature(&self, transcript: &SessionTranscript, request: &ItemsRequest) -> (
        verified: Result<(), Error>)
        ensures
            match reader_signature(
                self.protected@,
                self.certificate@,
                self.signature@,
                transcript@,
                request@,
            ) {
                None => verified is Ok,
                Some(fault) => verified matches Err(error) && tells_of(error, fault),
            },
    {
        reveal(reader_signature);
        let key = match self.certificate.public_key() {
            Ok(key) => key,
            Err(error) => {
                return Err(Error::Holder(HolderError::CertificateError(error)));
            },
        };
        let payload = reader_authentication(transcript, request);
        let input = signature_input(self.protected.as_slice(), payload.as_slice());
        if verify_signature(&key, input.as_slice(), self.signature.as_slice()) {
            Ok(())
        } else {
            Err(Error::Cose(CoseError::EcdsaSignatureVerificationFailed))
        }
    }
}

impl DocRequest {
    /// Verifies the signature of the reader over this request, if there
    /// is one, and gives the certificate of the signer.
    pub fn verify(&self, transcript: &SessionTranscript) -> (signer: Result<
        Option<&Certificate>,
        Error,
    >)
        ensures
            match self.reader_auth {
                None => signer matches Ok(None),
                Some(auth) => match reader_signature(
                    auth.protected@,
                    auth.certificate@,
                    auth.signature@,
                    transcript@,
                    self.items_request@,
                ) {
                    None => signer matches Ok(Some(certificate)) && *certificate
                        == auth.certificate,
                    Some(fault) => signer matches Err(error) && tells_of(error, fault),
                },
            },
    {
        match &self.reader_auth {
            None => Ok(None),
            Some(auth) => match auth.verify_signature(transcript, &self.items_request) {
                Ok(()) => Ok(Some(&auth.certificate)),
                Err(error) => Err(error),
            },
        }
    }
}

/// How the verification of the requests of a reader ends.
pub enum RequestVerdict {
    /// The request at a position is not signed.
    Missing(int),
    /// The signature of the request at a position does not hold, for
    /// the given fault.
    Forged(int, SignatureFault),
    /// The request at a position is signed by another than the first.
    Inconsistent(int),
    /// No chain leads from the signer to a trust anchor.
    Untrusted,
    /// The certificate of the signer or a trust anchor cannot be parsed.
    Unparsable,
    /// All requests are signed by one reader, of the given certificate,
    /// to which a chain leads; or there is no request.
    Trusted(Option<Seq<u8>>),
}

/// The fault of the signature of the request at a position, if it is
/// signed and its signature does not hold.
pub open spec fn fault_at(requests: Seq<DocRequest>, transcript: SessionTranscriptView, k: int) -> Option<
    SignatureFault,
> {
    match requests[k].reader_auth {
        Some(auth) => reader_signature(
            auth.protected@,
            auth.certificate@,
            auth.signature@,
            transcript,
            requests[k].items_request@,
        ),
        None => None,
    }
}

/// Whether the request at a position is signed and its signature holds.
pub open spec fn signed_at(requests: Seq<DocRequest>, transcript: SessionTranscriptView, k: int) -> bool {
    requests[k].reader_auth is Some && fault_at(requests, transcript, k) is None
}

/// The first request that is not signed or whose signature does not
/// hold, or the number of requests.
pub open spec fn first_unsigned(
    requests: Seq<DocRequest>,
    transcript: SessionTranscriptView,
    from: int,
) -> int
    decreases requests.len() - from,
{
    if from < 0 || from >= requests.len() {
        requests.len() as int
    } else if !signed_at(requests, transcript, from) {
        from
    } else {
        first_unsigned(requests, transcript, from + 1)
    }
}

/// The first request that is signed with another certificate than the
/// first request, or the number of requests.
pub open spec fn first_other_signer(requests: Seq<DocRequest>, from: int) -> int
    decreases requests.len() - from,
{
    if from < 0 || from >= requests.len() {
        requests.len() as int
    } else if requests[from].reader_auth.unwrap().certificate@
        != requests[0].reader_auth.unwrap().certificate@ {
        from
    } else {
        first_other_signer(requests, from + 1)
    }
}

/// How the verification of the requests of a reader ends: every request
/// must be signed, and its signature hold under the key of the
/// certificate that comes with it; then all must come with one
/// certificate; then a chain must lead from that certificate, for the
/// usage of readers, to a trust anchor at the given time.
pub open spec fn request_verdict(
    requests: Seq<DocRequest>,
    transcript: SessionTranscriptView,
    time: u64,
    trust_anchors: Seq<Seq<u8>>,
) -> RequestVerdict {
    let unsigned = first_unsigned(requests, transcript, 0);
    if unsigned < requests.len() {
        match fault_at(requests, transcript, unsigned) {
            None => RequestVerdict::Missing(unsigned),
            Some(fault) => RequestVerdict::Forged(unsigned, fault),
        }
    } else if requests.len() == 0 {
        RequestVerdict::Trusted(None)
    } else if first_other_signer(requests, 0) < requests.len() {
        RequestVerdict::Inconsistent(first_other_signer(requests, 0))
    } else {
        let certificate = requests[0].reader_auth.unwrap().certificate@;
        match chain_verification(
            certificate,
            CertificateUsage::ReaderAuth.eku(),
            Seq::empty(),
            time,
            trust_anchors,
        ) {
            ChainOutcome::Valid => RequestVerdict::Trusted(Some(certificate)),
            ChainOutcome::Rejected => RequestVerdict::Untrusted,
            ChainOutcome::Unparsable => RequestVerdict::Unparsable,
        }
    }
}

impl DeviceRequest {
    /// The document types of the requests, in their order.
    pub fn doc_types(&self) -> (doc_types: Vec<String>)
        ensures
            doc_types@.len() == self.doc_requests@.len(),
            forall|k: int|
                0 <= k < doc_types@.len() ==> (#[trigger] doc_types@[k])@
                    == self.doc_requests@[k].items_request.doc_type@,
    {
        let mut doc_types: Vec<String> = Vec::new();
        let mut k: usize = 0;
        while k < self.doc_requests.len()
            invariant
                k <= self.doc_requests.len(),
                doc_types@.len() == k,
                forall|j: int|
                    0 <= j < k ==> (#[trigger] doc_types@[j])@
                        == self.doc_requests@[j].items_request.doc_type@,
            decreases self.doc_requests.len() - k,
        {
            doc_types.push(self.doc_requests[k].items_request.doc_type.clone());
            k += 1;
        }
        doc_types
    }

    /// Verifies that one trusted reader signed every request, and gives
    /// its certificate; none where nothing is requested.
    pub fn verify(
        &self,
        transcript: &SessionTranscript,
        time: u64,
        trust_anchors: &Vec<Certificate>,
    ) -> (signer: Result<Option<Certificate>, Error>)
        ensures
            match request_verdict(
                self.doc_requests@,
                transcript@,
                time,
                trust_anchors.deep_view(),
            ) {
                RequestVerdict::Missing(_) => signer == Err::<Option<Certificate>, Error>(
                    Error::Holder(HolderError::ReaderAuthMissing),
                ),
                RequestVerdict::Forged(_, fault) => signer matches Err(error) && tells_of(
                    error,
                    fault,
                ),
                RequestVerdict::Inconsistent(_) => signer == Err::<Option<Certificate>, Error>(
                    Error::Holder(HolderError::ReaderAuthsInconsistent),
                ),
                RequestVerdict::Untrusted => signer matches Err(
                    Error::Holder(HolderError::UntrustedIssuer(doc_type)),
                ) && doc_type@ == self.doc_requests@[0].items_request.doc_type@,
                RequestVerdict::Unparsable => signer matches Err(
                    Error::Holder(HolderError::CertificateError(error)),
                ) && error is ValidationParsing,
                RequestVerdict::Trusted(None) => signer matches Ok(None),
                RequestVerdict::Trusted(Some(certificate)) => signer matches Ok(Some(found))
                    && found@ == certificate,
            },
    {
        match self.check_signatures(transcript) {
            Err(error) => {
                return Err(error);
            },
            Ok(()) => {},
        }
        if self.doc_requests.len() == 0 {
            return Ok(None);
        }
        match self.check_one_signer(transcript) {
            Err(error) => {
                return Err(error);
            },
            Ok(()) => {},
        }
        proof {
            lemma_signed(self.doc_requests@, transcript@, 0, 0);
        }
        let first = &self.doc_requests[0].reader_auth.as_ref().unwrap().certificate;
        let intermediates: Vec<Vec<u8>> = Vec::new();
        assert(intermediates.deep_view() =~= Seq::<Seq<u8>>::empty());
        match first.verify_at(CertificateUsage::ReaderAuth, &intermediates, time, trust_anchors) {
            Ok(()) => Ok(Some(first.clone())),
            Err(CertificateError::Verification(_)) => Err(
                Error::Holder(
                    HolderError::UntrustedIssuer(self.doc_requests[0].items_request.doc_type.clone()),
                ),
            ),
            Err(error) => Err(Error::Holder(HolderError::CertificateError(error))),
        }
    }

    /// Verifies that every request is signed and its signature holds.
    fn check_signatures(&self, transcript: &SessionTranscript) -> (checked: Result<(), Error>)
        ensures
            first_unsigned(self.doc_requests@, transcript@, 0) <= self.doc_requests@.len(),
            first_unsigned(self.doc_requests@, transcript@, 0) == self.doc_requests@.len()
                ==> checked is Ok,
            first_unsigned(self.doc_requests@, transcript@, 0) < self.doc_requests@.len() ==> (
            match fault_at(
                self.doc_requests@,
                transcript@,
                first_unsigned(self.doc_requests@, transcript@, 0),
            ) {
                None => checked == Err::<(), Error>(Error::Holder(HolderError::ReaderAuthMissing)),
                Some(fault) => checked matches Err(error) && tells_of(error, fault),
            }),
    {
        let ghost requests = self.doc_requests@;
        let mut k: usize = 0;
        while k < self.doc_requests.len()
            invariant
                k <= self.doc_requests.len(),
                requests == self.doc_requests@,
                first_unsigned(requests, transcript@, 0) == first_unsigned(
                    requests,
                    transcript@,
                    k as int,
                ),
            decreases self.doc_requests.len() - k,
        {
            proof {
                lemma_first_unsigned(requests, transcript@, 0);
            }
            match self.doc_requests[k].verify(transcript) {
                Err(error) => {
                    assert(!signed_at(requests, transcript@, k as int));
                    assert(first_unsigned(requests, transcript@, k as int) == k);
                    return Err(error);
                },
                Ok(None) => {
                    assert(!signed_at(requests, transcript@, k as int));
                    assert(first_unsigned(requests, transcript@, k as int) == k);
                    return Err(Error::Holder(HolderError::ReaderAuthMissing));
                },
                Ok(Some(_)) => {
                    assert(signed_at(requests, transcript@, k as int));
                },
            }
            k += 1;
        }
        proof {
            lemma_first_unsigned(requests, transcript@, 0);
        }
        Ok(())
    }

    /// Verifies that all requests come with one certificate.
    fn check_one_signer(&self, transcript: &SessionTranscript) -> (checked: Result<(), Error>)
        requires
            self.doc_requests@.len() > 0,
            first_unsigned(self.doc_requests@, transcript@, 0) == self.doc_requests@.len(),
        ensures
            first_other_signer(self.doc_requests@, 0) <= self.doc_requests@.len(),
            first_other_signer(self.doc_requests@, 0) == self.doc_requests@.len() ==> checked
                is Ok,
            first_other_signer(self.doc_requests@, 0) < self.doc_requests@.len() ==> checked
                == Err::<(), Error>(Error::Holder(HolderError::ReaderAuthsInconsistent)),
    {
        let ghost requests = self.doc_requests@;
        proof {
            lemma_signed(requests, transcript@, 0, 0);
            lemma_first_other_signer(requests, 0);
        }
        let first = &self.doc_requests[0].reader_auth.as_ref().unwrap().certificate;
        let mut j: usize = 0;
        while j < self.doc_requests.len()
            invariant
                j <= self.doc_requests.len(),
                requests == self.doc_requests@,
                requests.len() > 0,
                first_unsigned(requests, transcript@, 0) == requests.len(),
                requests[0].reader_auth matches Some(auth) && *first == auth.certificate,
                first_other_signer(requests, 0) == first_other_signer(requests, j as int),
            decreases self.doc_requests.len() - j,
        {
            proof {
                lemma_signed(requests, transcript@, 0, j as int);
                lemma_first_other_signer(requests, 0);
            }
            let signer = &self.doc_requests[j].reader_auth.as_ref().unwrap().certificate;
            if !crate::bytes::same_bytes(signer.as_bytes(), first.as_bytes()) {
                return Err(Error::Holder(HolderError::ReaderAuthsInconsistent));
            }
            j += 1;
        }
        Ok(())
    }
}

/// The first unsigned request lies within the requests, or is their
/// number.
pub proof fn lemma_first_unsigned(
    requests: Seq<DocRequest>,
    transcript: SessionTranscriptView,
    from: int,
)
    requires
        0 <= from <= requests.len(),
    ensures
        from <= first_unsigned(requests, transcript, from) <= requests.len(),
        first_unsigned(requests, transcript, from) < requests.len() ==> !signed_at(
            requests,
            transcript,
            first_unsigned(requests, transcript, from),
        ),
    decreases requests.len() - from,
{
    if from < requests.len() && signed_at(requests, transcript, from) {
        lemma_first_unsigned(requests, transcript, from + 1);
    }
}

/// The first request of another signer lies within the requests, or is
/// their number.
pub proof fn lemma_first_other_signer(requests: Seq<DocRequest>, from: int)
    requires
        0 <= from <= requests.len(),
    ensures
        from <= first_other_signer(requests, from) <= requests.len(),
    decreases requests.len() - from,
{
    if from < requests.len() && requests[from].reader_auth.unwrap().certificate@
        == requests[0].reader_auth.unwrap().certificate@ {
        lemma_first_other_signer(requests, from + 1);
    }
}

/// Where no request from a position on is unsigned, each of them is
/// signed.
pub proof fn lemma_signed(
    requests: Seq<DocRequest>,
    transcript: SessionTranscriptView,
    from: int,
    k: int,
)
    requires
        0 <= from <= k < requests.len(),
        first_unsigned(requests, transcript, from) == requests.len(),
    ensures
        signed_at(requests, transcript, k),
    decreases k - from,
{
    if from < k {
        lemma_signed(requests, transcript, from + 1, k);
    }
}

/// The label under which an envelope carries the certificate of its
/// signer.
pub const HEADER_X5CHAIN: u64 = 33;

/// The encoding of the signature of a reader: an envelope of the
/// protected header, the certificate of the signer in the unprotected
/// header, no payload, and the signature.
pub open spec fn reader_auth_bytes(protected: Seq<u8>, certificate: Seq<u8>, signature: Seq<u8>) -> Seq<
    u8,
> {
    array_head(4) + bytes(protected) + map_head(1) + unsigned(HEADER_X5CHAIN) + bytes(certificate)
        + null() + bytes(signature)
}

/// The field of the signature of a reader, where a request holds one.
pub open spec fn reader_auth_field(auth: Option<ReaderAuth>) -> Seq<u8> {
    match auth {
        Some(auth) => text("readerAuth"@) + reader_auth_bytes(
            auth.protected@,
            auth.certificate@,
            auth.signature@,
        ),
        None => Seq::empty(),
    }
}

/// The encoding of the request for a document: the request as an encoded
/// item and, where there is one, the signature of the reader.
pub open spec fn doc_request_bytes(request: DocRequest) -> Seq<u8> {
    map_head(
        if request.reader_auth is Some {
            2
        } else {
            1
        },
    ) + text("itemsRequest"@) + encoded_item(request.items_request@.bytes()) + reader_auth_field(
        request.reader_auth,
    )
}

/// The encodings of some requests for documents, one after the other.
pub open spec fn doc_requests_items(requests: Seq<DocRequest>) -> Seq<u8>
    decreases requests.len(),
{
    if requests.len() == 0 {
        Seq::empty()
    } else {
        doc_requests_items(requests.drop_last()) + doc_request_bytes(requests.last())
    }
}

/// The encoding of what a reader requests: the version and the requests
/// for documents.
pub open spec fn device_request_bytes(request: DeviceRequest) -> Seq<u8> {
    map_head(2) + text("version"@) + text(request.version@) + text("docRequests"@) + array_head(
        request.doc_requests@.len() as int,
    ) + doc_requests_items(request.doc_requests@)
}

impl ReaderAuth {
    /// Appends the encoding of this signature.
    pub fn push_cbor(&self, out: &mut Vec<u8>)
        ensures
            final(out)@ == old(out)@ + reader_auth_bytes(
                self.protected@,
                self.certificate@,
                self.signature@,
            ),
    {
        push_array_head(out, 4);
        push_bytes(out, self.protected.as_slice());
        push_map_head(out, 1);
        push_unsigned(out, HEADER_X5CHAIN);
        push_bytes(out, self.certificate.as_bytes());
        push_null(out);
        push_bytes(out, self.signature.as_slice());
        assert(out@ =~= old(out)@ + reader_auth_bytes(
            self.protected@,
            self.certificate@,
            self.signature@,
        ));
    }
}

impl DocRequest {
    /// Appends the encoding of this request.
    pub fn push_cbor(&self, out: &mut Vec<u8>)
        ensures
            final(out)@ == old(out)@ + doc_request_bytes(*self),
    {
        push_map_head(
            out,
            if self.reader_auth.is_some() {
                2
            } else {
                1
            },
        );
        push_text(out, "itemsRequest");
        let items = self.items_request.to_cbor();
        push_encoded_item(out, items.as_slice());
        match &self.reader_auth {
            Some(auth) => {
                push_text(out, "readerAuth");
                auth.push_cbor(out);
            },
            None => {},
        }
        assert(out@ =~= old(out)@ + doc_request_bytes(*self));
    }
}

impl DeviceRequest {
    /// The encoding of this request.
    pub fn to_cbor(&self) -> (encoded: Vec<u8>)
        ensures
            encoded@ == device_request_bytes(*self),
    {
        let mut out: Vec<u8> = Vec::new();
        push_map_head(&mut out, 2);
        push_text(&mut out, "version");
        push_text(&mut out, self.version.as_str());
        push_text(&mut out, "docRequests");
        push_array_head(&mut out, self.doc_requests.len());
        let ghost start = out@;
        let ghost requests = self.doc_requests@;
        let mut i: usize = 0;
        proof {
            assert(requests.take(0) =~= Seq::empty());
            assert(start + doc_requests_items(requests.take(0)) =~= start);
        }
        while i < self.doc_requests.len()
            invariant
                i <= self.doc_requests.len(),
                requests == self.doc_requests@,
                out@ == start + doc_requests_items(requests.take(i as int)),
            decreases self.doc_requests.len() - i,
        {
            self.doc_requests[i].push_cbor(&mut out);
            proof {
                let next = requests.take(i as int + 1);
                assert(next.drop_last() =~= requests.take(i as int));
                assert(next.last() == requests[i as int]);
                assert(out@ =~= start + doc_requests_items(next));
            }
            i += 1;
        }
        assert(requests.take(self.doc_requests.len() as int) =~= requests);
        assert(out@ =~= device_request_bytes(*self));
        out
    }
}

} // verus!
