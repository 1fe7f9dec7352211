//! What travels between device and reader: the session envelope and the
//! disclosed documents.

use crate::cbor::{
    array_head, bytes, encoded_item, map_head, push_array_head, push_bytes, push_encoded_item,
    push_map_head, push_raw, push_text, push_unsigned, text, unsigned,
};
use crate::mdocs::{
    name_space_entries, name_spaces_get_index, name_spaces_len, Entry, EntryView, NameSpaces,
    NameSpacesView,
};
use crate::cose::{
    cose_sign1_detached, detached_envelope, protected_header, protected_header_es256,
    sig_structure, signature_input,
};
use crate::mdocs::{IssuerSigned, IssuerSignedView};
use vstd::prelude::*;

verus! {

/// The status that ends or fails a session.
#[derive(Debug, Clone, Copy, PartialEq, Eq, Structural)]
pub enum SessionStatus {
    EncryptionError,
    DecodingError,
    Termination,
}

impl SessionStatus {
    /// The number that stands for this status on the wire.
    pub fn code(&self) -> (code: u64)
        ensures
            code == status_code(*self),
    {
        match self {
            SessionStatus::EncryptionError => 10,
            SessionStatus::DecodingError => 11,
            SessionStatus::Termination => 20,
        }
    }
}

/// The envelope of a session message: an encrypted payload or a status.
#[derive(Debug, PartialEq, Eq)]
pub struct SessionData {
    pub data: Option<Vec<u8>>,
    pub status: Option<SessionStatus>,
}

pub struct SessionDataView {
    pub data: Option<Seq<u8>>,
    pub status: Option<SessionStatus>,
}

impl View for SessionData {
    type V = SessionDataView;

    open spec fn view(&self) -> SessionDataView {
        SessionDataView {
            data: match self.data {
                Some(data) => Some(data@),
                None => None,
            },
            status: self.status,
        }
    }
}

impl SessionData {
    /// The message that ends a session: no payload, status "termination".
    pub fn new_termination() -> (message: SessionData)
        ensures
            message@ == (SessionDataView {
                data: None,
                status: Some(SessionStatus::Termination),
            }),
    {
        SessionData { data: None, status: Some(SessionStatus::Termination) }
    }

    /// The message that reports a failure to decode what was received.
    pub fn new_decoding_error() -> (message: SessionData)
        ensures
            message@ == (SessionDataView {
                data: None,
                status: Some(SessionStatus::DecodingError),
            }),
    {
        SessionData { data: None, status: Some(SessionStatus::DecodingError) }
    }

    /// The message that reports a failure to decrypt what was received.
    pub fn new_encryption_error() -> (message: SessionData)
        ensures
            message@ == (SessionDataView {
                data: None,
                status: Some(SessionStatus::EncryptionError),
            }),
    {
        SessionData { data: None, status: Some(SessionStatus::EncryptionError) }
    }
}

/// The device's signature over the challenge of the session.
#[derive(Debug, PartialEq, Eq)]
pub struct DeviceSigned {
    /// The attributes that the device itself asserts, as an encoded map;
    /// the holder asserts none.
    pub name_spaces: Vec<u8>,
    /// The envelope of the signature; the challenge that was signed
    /// travels apart.
    pub device_signature: Vec<u8>,
}

pub struct DeviceSignedView {
    pub name_spaces: Seq<u8>,
    pub device_signature: Seq<u8>,
}

impl View for DeviceSigned {
    type V = DeviceSignedView;

    open spec fn view(&self) -> DeviceSignedView {
        DeviceSignedView {
            name_spaces: self.name_spaces@,
            device_signature: self.device_signature@,
        }
    }
}

/// The block for a signature with ES256: an empty map of attributes of
/// the device's own, and the signature in its envelope.
pub open spec fn device_signed(signature: Seq<u8>) -> DeviceSignedView {
    DeviceSignedView {
        name_spaces: map_head(0),
        device_signature: cose_sign1_detached(protected_header_es256(), signature),
    }
}

/// What a key signs for a challenge: the challenge as the payload of a
/// signature with ES256.
pub open spec fn device_signature_input(challenge: Seq<u8>) -> Seq<u8> {
    sig_structure(protected_header_es256(), challenge)
}

impl DeviceSigned {
    /// What a key signs for a challenge.
    pub fn signature_input(challenge: &[u8]) -> (input: Vec<u8>)
        ensures
            input@ == device_signature_input(challenge@),
    {
        let header = protected_header();
        signature_input(header.as_slice(), challenge)
    }

    /// The block for a signature that a key returned.
    pub fn new_signature(signature: &[u8]) -> (signed: DeviceSigned)
        ensures
            signed@ == device_signed(signature@),
    {
        let mut name_spaces: Vec<u8> = Vec::new();
        push_map_head(&mut name_spaces, 0);
        assert(name_spaces@ =~= map_head(0));
        let header = protected_header();
        DeviceSigned {
            name_spaces,
            device_signature: detached_envelope(header.as_slice(), signature),
        }
    }
}

/// A disclosed document: what the issuer signed, narrowed down to what is
/// disclosed, and the device's signature.
#[derive(Debug, PartialEq, Eq)]
pub struct Document {
    pub doc_type: String,
    pub issuer_signed: IssuerSigned,
    pub device_signed: DeviceSigned,
    /// Errors per attribute; the holder reports none.
    pub errors: Option<Vec<u8>>,
}

pub struct DocumentView {
    pub doc_type: Seq<char>,
    pub issuer_signed: IssuerSignedView,
    pub device_signed: DeviceSignedView,
    pub errors: Option<Seq<u8>>,
}

impl View for Document {
    type V = DocumentView;

    open spec fn view(&self) -> DocumentView {
        DocumentView {
            doc_type: self.doc_type@,
            issuer_signed: self.issuer_signed@,
            device_signed: self.device_signed@,
            errors: match self.errors {
                Some(errors) => Some(errors@),
                None => None,
            },
        }
    }
}

/// Documents by their values.
pub open spec fn document_views(documents: Seq<Document>) -> Seq<DocumentView> {
    Seq::new(documents.len(), |k: int| documents[k]@)
}

/// The response of the device: the signed documents, or none where
/// nothing is disclosed.
#[derive(Debug, PartialEq, Eq)]
pub struct DeviceResponse {
    pub version: String,
    pub documents: Option<Vec<Document>>,
    pub status: u64,
}

pub struct DeviceResponseView {
    pub version: Seq<char>,
    pub documents: Option<Seq<DocumentView>>,
    pub status: u64,
}

impl View for DeviceResponse {
    type V = DeviceResponseView;

    open spec fn view(&self) -> DeviceResponseView {
        DeviceResponseView {
            version: self.version@,
            documents: match self.documents {
                Some(documents) => Some(document_views(documents@)),
                None => None,
            },
            status: self.status,
        }
    }
}

/// The version of the response structure.
pub const DEVICE_RESPONSE_VERSION: &'static str = "1.0";

/// The status of a response without errors.
pub const STATUS_OK: u64 = 0;

/// The response that discloses some documents.
pub open spec fn response_with(documents: Seq<DocumentView>) -> DeviceResponseView {
    DeviceResponseView {
        version: DEVICE_RESPONSE_VERSION@,
        documents: Some(documents),
        status: STATUS_OK,
    }
}

/// The encoding of an entry: a map of its four fields.
pub open spec fn entry_bytes(entry: EntryView) -> Seq<u8> {
    map_head(4) + text("digestID"@) + unsigned(entry.digest_id) + text("random"@) + bytes(
        entry.random,
    ) + text("elementIdentifier"@) + text(entry.element_identifier) + text("elementValue"@)
        + entry.element_value
}

/// The encodings of some entries, each as an encoded item.
pub open spec fn entries_items(entries: Seq<EntryView>) -> Seq<u8>
    decreases entries.len(),
{
    if entries.len() == 0 {
        Seq::empty()
    } else {
        entries_items(entries.drop_last()) + encoded_item(entry_bytes(entries.last()))
    }
}

/// The encodings of some name spaces: each name space and the array of
/// its entries.
pub open spec fn name_spaces_items(name_spaces: NameSpacesView) -> Seq<u8>
    decreases name_spaces.len(),
{
    if name_spaces.len() == 0 {
        Seq::empty()
    } else {
        name_spaces_items(name_spaces.drop_last()) + text(name_spaces.last().0) + array_head(
            name_spaces.last().1.len() as int,
        ) + entries_items(name_spaces.last().1)
    }
}

/// The field of the name spaces of what the issuer signed, where there
/// are any.
pub open spec fn name_spaces_field(name_spaces: Option<NameSpacesView>) -> Seq<u8> {
    match name_spaces {
        Some(name_spaces) => text("nameSpaces"@) + map_head(name_spaces.len() as int)
            + name_spaces_items(name_spaces),
        None => Seq::empty(),
    }
}

/// The encoding of what the issuer signed: a map of the name spaces,
/// where there are any, and the signature block as it was received.
pub open spec fn issuer_signed_bytes(issuer_signed: IssuerSignedView) -> Seq<u8> {
    map_head(
        if issuer_signed.name_spaces is Some {
            2
        } else {
            1
        },
    ) + name_spaces_field(issuer_signed.name_spaces) + text("issuerAuth"@)
        + issuer_signed.issuer_auth.cose
}

/// The encoding of what the device signed: the attributes of its own as
/// an encoded item, and the signature.
pub open spec fn device_signed_bytes(device_signed: DeviceSignedView) -> Seq<u8> {
    map_head(2) + text("nameSpaces"@) + encoded_item(device_signed.name_spaces) + text(
        "deviceAuth"@,
    ) + map_head(1) + text("deviceSignature"@) + device_signed.device_signature
}

/// The field of the errors of a document, where there are any.
pub open spec fn errors_field(errors: Option<Seq<u8>>) -> Seq<u8> {
    match errors {
        Some(errors) => text("errors"@) + errors,
        None => Seq::empty(),
    }
}

/// The encoding of a document.
pub open spec fn document_bytes(document: DocumentView) -> Seq<u8> {
    map_head(
        if document.errors is Some {
            4
        } else {
            3
        },
    ) + text("docType"@) + text(document.doc_type) + text("issuerSigned"@) + issuer_signed_bytes(
        document.issuer_signed,
    ) + text("deviceSigned"@) + device_signed_bytes(document.device_signed) + errors_field(
        document.errors,
    )
}

/// The encodings of some documents, one after the other.
pub open spec fn documents_items(documents: Seq<DocumentView>) -> Seq<u8>
    decreases documents.len(),
{
    if documents.len() == 0 {
        Seq::empty()
    } else {
        documents_items(documents.drop_last()) + document_bytes(documents.last())
    }
}

/// The field of the documents of a response, where there are any.
pub open spec fn documents_field(documents: Option<Seq<DocumentView>>) -> Seq<u8> {
    match documents {
        Some(documents) => text("documents"@) + array_head(documents.len() as int)
            + documents_items(documents),
        None => Seq::empty(),
    }
}

/// The encoding of a response.
pub open spec fn device_response_bytes(response: DeviceResponseView) -> Seq<u8> {
    map_head(
        if response.documents is Some {
            3
        } else {
            2
        },
    ) + text("version"@) + text(response.version) + documents_field(response.documents) + text(
        "status"@,
    ) + unsigned(response.status)
}

/// The number that stands for a status on the wire.
pub open spec fn status_code(status: SessionStatus) -> u64 {
    match status {
        SessionStatus::EncryptionError => 10u64,
        SessionStatus::DecodingError => 11u64,
        SessionStatus::Termination => 20u64,
    }
}

/// The encoding of an envelope: a map of the payload and the status, as
/// far as it holds them.
pub open spec fn session_data_bytes(message: SessionDataView) -> Seq<u8> {
    map_head(
        (if message.data is Some {
            1int
        } else {
            0int
        }) + (if message.status is Some {
            1int
        } else {
            0int
        }),
    ) + (match message.data {
        Some(data) => text("data"@) + bytes(data),
        None => Seq::empty(),
    }) + (match message.status {
        Some(status) => text("status"@) + unsigned(status_code(status)),
        None => Seq::empty(),
    })
}

impl Entry {
    /// Appends this entry as an encoded item.
    pub fn push_cbor(&self, out: &mut Vec<u8>)
        ensures
            final(out)@ == old(out)@ + encoded_item(entry_bytes(self@)),
    {
        let mut inner: Vec<u8> = Vec::new();
        push_map_head(&mut inner, 4);
        push_text(&mut inner, "digestID");
        push_unsigned(&mut inner, self.digest_id);
        push_text(&mut inner, "random");
        push_bytes(&mut inner, self.random.as_slice());
        push_text(&mut inner, "elementIdentifier");
        push_text(&mut inner, self.element_identifier.as_str());
        push_text(&mut inner, "elementValue");
        push_raw(&mut inner, self.element_value.as_slice());
        assert(inner@ =~= entry_bytes(self@));
        push_encoded_item(out, inner.as_slice());
    }
}

/// Appends the array of some entries.
fn push_entries(out: &mut Vec<u8>, entries: &Vec<Entry>)
    ensures
        final(out)@ == old(out)@ + array_head(entries.deep_view().len() as int) + entries_items(
            entries.deep_view(),
        ),
{
    let ghost views = entries.deep_view();
    push_array_head(out, entries.len());
    let ghost start = out@;
    let mut j: usize = 0;
    proof {
        assert(views.take(0) =~= Seq::empty());
        assert(start + entries_items(views.take(0)) =~= start);
    }
    while j < entries.len()
        invariant
            j <= entries.len(),
            views == entries.deep_view(),
            out@ == start + entries_items(views.take(j as int)),
        decreases entries.len() - j,
    {
        entries[j].push_cbor(out);
        proof {
            let next = views.take(j as int + 1);
            assert(next.drop_last() =~= views.take(j as int));
            assert(next.last() == entries[j as int]@);
            assert(out@ =~= start + entries_items(next));
        }
        j += 1;
    }
    assert(views.take(entries.len() as int) =~= views);
}

/// Appends the field of the name spaces.
fn push_name_spaces_field(out: &mut Vec<u8>, name_spaces: &Option<NameSpaces>)
    ensures
        final(out)@ == old(out)@ + name_spaces_field(
            match *name_spaces {
                Some(map) => Some(name_space_entries(map)),
                None => None,
            },
        ),
{
    match name_spaces {
        None => {
            assert(out@ =~= old(out)@ + name_spaces_field(None));
        },
        Some(map) => {
            let ghost entries = name_space_entries(*map);
            push_text(out, "nameSpaces");
            let n = name_spaces_len(map);
            push_map_head(out, n);
            let ghost start = out@;
            let mut i: usize = 0;
            proof {
                assert(entries.take(0) =~= Seq::empty());
                assert(start + name_spaces_items(entries.take(0)) =~= start);
            }
            while i < n
                invariant
                    i <= n,
                    n == entries.len(),
                    entries == name_space_entries(*map),
                    out@ == start + name_spaces_items(entries.take(i as int)),
                decreases n - i,
            {
                let (name_space, attributes) = name_spaces_get_index(map, i).unwrap();
                push_text(out, name_space.as_str());
                push_entries(out, attributes);
                proof {
                    let next = entries.take(i as int + 1);
                    assert(next.drop_last() =~= entries.take(i as int));
                    assert(next.last() == entries[i as int]);
                    assert(out@ =~= start + name_spaces_items(next));
                }
                i += 1;
            }
            assert(entries.take(n as int) =~= entries);
            assert(out@ =~= old(out)@ + name_spaces_field(Some(entries)));
        },
    }
}

impl IssuerSigned {
    /// Appends the encoding of what the issuer signed.
    pub fn push_cbor(&self, out: &mut Vec<u8>)
        ensures
            final(out)@ == old(out)@ + issuer_signed_bytes(self@),
    {
        push_map_head(
            out,
            if self.name_spaces.is_some() {
                2
            } else {
                1
            },
        );
        push_name_spaces_field(out, &self.name_spaces);
        push_text(out, "issuerAuth");
        push_raw(out, self.issuer_auth.cose.as_slice());
        assert(out@ =~= old(out)@ + issuer_signed_bytes(self@));
    }
}

impl DeviceSigned {
    /// Appends the encoding of what the device signed.
    pub fn push_cbor(&self, out: &mut Vec<u8>)
        ensures
            final(out)@ == old(out)@ + device_signed_bytes(self@),
    {
        push_map_head(out, 2);
        push_text(out, "nameSpaces");
        push_encoded_item(out, self.name_spaces.as_slice());
        push_text(out, "deviceAuth");
        push_map_head(out, 1);
        push_text(out, "deviceSignature");
        push_raw(out, self.device_signature.as_slice());
        assert(out@ =~= old(out)@ + device_signed_bytes(self@));
    }
}

/// Appends the field of the errors of a document.
fn push_errors_field(out: &mut Vec<u8>, errors: &Option<Vec<u8>>)
    ensures
        final(out)@ == old(out)@ + errors_field(
            match *errors {
                Some(errors) => Some(errors@),
                None => None,
            },
        ),
{
    match errors {
        Some(errors) => {
            push_text(out, "errors");
            push_raw(out, errors.as_slice());
            assert(out@ =~= old(out)@ + errors_field(Some(errors@)));
        },
        None => {
            assert(out@ =~= old(out)@ + errors_field(None));
        },
    }
}

impl Document {
    /// Appends the encoding of this document.
    pub fn push_cbor(&self, out: &mut Vec<u8>)
        ensures
            final(out)@ == old(out)@ + document_bytes(self@),
    {
        push_map_head(
            out,
            if self.errors.is_some() {
                4
            } else {
                3
            },
        );
        push_text(out, "docType");
        push_text(out, self.doc_type.as_str());
        push_text(out, "issuerSigned");
        self.issuer_signed.push_cbor(out);
        push_text(out, "deviceSigned");
        self.device_signed.push_cbor(out);
        push_errors_field(out, &self.errors);
        assert(out@ =~= old(out)@ + document_bytes(self@));
    }
}

/// Appends the field of the documents of a response.
fn push_documents_field(out: &mut Vec<u8>, documents: &Option<Vec<Document>>)
    ensures
        final(out)@ == old(out)@ + documents_field(
            match *documents {
                Some(documents) => Some(document_views(documents@)),
                None => None,
            },
        ),
{
    match documents {
        None => {
            assert(out@ =~= old(out)@ + documents_field(None));
        },
        Some(documents) => {
            let ghost views = document_views(documents@);
            push_text(out, "documents");
            push_array_head(out, documents.len());
            let ghost start = out@;
            let mut i: usize = 0;
            proof {
                assert(views.take(0) =~= Seq::empty());
                assert(start + documents_items(views.take(0)) =~= start);
            }
            while i < documents.len()
                invariant
                    i <= documents.len(),
                    views == document_views(documents@),
                    out@ == start + documents_items(views.take(i as int)),
                decreases documents.len() - i,
            {
                documents[i].push_cbor(out);
                proof {
                    let next = views.take(i as int + 1);
                    assert(next.drop_last() =~= views.take(i as int));
                    assert(next.last() == documents[i as int]@);
                    assert(out@ =~= start + documents_items(next));
                }
                i += 1;
            }
            assert(views.take(documents.len() as int) =~= views);
            assert(out@ =~= old(out)@ + documents_field(Some(views)));
        },
    }
}

impl DeviceResponse {
    /// The response that discloses some documents.
    pub fn new(documents: Vec<Document>) -> (response: DeviceResponse)
        ensures
            response@ == response_with(document_views(documents@)),
    {
        DeviceResponse {
            version: DEVICE_RESPONSE_VERSION.to_owned(),
            documents: Some(documents),
            status: STATUS_OK,
        }
    }

    /// The encoding of this response.
    pub fn to_cbor(&self) -> (encoded: Vec<u8>)
        ensures
            encoded@ == device_response_bytes(self@),
    {
        let mut out: Vec<u8> = Vec::new();
        push_map_head(
            &mut out,
            if self.documents.is_some() {
                3
            } else {
                2
            },
        );
        push_text(&mut out, "version");
        push_text(&mut out, self.version.as_str());
        push_documents_field(&mut out, &self.documents);
        push_text(&mut out, "status");
        push_unsigned(&mut out, self.status);
        assert(out@ =~= device_response_bytes(self@));
        out
    }
}

impl SessionData {
    /// The encoding of this envelope.
    pub fn to_cbor(&self) -> (encoded: Vec<u8>)
        ensures
            encoded@ == session_data_bytes(self@),
    {
        let mut out: Vec<u8> = Vec::new();
        let mut count: usize = 0;
        if self.data.is_some() {
            count += 1;
        }
        if self.status.is_some() {
            count += 1;
        }
        push_map_head(&mut out, count);
        match &self.data {
            Some(data) => {
                push_text(&mut out, "data");
                push_bytes(&mut out, data.as_slice());
            },
            None => {},
        }
        match &self.status {
            Some(status) => {
                push_text(&mut out, "status");
                push_unsigned(&mut out, status.code());
            },
            None => {},
        }
        assert(out@ =~= session_data_bytes(self@));
        out
    }
}

} // verus!
