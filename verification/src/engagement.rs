//! How each party offers to connect, and the transcript that binds both
//! offers: the context of the key derivation and of every signature of a
//! session.

use crate::cbor::{
    array_head, bytes, encoded_item, head, is_argument, lemma_bytes_injective,
    lemma_cancel_prefix, lemma_encoded_item_injective, lemma_head_len, map_head, null,
    push_array_head, push_bytes, push_encoded_item, push_map_head, push_null, push_raw,
    push_text, push_unsigned, text, unsigned, MAJOR_BYTES,
};
use crate::cose::{cose_key_bytes, CoseKey};
use crate::crypto::{
    ec2_cose_key, p256_public_key_of, PublicKey, SecretKey, KEY_LEN, POINT_LEN,
};
use vstd::prelude::*;

verus! {

/// The version of the engagement structure.
pub const ENGAGEMENT_VERSION: &'static str = "1.0";

/// The cipher suite of the session: P-256, HKDF with SHA-256, AES-256-GCM.
pub const CIPHER_SUITE: u64 = 1;

/// The type of the connection method "REST API".
pub struct RestApiType {}

impl RestApiType {
    /// The number that stands for this type.
    pub const REQUIRED_VALUE: u64 = 4;
}

/// The version of the options of the connection method "REST API".
pub struct RestApiOptionsVersion {}

impl RestApiOptionsVersion {
    /// The number that stands for this version.
    pub const REQUIRED_VALUE: u64 = 1;
}

/// The options of the connection method "REST API": where to connect.
pub struct RestApiOptionsKeyed {
    pub uri: String,
}

/// A way for the other party to connect.
pub struct ConnectionMethodKeyed {
    pub typ: RestApiType,
    pub version: RestApiOptionsVersion,
    pub connection_options: RestApiOptionsKeyed,
}

/// A server from which the documents can be retrieved.
pub struct WebSessionInfo {
    pub version: u64,
    pub issuer_url: String,
    pub server_retrieval_token: String,
}

/// The two ways of retrieval from a server.
pub struct ServerRetrievalMethods {
    pub web_api: WebSessionInfo,
    pub oidc: WebSessionInfo,
}

/// The security block of an engagement: the cipher suite and the
/// ephemeral public key of the sender.
pub struct SecurityKeyed {
    pub cipher_suite_identifier: u64,
    pub e_sender_key_bytes: CoseKey,
}

/// An offer to connect.
pub struct Engagement {
    pub version: String,
    pub security: SecurityKeyed,
    pub connection_methods: Option<Vec<ConnectionMethodKeyed>>,
    pub server_retrieval_methods: Option<ServerRetrievalMethods>,
    /// Further information on the protocol: one encoded item.
    pub protocol_info: Option<Vec<u8>>,
}

/// The offer of the device.
pub type DeviceEngagement = Engagement;

/// The offer of the reader.
pub type ReaderEngagement = Engagement;

/// Whether reader and device are one machine or two.
#[derive(Debug, Clone, Copy, PartialEq, Eq, Structural)]
pub enum SessionType {
    SameDevice,
    CrossDevice,
}

/// How the engagement reached the other party, by near-field
/// communication.
#[derive(Debug, PartialEq, Eq)]
pub struct NFCHandover {
    pub handover_select_message: Vec<u8>,
    pub handover_request_message: Option<Vec<u8>>,
}

/// How the engagement reached the other party.
#[derive(Debug, PartialEq, Eq)]
pub enum Handover {
    QRHandover,
    NFCHandover(NFCHandover),
}

pub enum HandoverView {
    QRHandover,
    NFCHandover { select: Seq<u8>, request: Option<Seq<u8>> },
}

impl View for Handover {
    type V = HandoverView;

    open spec fn view(&self) -> HandoverView {
        match self {
            Handover::QRHandover => HandoverView::QRHandover,
            Handover::NFCHandover(nfc) => HandoverView::NFCHandover {
                select: nfc.handover_select_message@,
                request: match nfc.handover_request_message {
                    Some(request) => Some(request@),
                    None => None,
                },
            },
        }
    }
}

impl Clone for Handover {
    fn clone(&self) -> (copy: Self)
        ensures
            copy@ == self@,
    {
        match self {
            Handover::QRHandover => Handover::QRHandover,
            Handover::NFCHandover(nfc) => Handover::NFCHandover(
                NFCHandover {
                    handover_select_message: nfc.handover_select_message.clone(),
                    handover_request_message: match &nfc.handover_request_message {
                        Some(request) => Some(request.clone()),
                        None => None,
                    },
                },
            ),
        }
    }
}

/// The transcript of a session: the encoded engagement of the device,
/// the encoded ephemeral key of the reader, and the handover.
#[derive(Debug, PartialEq, Eq)]
pub struct SessionTranscriptKeyed {
    pub device_engagement_bytes: Vec<u8>,
    pub ereader_key_bytes: Vec<u8>,
    pub handover: Handover,
}

/// Transcript of the session so far.
pub type SessionTranscript = SessionTranscriptKeyed;

pub struct SessionTranscriptView {
    pub device_engagement_bytes: Seq<u8>,
    pub ereader_key_bytes: Seq<u8>,
    pub handover: HandoverView,
}

impl View for SessionTranscriptKeyed {
    type V = SessionTranscriptView;

    open spec fn view(&self) -> SessionTranscriptView {
        SessionTranscriptView {
            device_engagement_bytes: self.device_engagement_bytes@,
            ereader_key_bytes: self.ereader_key_bytes@,
            handover: self.handover@,
        }
    }
}

impl Clone for SessionTranscriptKeyed {
    fn clone(&self) -> (copy: Self)
        ensures
            copy@ == self@,
    {
        SessionTranscriptKeyed {
            device_engagement_bytes: self.device_engagement_bytes.clone(),
            ereader_key_bytes: self.ereader_key_bytes.clone(),
            handover: self.handover.clone(),
        }
    }
}

/// What the device signs with the key of a credential when it discloses
/// attributes of it: the transcript and the document type.
#[derive(Debug, PartialEq, Eq)]
pub struct DeviceAuthenticationKeyed {
    pub session_transcript: SessionTranscript,
    pub doc_type: String,
}

/// The encoding of a handover.
pub open spec fn handover_bytes(handover: HandoverView) -> Seq<u8> {
    match handover {
        HandoverView::QRHandover => null(),
        HandoverView::NFCHandover { select, request } => array_head(2) + bytes(select) + match request {
            Some(request) => bytes(request),
            None => null(),
        },
    }
}

impl SessionTranscriptView {
    /// The canonical encoding of the transcript: an array of the two
    /// encoded items and the handover.
    pub open spec fn bytes(self) -> Seq<u8> {
        array_head(3) + encoded_item(self.device_engagement_bytes) + encoded_item(
            self.ereader_key_bytes,
        ) + handover_bytes(self.handover)
    }

    /// The encoding of the transcript, carried as an encoded item: the
    /// input of the salt of the key derivation.
    pub open spec fn tagged_bytes(self) -> Seq<u8> {
        encoded_item(self.bytes())
    }
}

/// The text that opens what the device signs.
pub open spec fn device_authentication_label() -> Seq<char> {
    "DeviceAuthentication"@
}

/// The encoding of what the device signs for a document type: the label,
/// the transcript, the document type, and an empty map of attributes of
/// the device's own, as an encoded item.
pub open spec fn device_authentication_bytes(
    transcript: SessionTranscriptView,
    doc_type: Seq<char>,
) -> Seq<u8> {
    array_head(4) + text(device_authentication_label()) + transcript.bytes() + text(doc_type)
        + encoded_item(map_head(0))
}

/// The challenge that the device signs for a document type.
pub open spec fn device_authentication_challenge(
    transcript: SessionTranscriptView,
    doc_type: Seq<char>,
) -> Seq<u8> {
    encoded_item(device_authentication_bytes(transcript, doc_type))
}

/// The encoding of a server of retrieval.
pub open spec fn web_session_info_bytes(info: WebSessionInfo) -> Seq<u8> {
    array_head(3) + unsigned(info.version) + text(info.issuer_url@) + text(
        info.server_retrieval_token@,
    )
}

/// The encoding of the ways of retrieval from a server.
pub open spec fn server_retrieval_methods_bytes(methods: ServerRetrievalMethods) -> Seq<u8> {
    map_head(2) + text("webApi"@) + web_session_info_bytes(methods.web_api) + text("oidc"@)
        + web_session_info_bytes(methods.oidc)
}

/// The encoding of a connection method.
pub open spec fn connection_method_bytes(method: ConnectionMethodKeyed) -> Seq<u8> {
    array_head(3) + unsigned(RestApiType::REQUIRED_VALUE) + unsigned(
        RestApiOptionsVersion::REQUIRED_VALUE,
    ) + array_head(1) + text(method.connection_options.uri@)
}

/// The encodings of some connection methods, one after the other.
pub open spec fn connection_method_items(methods: Seq<ConnectionMethodKeyed>) -> Seq<u8>
    decreases methods.len(),
{
    if methods.len() == 0 {
        Seq::empty()
    } else {
        connection_method_items(methods.drop_last()) + connection_method_bytes(methods.last())
    }
}

/// The encoding of a security block.
pub open spec fn security_bytes(security: SecurityKeyed) -> Seq<u8> {
    array_head(2) + unsigned(security.cipher_suite_identifier) + encoded_item(
        cose_key_bytes(security.e_sender_key_bytes@),
    )
}

/// The number of the fields that an engagement holds.
pub open spec fn engagement_field_count(engagement: Engagement) -> int {
    2 + (if engagement.connection_methods.is_some() {
        1int
    } else {
        0int
    }) + (if engagement.server_retrieval_methods.is_some() {
        1int
    } else {
        0int
    }) + (if engagement.protocol_info.is_some() {
        1int
    } else {
        0int
    })
}

/// The leading fields of an engagement, which it always holds: the
/// version and the security block.
pub open spec fn engagement_fixed_bytes(engagement: Engagement) -> Seq<u8> {
    map_head(engagement_field_count(engagement)) + unsigned(0) + text(engagement.version@)
        + unsigned(1) + security_bytes(engagement.security)
}

/// The field of the connection methods, where an engagement holds it.
pub open spec fn connection_methods_field(methods: Option<Vec<ConnectionMethodKeyed>>) -> Seq<u8> {
    match methods {
        Some(methods) => unsigned(2) + array_head(methods@.len() as int) + connection_method_items(
            methods@,
        ),
        None => Seq::empty(),
    }
}

/// The field of the ways of retrieval, where an engagement holds it.
pub open spec fn server_retrieval_field(methods: Option<ServerRetrievalMethods>) -> Seq<u8> {
    match methods {
        Some(methods) => unsigned(3) + server_retrieval_methods_bytes(methods),
        None => Seq::empty(),
    }
}

/// The field of the further information, where an engagement holds it.
pub open spec fn protocol_info_field(info: Option<Vec<u8>>) -> Seq<u8> {
    match info {
        Some(info) => unsigned(4) + info@,
        None => Seq::empty(),
    }
}

/// The encoding of an engagement: a map from the number of each field
/// that it holds to the field.
pub open spec fn engagement_bytes(engagement: Engagement) -> Seq<u8> {
    engagement_fixed_bytes(engagement) + connection_methods_field(engagement.connection_methods)
        + server_retrieval_field(engagement.server_retrieval_methods) + protocol_info_field(
        engagement.protocol_info,
    )
}

/// Appends the field of the connection methods.
fn push_connection_methods(out: &mut Vec<u8>, methods: &Option<Vec<ConnectionMethodKeyed>>)
    ensures
        final(out)@ == old(out)@ + connection_methods_field(*methods),
{
    match methods {
        Some(methods) => {
            push_unsigned(out, 2);
            push_array_head(out, methods.len());
            let ghost start = out@;
            let mut i: usize = 0;
            assert(methods@.take(0) =~= Seq::empty());
            assert(start + connection_method_items(methods@.take(0)) =~= start);
            while i < methods.len()
                invariant
                    i <= methods.len(),
                    out@ == start + connection_method_items(methods@.take(i as int)),
                decreases methods.len() - i,
            {
                methods[i].push_cbor(out);
                proof {
                    let next = methods@.take(i as int + 1);
                    assert(next.drop_last() =~= methods@.take(i as int));
                    assert(next.last() == methods@[i as int]);
                    assert(out@ =~= start + connection_method_items(next));
                }
                i += 1;
            }
            assert(methods@.take(methods.len() as int) =~= methods@);
            assert(out@ =~= old(out)@ + connection_methods_field(Some(*methods)));
        },
        None => {
            assert(out@ =~= old(out)@ + connection_methods_field(None));
        },
    }
}

/// Appends the field of the ways of retrieval.
fn push_server_retrieval(out: &mut Vec<u8>, methods: &Option<ServerRetrievalMethods>)
    ensures
        final(out)@ == old(out)@ + server_retrieval_field(*methods),
{
    match methods {
        Some(methods) => {
            push_unsigned(out, 3);
            methods.push_cbor(out);
            assert(out@ =~= old(out)@ + server_retrieval_field(Some(*methods)));
        },
        None => {
            assert(out@ =~= old(out)@ + server_retrieval_field(None));
        },
    }
}

/// Appends the field of the further information.
fn push_protocol_info(out: &mut Vec<u8>, info: &Option<Vec<u8>>)
    ensures
        final(out)@ == old(out)@ + protocol_info_field(*info),
{
    match info {
        Some(info) => {
            push_unsigned(out, 4);
            push_raw(out, info.as_slice());
            assert(out@ =~= old(out)@ + protocol_info_field(Some(*info)));
        },
        None => {
            assert(out@ =~= old(out)@ + protocol_info_field(None));
        },
    }
}

impl WebSessionInfo {
    /// Appends the encoding of this server of retrieval.
    pub fn push_cbor(&self, out: &mut Vec<u8>)
        ensures
            final(out)@ == old(out)@ + web_session_info_bytes(*self),
    {
        push_array_head(out, 3);
        push_unsigned(out, self.version);
        push_text(out, self.issuer_url.as_str());
        push_text(out, self.server_retrieval_token.as_str());
        assert(out@ =~= old(out)@ + web_session_info_bytes(*self));
    }
}

impl ServerRetrievalMethods {
    /// Appends the encoding of these ways of retrieval.
    pub fn push_cbor(&self, out: &mut Vec<u8>)
        ensures
            final(out)@ == old(out)@ + server_retrieval_methods_bytes(*self),
    {
        push_map_head(out, 2);
        push_text(out, "webApi");
        self.web_api.push_cbor(out);
        push_text(out, "oidc");
        self.oidc.push_cbor(out);
        assert(out@ =~= old(out)@ + server_retrieval_methods_bytes(*self));
    }
}

impl ConnectionMethodKeyed {
    /// Appends the encoding of this connection method.
    pub fn push_cbor(&self, out: &mut Vec<u8>)
        ensures
            final(out)@ == old(out)@ + connection_method_bytes(*self),
    {
        push_array_head(out, 3);
        push_unsigned(out, RestApiType::REQUIRED_VALUE);
        push_unsigned(out, RestApiOptionsVersion::REQUIRED_VALUE);
        push_array_head(out, 1);
        push_text(out, self.connection_options.uri.as_str());
        assert(out@ =~= old(out)@ + connection_method_bytes(*self));
    }
}

impl SecurityKeyed {
    /// Appends the encoding of this security block.
    pub fn push_cbor(&self, out: &mut Vec<u8>)
        requires
            self.e_sender_key_bytes.params.len() < usize::MAX,
        ensures
            final(out)@ == old(out)@ + security_bytes(*self),
    {
        push_array_head(out, 2);
        push_unsigned(out, self.cipher_suite_identifier);
        let key = self.e_sender_key_bytes.to_cbor();
        push_encoded_item(out, key.as_slice());
        assert(out@ =~= old(out)@ + security_bytes(*self));
    }
}

impl Engagement {
    /// An engagement that names the one cipher suite, an ephemeral public
    /// key, and one address to connect to.
    pub fn with_key(uri: String, public_key: &PublicKey) -> (engagement: Engagement)
        ensures
            engagement.names(uri@, public_key@),
    {
        let key = CoseKey::from_verifying_key(public_key);
        let mut methods: Vec<ConnectionMethodKeyed> = Vec::new();
        methods.push(
            ConnectionMethodKeyed {
                typ: RestApiType {  },
                version: RestApiOptionsVersion {  },
                connection_options: RestApiOptionsKeyed { uri },
            },
        );
        Engagement {
            version: ENGAGEMENT_VERSION.to_owned(),
            security: SecurityKeyed { cipher_suite_identifier: CIPHER_SUITE, e_sender_key_bytes: key },
            connection_methods: Some(methods),
            server_retrieval_methods: None,
            protocol_info: None,
        }
    }

    /// What [`Engagement::with_key`] gives for an address and a public
    /// key in its uncompressed encoding.
    pub open spec fn names(self, uri: Seq<char>, public_key: Seq<u8>) -> bool {
        &&& self.version@ == ENGAGEMENT_VERSION@
        &&& self.security.cipher_suite_identifier == CIPHER_SUITE
        &&& self.security.e_sender_key_bytes@ == ec2_cose_key(
            public_key.subrange(1, 1 + KEY_LEN as int),
            public_key.subrange(1 + KEY_LEN as int, POINT_LEN as int),
        )
        &&& self.security.e_sender_key_bytes.params.len() == 3
        &&& self.connection_methods.is_some()
        &&& self.connection_methods.unwrap()@.len() == 1
        &&& self.connection_methods.unwrap()@[0].connection_options.uri@ == uri
        &&& self.server_retrieval_methods.is_none()
        &&& self.protocol_info.is_none()
    }

    /// The engagement of a reader that is reached at `session_url`, with
    /// the fresh ephemeral key that it names.
    pub fn new_reader_engagement(session_url: String) -> (offer: (ReaderEngagement, SecretKey))
        ensures
            offer.0.names(session_url@, p256_public_key_of(offer.1@)),
    {
        let privkey = SecretKey::random();
        let engagement = Engagement::with_key(session_url, &privkey.public_key());
        (engagement, privkey)
    }

    /// The engagement of a device that was sent here from `referrer_url`,
    /// with the fresh ephemeral key that it names.
    pub fn new_device_engagement(referrer_url: String) -> (offer: (DeviceEngagement, SecretKey))
        ensures
            offer.0.names(referrer_url@, p256_public_key_of(offer.1@)),
    {
        let privkey = SecretKey::random();
        let engagement = Engagement::with_key(referrer_url, &privkey.public_key());
        (engagement, privkey)
    }

    /// The address of the first connection method, if there is one.
    pub fn verifier_url(&self) -> (url: Option<&String>)
        ensures
            match self.connection_methods {
                Some(methods) => if methods@.len() > 0 {
                    url == Some(&methods@[0].connection_options.uri)
                } else {
                    url.is_none()
                },
                None => url.is_none(),
            },
    {
        match &self.connection_methods {
            Some(methods) => {
                if methods.len() > 0 {
                    Some(&methods[0].connection_options.uri)
                } else {
                    None
                }
            },
            None => None,
        }
    }

    /// The encoding of this engagement.
    pub fn to_cbor(&self) -> (encoded: Vec<u8>)
        requires
            self.security.e_sender_key_bytes.params.len() < usize::MAX,
        ensures
            encoded@ == engagement_bytes(*self),
    {
        let mut out: Vec<u8> = Vec::new();
        let mut count: usize = 2;
        if self.connection_methods.is_some() {
            count += 1;
        }
        if self.server_retrieval_methods.is_some() {
            count += 1;
        }
        if self.protocol_info.is_some() {
            count += 1;
        }
        push_map_head(&mut out, count);
        push_unsigned(&mut out, 0);
        push_text(&mut out, self.version.as_str());
        push_unsigned(&mut out, 1);
        self.security.push_cbor(&mut out);
        assert(out@ =~= engagement_fixed_bytes(*self));
        push_connection_methods(&mut out, &self.connection_methods);
        push_server_retrieval(&mut out, &self.server_retrieval_methods);
        push_protocol_info(&mut out, &self.protocol_info);
        out
    }
}

impl Handover {
    /// Appends the encoding of this handover.
    pub fn push_cbor(&self, out: &mut Vec<u8>)
        ensures
            final(out)@ == old(out)@ + handover_bytes(self@),
    {
        match self {
            Handover::QRHandover => {
                push_null(out);
            },
            Handover::NFCHandover(nfc) => {
                push_array_head(out, 2);
                push_bytes(out, nfc.handover_select_message.as_slice());
                match &nfc.handover_request_message {
                    Some(request) => push_bytes(out, request.as_slice()),
                    None => push_null(out),
                }
                assert(out@ =~= old(out)@ + handover_bytes(self@));
            },
        }
    }
}

impl SessionTranscriptKeyed {
    /// The transcript of a session: the encoding of the device's
    /// engagement, the encoding of the reader's ephemeral key, and the
    /// handover as it is. The kind of session is no part of it.
    pub fn new(
        session_type: SessionType,
        reader_engagement: &ReaderEngagement,
        device_engagement: &DeviceEngagement,
        handover: Handover,
    ) -> (transcript: SessionTranscript)
        requires
            reader_engagement.security.e_sender_key_bytes.params.len() < usize::MAX,
            device_engagement.security.e_sender_key_bytes.params.len() < usize::MAX,
        ensures
            transcript@ == (SessionTranscriptView {
                device_engagement_bytes: engagement_bytes(*device_engagement),
                ereader_key_bytes: cose_key_bytes(reader_engagement.security.e_sender_key_bytes@),
                handover: handover@,
            }),
    {
        SessionTranscriptKeyed {
            device_engagement_bytes: device_engagement.to_cbor(),
            ereader_key_bytes: reader_engagement.security.e_sender_key_bytes.to_cbor(),
            handover,
        }
    }

    /// Appends the canonical encoding of this transcript.
    pub fn push_cbor(&self, out: &mut Vec<u8>)
        ensures
            final(out)@ == old(out)@ + self@.bytes(),
    {
        push_array_head(out, 3);
        push_encoded_item(out, self.device_engagement_bytes.as_slice());
        push_encoded_item(out, self.ereader_key_bytes.as_slice());
        self.handover.push_cbor(out);
        assert(out@ =~= old(out)@ + self@.bytes());
    }

    /// The canonical encoding of this transcript.
    pub fn to_cbor(&self) -> (encoded: Vec<u8>)
        ensures
            encoded@ == self@.bytes(),
    {
        let mut out: Vec<u8> = Vec::new();
        self.push_cbor(&mut out);
        assert(out@ =~= self@.bytes());
        out
    }

    /// The encoding of this transcript, carried as an encoded item.
    pub fn tagged_bytes(&self) -> (encoded: Vec<u8>)
        ensures
            encoded@ == self@.tagged_bytes(),
    {
        let inner = self.to_cbor();
        let mut out: Vec<u8> = Vec::new();
        push_encoded_item(&mut out, inner.as_slice());
        assert(out@ =~= self@.tagged_bytes());
        out
    }
}

impl DeviceAuthenticationKeyed {
    /// The challenge that the device signs for a document type in a
    /// session.
    pub fn challenge(doc_type: &str, session_transcript: &SessionTranscript) -> (challenge: Vec<u8>)
        ensures
            challenge@ == device_authentication_challenge(session_transcript@, doc_type@),
    {
        let mut inner: Vec<u8> = Vec::new();
        push_array_head(&mut inner, 4);
        push_text(&mut inner, "DeviceAuthentication");
        session_transcript.push_cbor(&mut inner);
        push_text(&mut inner, doc_type);
        let mut empty: Vec<u8> = Vec::new();
        push_map_head(&mut empty, 0);
        assert(empty@ =~= map_head(0));
        push_encoded_item(&mut inner, empty.as_slice());
        assert(inner@ =~= device_authentication_bytes(session_transcript@, doc_type@));
        let mut out: Vec<u8> = Vec::new();
        push_encoded_item(&mut out, inner.as_slice());
        assert(out@ =~= device_authentication_challenge(session_transcript@, doc_type@));
        out
    }
}

impl HandoverView {
    /// Whether the messages of the handover are of lengths that a
    /// machine holds.
    pub open spec fn holdable(self) -> bool {
        match self {
            HandoverView::QRHandover => true,
            HandoverView::NFCHandover { select, request } => is_argument(select.len() as int) && (
            request matches Some(request) ==> is_argument(request.len() as int)),
        }
    }
}

impl SessionTranscriptView {
    /// Whether the parts of the transcript are of lengths that a machine
    /// holds.
    pub open spec fn holdable(self) -> bool {
        &&& is_argument(self.device_engagement_bytes.len() as int)
        &&& is_argument(self.ereader_key_bytes.len() as int)
        &&& self.handover.holdable()
    }
}

/// The encoding of a handover tells the handover: two handovers with the
/// same encoding are the same.
pub proof fn lemma_handover_injective(left: HandoverView, right: HandoverView)
    requires
        left.holdable(),
        right.holdable(),
        handover_bytes(left) == handover_bytes(right),
    ensures
        left == right,
{
    match (left, right) {
        (HandoverView::QRHandover, HandoverView::QRHandover) => {},
        (HandoverView::QRHandover, HandoverView::NFCHandover { select, request }) => {
            assert(handover_bytes(right)[0] == array_head(2)[0]);
            assert(handover_bytes(left)[0] == null()[0]);
        },
        (HandoverView::NFCHandover { select, request }, HandoverView::QRHandover) => {
            assert(handover_bytes(left)[0] == array_head(2)[0]);
            assert(handover_bytes(right)[0] == null()[0]);
        },
        (
            HandoverView::NFCHandover { select: select_left, request: request_left },
            HandoverView::NFCHandover { select: select_right, request: request_right },
        ) => {
            let tail_left = match request_left {
                Some(request) => bytes(request),
                None => null(),
            };
            let tail_right = match request_right {
                Some(request) => bytes(request),
                None => null(),
            };
            assert(handover_bytes(left) =~= array_head(2) + (bytes(select_left) + tail_left));
            assert(handover_bytes(right) =~= array_head(2) + (bytes(select_right) + tail_right));
            lemma_cancel_prefix(
                array_head(2),
                bytes(select_left) + tail_left,
                bytes(select_right) + tail_right,
            );
            lemma_bytes_injective(select_left, tail_left, select_right, tail_right);
            match (request_left, request_right) {
                (Some(a), Some(b)) => {
                    assert(bytes(a) + Seq::<u8>::empty() =~= bytes(a));
                    assert(bytes(b) + Seq::<u8>::empty() =~= bytes(b));
                    lemma_bytes_injective(a, Seq::empty(), b, Seq::empty());
                },
                (Some(a), None) => {
                    lemma_head_len(MAJOR_BYTES as int, a.len() as int);
                    assert(bytes(a)[0] == head(MAJOR_BYTES as int, a.len() as int)[0]);
                    assert(tail_right[0] == 0xf6u8);
                },
                (None, Some(b)) => {
                    lemma_head_len(MAJOR_BYTES as int, b.len() as int);
                    assert(bytes(b)[0] == head(MAJOR_BYTES as int, b.len() as int)[0]);
                    assert(tail_left[0] == 0xf6u8);
                },
                (None, None) => {},
            }
        },
    }
}

/// The canonical encoding of a transcript tells the transcript: two
/// transcripts with the same encoding are the same in every part. A
/// change of the device's engagement, of the reader's key or of the
/// handover changes the encoding.
pub proof fn lemma_transcript_injective(left: SessionTranscriptView, right: SessionTranscriptView)
    requires
        left.holdable(),
        right.holdable(),
        left.bytes() == right.bytes(),
    ensures
        left == right,
{
    let rest_left = encoded_item(left.ereader_key_bytes) + handover_bytes(left.handover);
    let rest_right = encoded_item(right.ereader_key_bytes) + handover_bytes(right.handover);
    assert(left.bytes() =~= array_head(3) + (encoded_item(left.device_engagement_bytes)
        + rest_left));
    assert(right.bytes() =~= array_head(3) + (encoded_item(right.device_engagement_bytes)
        + rest_right));
    lemma_cancel_prefix(
        array_head(3),
        encoded_item(left.device_engagement_bytes) + rest_left,
        encoded_item(right.device_engagement_bytes) + rest_right,
    );
    lemma_encoded_item_injective(
        left.device_engagement_bytes,
        rest_left,
        right.device_engagement_bytes,
        rest_right,
    );
    lemma_encoded_item_injective(
        left.ereader_key_bytes,
        handover_bytes(left.handover),
        right.ereader_key_bytes,
        handover_bytes(right.handover),
    );
    lemma_handover_injective(left.handover, right.handover);
}

/// What is hashed for the salt of the key derivation tells the
/// transcript: two transcripts that give the same input of the salt are
/// the same in every part.
pub proof fn lemma_tagged_transcript_injective(
    left: SessionTranscriptView,
    right: SessionTranscriptView,
)
    requires
        left.holdable(),
        right.holdable(),
        is_argument(left.bytes().len() as int),
        is_argument(right.bytes().len() as int),
        left.tagged_bytes() == right.tagged_bytes(),
    ensures
        left == right,
{
    assert(left.tagged_bytes() + Seq::<u8>::empty() =~= left.tagged_bytes());
    assert(right.tagged_bytes() + Seq::<u8>::empty() =~= right.tagged_bytes());
    lemma_encoded_item_injective(left.bytes(), Seq::empty(), right.bytes(), Seq::empty());
    lemma_transcript_injective(left, right);
}

/// Transcripts that are the same in every part have the same encoding
/// and give the same input of the salt, byte for byte.
pub proof fn lemma_transcript_deterministic(left: SessionTranscriptView, right: SessionTranscriptView)
    requires
        left.device_engagement_bytes == right.device_engagement_bytes,
        left.ereader_key_bytes == right.ereader_key_bytes,
        left.handover == right.handover,
    ensures
        left.bytes() == right.bytes(),
        left.tagged_bytes() == right.tagged_bytes(),
{
}

} // verus!
