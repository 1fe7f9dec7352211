//! The disclosure session of a holder: from the engagement of a reader
//! over its verified request and the matching credentials to the
//! encrypted response. Each state is consumed by the step that leaves it.

use crate::cose::cose_key_bytes;
use crate::crypto::{
    aes256_gcm_open, aes256_gcm_seal, p256_public_key_of, p256_shared_secret, session_key_bytes,
    session_nonce, verifying_key_of_cose, CryptoError, SecretKey, SessionKey, SessionKeyUser,
    VerifyingKey, HASH_INPUT_LIMIT,
};
use crate::device_retrieval::{
    request_verdict, tells_of, DeviceRequest, DocRequest, ItemsRequestView, RequestVerdict,
};
use crate::disclosure::{
    device_response_bytes, document_views, response_with, DeviceResponse, Document, SessionData,
    SessionDataView, SessionStatus,
};
use crate::engagement::{
    device_authentication_challenge, engagement_bytes, DeviceAuthenticationKeyed,
    DeviceEngagement, Engagement, Handover, ReaderEngagement, SessionTranscript,
    SessionTranscriptView, SessionType,
};
use crate::errors::{Error, HolderError};
use crate::identifiers::{AttributeIdentifier, AttributeIdentifierView};
use crate::keys::KeyFactory;
use crate::mdocs::{MdocView, StoredMdoc};
use crate::keys::keyed;
use crate::proposed_document::{
    assembled, candidates, first_key_error, is_batch_for, missing_lists, proposed_views,
    stored_view, ProposedDocument, ProposedDocumentView, SignError,
};
use crate::x509::{
    custom_extension_text, Certificate, CertificateError, ReaderRegistration,
    OID_EXT_READER_AUTH_DER,
};
use vstd::prelude::*;

verus! {

/// How a session ended.
#[derive(Debug, Clone, Copy, PartialEq, Eq, Structural)]
pub enum Terminated {
    /// The response reached the reader.
    Success,
    /// A step failed.
    Error,
    /// The holder declined to disclose.
    Cancelled,
}

/// The session after the device has made its engagement: it waits for
/// the request of the reader.
pub struct AwaitingRequest {
    pub device_engagement: DeviceEngagement,
    pub device_private_key: SecretKey,
    pub transcript: SessionTranscript,
    pub device_key: SessionKey,
    pub reader_key: SessionKey,
}

/// What was found for one requested document type: the credentials that
/// hold all requested attributes, as proposed documents, and for each of
/// the others what it lacks.
#[derive(Debug)]
pub struct MatchedDocType<I> {
    pub doc_type: String,
    pub candidates: Vec<ProposedDocument<I>>,
    pub missing: Vec<Vec<AttributeIdentifier>>,
}

pub struct MatchedDocTypeView<I> {
    pub doc_type: Seq<char>,
    pub candidates: Seq<ProposedDocumentView<I>>,
    pub missing: Seq<Seq<AttributeIdentifierView>>,
}

impl<I> View for MatchedDocType<I> {
    type V = MatchedDocTypeView<I>;

    open spec fn view(&self) -> MatchedDocTypeView<I> {
        MatchedDocTypeView {
            doc_type: self.doc_type@,
            candidates: proposed_views(self.candidates@),
            missing: self.missing.deep_view(),
        }
    }
}

/// Matched document types by their values.
pub open spec fn matched_views<I>(matched: Seq<MatchedDocType<I>>) -> Seq<MatchedDocTypeView<I>> {
    Seq::new(matched.len(), |k: int| matched[k]@)
}

/// The session after the request of the reader was verified and matched
/// against the credentials: it waits for the holder's decision.
pub struct Matched<I> {
    pub transcript: SessionTranscript,
    pub device_key: SessionKey,
    pub reader_certificate: Option<Certificate>,
    pub doc_types: Vec<MatchedDocType<I>>,
}

/// The session after the holder approved: one proposed document for each
/// requested document type waits for its signature.
pub struct Signing<I> {
    pub device_key: SessionKey,
    pub proposed_documents: Vec<ProposedDocument<I>>,
}

/// The session after the response was encrypted: it waits for the
/// transport to deliver it.
pub struct Responded {}

/// Lists of stored credentials by their values.
pub open spec fn stored_lists<I>(stored: Seq<Vec<StoredMdoc<I>>>) -> Seq<Seq<(I, MdocView)>> {
    Seq::new(stored.len(), |k: int| stored_view(stored[k]@))
}

/// Whether a list holds the credentials of a document type: its first
/// credential is of that type.
pub open spec fn is_list_of<I>(list: Seq<(I, MdocView)>, doc_type: Seq<char>) -> bool {
    list.len() > 0 && list[0].1.doc_type == doc_type
}

/// The position of the first list of a document type, or the number of
/// lists where there is none.
pub open spec fn list_position<I>(stored: Seq<Seq<(I, MdocView)>>, doc_type: Seq<char>) -> int
    decreases stored.len(),
{
    if stored.len() == 0 {
        0
    } else if is_list_of(stored[0], doc_type) {
        0
    } else {
        1 + list_position(stored.drop_first(), doc_type)
    }
}

/// The credentials of a document type among some lists: the first list
/// of that type, or none.
pub open spec fn list_of<I>(stored: Seq<Seq<(I, MdocView)>>, doc_type: Seq<char>) -> Seq<
    (I, MdocView),
> {
    if list_position(stored, doc_type) < stored.len() {
        stored[list_position(stored, doc_type)]
    } else {
        Seq::empty()
    }
}

/// The lists without the first list of a document type.
pub open spec fn lists_without<I>(stored: Seq<Seq<(I, MdocView)>>, doc_type: Seq<char>) -> Seq<
    Seq<(I, MdocView)>,
> {
    if list_position(stored, doc_type) < stored.len() {
        stored.remove(list_position(stored, doc_type))
    } else {
        stored
    }
}

/// What is found for one request among the credentials of its document
/// type: the challenge of the proposed documents is that of the session
/// for the document type.
pub open spec fn matched_doc_type<I>(
    request: ItemsRequestView,
    list: Seq<(I, MdocView)>,
    transcript: SessionTranscriptView,
) -> MatchedDocTypeView<I> {
    MatchedDocTypeView {
        doc_type: request.doc_type,
        candidates: candidates(
            list,
            request.attribute_identifiers(),
            device_authentication_challenge(transcript, request.doc_type),
        ),
        missing: missing_lists(list, request.attribute_identifiers()),
    }
}

/// What is found for some requests, in their order: each request takes
/// the first list of its document type, which then serves no other.
pub open spec fn matched_doc_types<I>(
    requests: Seq<DocRequest>,
    stored: Seq<Seq<(I, MdocView)>>,
    transcript: SessionTranscriptView,
) -> Seq<MatchedDocTypeView<I>>
    decreases requests.len(),
{
    if requests.len() == 0 {
        Seq::empty()
    } else {
        let request = requests[0].items_request@;
        seq![matched_doc_type(request, list_of(stored, request.doc_type), transcript)]
            + matched_doc_types(
            requests.drop_first(),
            lists_without(stored, request.doc_type),
            transcript,
        )
    }
}

/// The position of a list lies within the lists, on a list of the
/// document type, behind lists of other types; or it is their number.
pub proof fn lemma_list_position<I>(stored: Seq<Seq<(I, MdocView)>>, doc_type: Seq<char>)
    ensures
        0 <= list_position(stored, doc_type) <= stored.len(),
        list_position(stored, doc_type) < stored.len() ==> is_list_of(
            stored[list_position(stored, doc_type)],
            doc_type,
        ),
        forall|k: int|
            0 <= k < list_position(stored, doc_type) ==> !is_list_of(#[trigger] stored[k], doc_type),
    decreases stored.len(),
{
    if stored.len() > 0 && !is_list_of(stored[0], doc_type) {
        let tail = stored.drop_first();
        lemma_list_position(tail, doc_type);
        assert forall|k: int| 0 <= k < list_position(stored, doc_type) implies !is_list_of(
            #[trigger] stored[k],
            doc_type,
        ) by {
            if k > 0 {
                assert(stored[k] == tail[k - 1]);
            }
        }
    }
}

/// Takes the first list of a document type out of some lists.
pub fn take_list<I>(stored: &mut Vec<Vec<StoredMdoc<I>>>, doc_type: &String) -> (list: Vec<
    StoredMdoc<I>,
>)
    ensures
        stored_view(list@) == list_of(stored_lists(old(stored)@), doc_type@),
        stored_lists(final(stored)@) == lists_without(stored_lists(old(stored)@), doc_type@),
{
    let ghost lists = stored_lists(stored@);
    proof {
        lemma_list_position(lists, doc_type@);
    }
    let mut k: usize = 0;
    while k < stored.len()
        invariant
            k <= stored.len(),
            *stored == *old(stored),
            lists == stored_lists(stored@),
            forall|j: int| 0 <= j < k ==> !is_list_of(#[trigger] lists[j], doc_type@),
            0 <= list_position(lists, doc_type@) <= lists.len(),
            list_position(lists, doc_type@) < lists.len() ==> is_list_of(
                lists[list_position(lists, doc_type@)],
                doc_type@,
            ),
            forall|j: int|
                0 <= j < list_position(lists, doc_type@) ==> !is_list_of(
                    #[trigger] lists[j],
                    doc_type@,
                ),
        decreases stored.len() - k,
    {
        let found = stored[k].len() > 0 && stored[k][0].mdoc.doc_type == *doc_type;
        assert(found == is_list_of(lists[k as int], doc_type@));
        if found {
            assert(list_position(lists, doc_type@) == k);
            let list = stored.remove(k);
            assert(stored_lists(stored@) =~= lists.remove(k as int));
            return list;
        }
        k += 1;
    }
    assert(list_position(lists, doc_type@) == lists.len());
    let list: Vec<StoredMdoc<I>> = Vec::new();
    assert(stored_view(list@) =~= Seq::empty());
    list
}

impl DeviceRequest {
    /// Matches the requests against the credentials that storage gave
    /// for their document types: for each request, in their order, the
    /// proposed documents of the credentials that hold all requested
    /// attributes, and what each of the others lacks. A document type of
    /// which storage gave nothing has no candidates and lacks nothing.
    pub fn match_stored_documents<I>(
        &self,
        stored_mdocs: Vec<Vec<StoredMdoc<I>>>,
        session_transcript: &SessionTranscript,
    ) -> (matched: Vec<MatchedDocType<I>>)
        ensures
            matched_views(matched@) == matched_doc_types(
                self.doc_requests@,
                stored_lists(stored_mdocs@),
                session_transcript@,
            ),
    {
        let ghost requests = self.doc_requests@;
        let ghost all = stored_lists(stored_mdocs@);
        let mut stored = stored_mdocs;
        let mut matched: Vec<MatchedDocType<I>> = Vec::new();
        let mut k: usize = 0;
        proof {
            assert(requests.skip(0) =~= requests);
            assert(matched_views(matched@) =~= Seq::empty());
            assert(Seq::<MatchedDocTypeView<I>>::empty() + matched_doc_types(
                requests,
                all,
                session_transcript@,
            ) =~= matched_doc_types(requests, all, session_transcript@));
        }
        while k < self.doc_requests.len()
            invariant
                k <= self.doc_requests.len(),
                requests == self.doc_requests@,
                matched_doc_types(requests, all, session_transcript@) == matched_views(matched@)
                    + matched_doc_types(
                    requests.skip(k as int),
                    stored_lists(stored@),
                    session_transcript@,
                ),
            decreases self.doc_requests.len() - k,
        {
            let request = &self.doc_requests[k].items_request;
            let ghost before = matched_views(matched@);
            let ghost lists = stored_lists(stored@);
            proof {
                assert(requests.skip(k as int)[0] == self.doc_requests@[k as int]);
                assert(requests.skip(k as int).drop_first() =~= requests.skip(k as int + 1));
            }
            let list = take_list(&mut stored, &request.doc_type);
            let requested_attributes = request.attribute_identifiers();
            let challenge = DeviceAuthenticationKeyed::challenge(
                request.doc_type.as_str(),
                session_transcript,
            );
            let (candidates, missing) =
                ProposedDocument::candidates_and_missing_attributes_from_stored_mdocs(
                list,
                &requested_attributes,
                challenge,
            );
            let found = MatchedDocType { doc_type: request.doc_type.clone(), candidates, missing };
            proof {
                assert(found@ == matched_doc_type(
                    request@,
                    list_of(lists, request.doc_type@),
                    session_transcript@,
                ));
            }
            matched.push(found);
            proof {
                assert(matched_views(matched@) =~= before.push(found@));
                let tail = matched_doc_types(
                    requests.skip(k as int + 1),
                    stored_lists(stored@),
                    session_transcript@,
                );
                assert(before + (seq![found@] + tail) =~= before.push(found@) + tail);
            }
            k += 1;
        }
        proof {
            assert(requests.skip(requests.len() as int) =~= Seq::empty());
            assert(matched_views(matched@) + Seq::<MatchedDocTypeView<I>>::empty()
                =~= matched_views(matched@));
        }
        matched
    }
}

/// The first document type without a candidate, or the number of
/// document types.
pub open spec fn first_unsatisfied<I>(matched: Seq<MatchedDocTypeView<I>>, from: int) -> int
    decreases matched.len() - from,
{
    if from < 0 || from >= matched.len() {
        matched.len() as int
    } else if matched[from].candidates.len() == 0 {
        from
    } else {
        first_unsatisfied(matched, from + 1)
    }
}

/// The document that is disclosed for each document type: its last
/// candidate.
pub open spec fn selected<I>(matched: Seq<MatchedDocTypeView<I>>) -> Seq<ProposedDocumentView<I>> {
    Seq::new(matched.len(), |k: int| matched[k].candidates.last())
}

/// The first unsatisfied document type lies within the document types,
/// behind those that have candidates; or it is their number.
pub proof fn lemma_first_unsatisfied<I>(matched: Seq<MatchedDocTypeView<I>>, from: int)
    requires
        0 <= from <= matched.len(),
    ensures
        from <= first_unsatisfied(matched, from) <= matched.len(),
        first_unsatisfied(matched, from) < matched.len() ==> matched[first_unsatisfied(
            matched,
            from,
        )].candidates.len() == 0,
        forall|k: int|
            from <= k < first_unsatisfied(matched, from) ==> (#[trigger] matched[k]).candidates.len()
                > 0,
    decreases matched.len() - from,
{
    if from < matched.len() && matched[from].candidates.len() > 0 {
        lemma_first_unsatisfied(matched, from + 1);
    }
}

/// The session of the device with an engagement of its own: the
/// transcript and the two session keys.
pub open spec fn awaiting(
    state: AwaitingRequest,
    reader_engagement: ReaderEngagement,
    reader_point: Seq<u8>,
    handover: Handover,
) -> bool {
    &&& state.transcript@ == (SessionTranscriptView {
        device_engagement_bytes: engagement_bytes(state.device_engagement),
        ereader_key_bytes: cose_key_bytes(reader_engagement.security.e_sender_key_bytes@),
        handover: handover@,
    })
    &&& state.device_key.bytes() == session_key_bytes(
        p256_shared_secret(state.device_private_key@, reader_point),
        state.transcript@.tagged_bytes(),
        SessionKeyUser::Device,
    )
    &&& state.device_key.agent() == SessionKeyUser::Device
    &&& !state.device_key.spent()
    &&& state.reader_key.bytes() == session_key_bytes(
        p256_shared_secret(state.device_private_key@, reader_point),
        state.transcript@.tagged_bytes(),
        SessionKeyUser::Reader,
    )
    &&& state.reader_key.agent() == SessionKeyUser::Reader
}

/// Whether an outcome is how a session starts on the engagement of a
/// reader, with an engagement of the device and the secret scalar of the
/// key that it names: where the reader's key is no key on P-256, its
/// fault; where the transcript is too long to be hashed, the error of the
/// key derivation; else the session with that engagement and key, and
/// the encoding of the engagement as the message to send.
pub open spec fn starts(
    reader_engagement: ReaderEngagement,
    device_engagement: DeviceEngagement,
    device_scalar: Seq<u8>,
    handover: Handover,
    started: Result<(AwaitingRequest, Vec<u8>), Error>,
) -> bool {
    match verifying_key_of_cose(reader_engagement.security.e_sender_key_bytes@) {
        Err(error) => started matches Err(Error::Crypto(found)) && found == error,
        Ok(reader_point) => {
            let transcript = SessionTranscriptView {
                device_engagement_bytes: engagement_bytes(device_engagement),
                ereader_key_bytes: cose_key_bytes(reader_engagement.security.e_sender_key_bytes@),
                handover: handover@,
            };
            if transcript.tagged_bytes().len() >= HASH_INPUT_LIMIT {
                started matches Err(error) && error == Error::Crypto(CryptoError::Hkdf)
            } else {
                started matches Ok((state, message)) && state.device_engagement
                    == device_engagement && state.device_private_key@ == device_scalar
                    && message@ == engagement_bytes(device_engagement) && awaiting(
                    state,
                    reader_engagement,
                    reader_point,
                    handover,
                )
            }
        },
    }
}

impl AwaitingRequest {
    /// Starts a session on the engagement of a reader: the device makes
    /// an engagement with a fresh ephemeral key, fixes the transcript and
    /// derives the session keys of both agents. The encoding of the
    /// device's engagement is what is sent to the reader.
    pub fn start(
        session_type: SessionType,
        reader_engagement: &ReaderEngagement,
        referrer_url: String,
        handover: Handover,
    ) -> (started: Result<(AwaitingRequest, Vec<u8>), Error>)
        requires
            reader_engagement.security.e_sender_key_bytes.params.len() < usize::MAX,
        ensures
            match verifying_key_of_cose(reader_engagement.security.e_sender_key_bytes@) {
                Err(error) => started matches Err(Error::Crypto(found)) && found == error,
                Ok(reader_point) => match started {
                    Ok((state, message)) => {
                        &&& state.device_engagement.names(
                            referrer_url@,
                            p256_public_key_of(state.device_private_key@),
                        )
                        &&& message@ == engagement_bytes(state.device_engagement)
                        &&& awaiting(state, *reader_engagement, reader_point, handover)
                    },
                    Err(error) => error == Error::Crypto(CryptoError::Hkdf),
                },
            },
            exists|device_engagement: DeviceEngagement, device_scalar: Seq<u8>|
                device_engagement.names(referrer_url@, p256_public_key_of(device_scalar))
                    && #[trigger] starts(
                    *reader_engagement,
                    device_engagement,
                    device_scalar,
                    handover,
                    started,
                ),
    {
        let (device_engagement, device_private_key) = Engagement::new_device_engagement(
            referrer_url,
        );
        let ghost made = device_engagement;
        let ghost scalar = device_private_key@;
        let started = Self::with_engagement(
            session_type,
            reader_engagement,
            device_engagement,
            device_private_key,
            handover,
        );
        assert(starts(*reader_engagement, made, scalar, handover, started));
        started
    }

    /// Starts a session on the engagement of a reader, with an engagement
    /// of the device and the ephemeral key that it names. The keys are
    /// derived, and the session starts, unless the reader's key is no key
    /// on P-256 or the transcript is too long to be hashed.
    pub fn with_engagement(
        session_type: SessionType,
        reader_engagement: &ReaderEngagement,
        device_engagement: DeviceEngagement,
        device_private_key: SecretKey,
        handover: Handover,
    ) -> (started: Result<(AwaitingRequest, Vec<u8>), Error>)
        requires
            reader_engagement.security.e_sender_key_bytes.params.len() < usize::MAX,
            device_engagement.security.e_sender_key_bytes.params.len() < usize::MAX,
        ensures
            starts(
                *reader_engagement,
                device_engagement,
                device_private_key@,
                handover,
                started,
            ),
    {
        let reader_public_key = match VerifyingKey::try_from_cose(
            &reader_engagement.security.e_sender_key_bytes,
        ) {
            Ok(key) => key,
            Err(error) => {
                return Err(Error::Crypto(error));
            },
        };
        let transcript = SessionTranscript::new(
            session_type,
            reader_engagement,
            &device_engagement,
            handover,
        );
        let tagged = transcript.tagged_bytes();
        if tagged.len() as u64 >= HASH_INPUT_LIMIT {
            return Err(Error::Crypto(CryptoError::Hkdf));
        }
        let device_key = SessionKey::new(
            &device_private_key,
            &reader_public_key,
            &transcript,
            SessionKeyUser::Device,
        ).unwrap();
        let reader_key = SessionKey::new(
            &device_private_key,
            &reader_public_key,
            &transcript,
            SessionKeyUser::Reader,
        ).unwrap();
        let message = device_engagement.to_cbor();
        let state = AwaitingRequest {
            device_engagement,
            device_private_key,
            transcript,
            device_key,
            reader_key,
        };
        Ok((state, message))
    }

    /// Decrypts the message that the reader sent: its request, encoded.
    pub fn decrypt(&self, message: &SessionData) -> (plaintext: Result<Vec<u8>, Error>)
        ensures
            match message@.data {
                None => plaintext == Err::<Vec<u8>, Error>(
                    Error::Crypto(CryptoError::MissingCiphertext),
                ),
                Some(ciphertext) => match aes256_gcm_open(
                    self.reader_key.bytes(),
                    session_nonce(self.reader_key.agent()),
                    ciphertext,
                ) {
                    Some(opened) => plaintext matches Ok(found) && found@ == opened,
                    None => plaintext == Err::<Vec<u8>, Error>(Error::Crypto(CryptoError::Aes)),
                },
            },
    {
        match message.decrypt(&self.reader_key) {
            Ok(plaintext) => Ok(plaintext),
            Err(error) => Err(Error::Crypto(error)),
        }
    }

    /// Verifies that one trusted reader signed every request of the
    /// session, and matches the requests against the credentials that
    /// storage gave for their document types.
    pub fn process<I>(
        self,
        request: &DeviceRequest,
        stored_mdocs: Vec<Vec<StoredMdoc<I>>>,
        time: u64,
        trust_anchors: &Vec<Certificate>,
    ) -> (matched: Result<Matched<I>, Error>)
        ensures
            match request_verdict(
                request.doc_requests@,
                self.transcript@,
                time,
                trust_anchors.deep_view(),
            ) {
                RequestVerdict::Trusted(signer) => matched matches Ok(state) && {
                    &&& state.transcript@ == self.transcript@
                    &&& state.device_key == self.device_key
                    &&& match signer {
                        Some(certificate) => state.reader_certificate matches Some(found)
                            && found@ == certificate,
                        None => state.reader_certificate is None,
                    }
                    &&& matched_views(state.doc_types@) == matched_doc_types(
                        request.doc_requests@,
                        stored_lists(stored_mdocs@),
                        self.transcript@,
                    )
                },
                RequestVerdict::Missing(_) => matched matches Err(error) && error == Error::Holder(
                    HolderError::ReaderAuthMissing,
                ),
                RequestVerdict::Inconsistent(_) => matched matches Err(error) && error
                    == Error::Holder(HolderError::ReaderAuthsInconsistent),
                RequestVerdict::Untrusted => matched matches Err(
                    Error::Holder(HolderError::UntrustedIssuer(doc_type)),
                ) && doc_type@ == request.doc_requests@[0].items_request.doc_type@,
                RequestVerdict::Unparsable => matched matches Err(
                    Error::Holder(HolderError::CertificateError(error)),
                ) && error is ValidationParsing,
                RequestVerdict::Forged(_, fault) => matched matches Err(error) && tells_of(
                    error,
                    fault,
                ),
            },
    {
        let reader_certificate = match request.verify(&self.transcript, time, trust_anchors) {
            Ok(reader_certificate) => reader_certificate,
            Err(error) => {
                return Err(error);
            },
        };
        let doc_types = request.match_stored_documents(stored_mdocs, &self.transcript);
        Ok(
            Matched {
                transcript: self.transcript,
                device_key: self.device_key,
                reader_certificate,
                doc_types,
            },
        )
    }
}

impl<I> Matched<I> {
    /// The registration that the certificate of the reader carries, if
    /// it carries one: who asks, and for what.
    pub fn reader_registration(&self) -> (registration: Result<
        Option<ReaderRegistration>,
        CertificateError,
    >)
        ensures
            match self.reader_certificate {
                None => registration matches Ok(None),
                Some(certificate) => match custom_extension_text(
                    certificate@,
                    OID_EXT_READER_AUTH_DER@,
                ) {
                    Ok(Some(text)) => registration matches Ok(Some(found)) && found.json@ == text,
                    Ok(None) => registration matches Ok(None),
                    Err(kind) => registration matches Err(error) && error.kind() == kind,
                },
            },
    {
        match &self.reader_certificate {
            None => Ok(None),
            Some(certificate) => ReaderRegistration::from_certificate(certificate),
        }
    }

    /// Whether a credential was found for every requested document type.
    pub fn is_satisfiable(&self) -> (satisfiable: bool)
        ensures
            satisfiable == (first_unsatisfied(matched_views(self.doc_types@), 0)
                == self.doc_types@.len()),
    {
        let ghost matched = matched_views(self.doc_types@);
        let mut k: usize = 0;
        while k < self.doc_types.len()
            invariant
                k <= self.doc_types.len(),
                matched == matched_views(self.doc_types@),
                first_unsatisfied(matched, 0) == first_unsatisfied(matched, k as int),
            decreases self.doc_types.len() - k,
        {
            proof {
                lemma_first_unsatisfied(matched, k as int);
            }
            assert(matched[k as int].candidates.len() == self.doc_types@[k as int].candidates@.len());
            if self.doc_types[k].candidates.len() == 0 {
                return false;
            }
            k += 1;
        }
        true
    }

    /// The holder approves: for each requested document type the last of
    /// its candidates is disclosed. Where a document type has no
    /// candidate, the first such type is the error.
    pub fn approve(self) -> (approved: Result<Signing<I>, Error>)
        ensures
            first_unsatisfied(matched_views(self.doc_types@), 0) < self.doc_types@.len()
                ==> (approved matches Err(
                Error::Holder(HolderError::UnsatisfiableRequest(doc_type)),
            ) && doc_type@ == self.doc_types@[first_unsatisfied(
                matched_views(self.doc_types@),
                0,
            )].doc_type@),
            first_unsatisfied(matched_views(self.doc_types@), 0) >= self.doc_types@.len()
                ==> (approved matches Ok(state) && state.device_key == self.device_key
                && proposed_views(state.proposed_documents@) == selected(
                matched_views(self.doc_types@),
            )),
    {
        let ghost matched = matched_views(self.doc_types@);
        let mut proposed_documents: Vec<ProposedDocument<I>> = Vec::new();
        proof {
            lemma_first_unsatisfied(matched, 0);
        }
        for doc_type in iter: self.doc_types.into_iter()
            invariant
                iter.seq() == self.doc_types@,
                matched == matched_views(self.doc_types@),
                first_unsatisfied(matched, 0) == first_unsatisfied(matched, iter.index() as int),
                proposed_documents@.len() == iter.index(),
                forall|k: int|
                    0 <= k < iter.index() ==> (#[trigger] proposed_documents@[k])@
                        == matched[k].candidates.last(),
        {
            let ghost index = iter.index() as int;
            proof {
                lemma_first_unsatisfied(matched, index);
                assert(matched[index] == doc_type@);
            }
            let MatchedDocType { doc_type: name, candidates: mut found, missing: _ } = doc_type;
            let ghost views = proposed_views(found@);
            match found.pop() {
                None => {
                    return Err(Error::Holder(HolderError::UnsatisfiableRequest(name)));
                },
                Some(candidate) => {
                    assert(candidate@ == views.last());
                    proposed_documents.push(candidate);
                },
            }
        }
        assert(proposed_views(proposed_documents@) =~= selected(matched));
        Ok(Signing { device_key: self.device_key, proposed_documents })
    }

    /// The holder declines: the session ends, and the message that tells
    /// the reader so is a termination without payload.
    pub fn cancel(self) -> (cancelled: (Terminated, SessionData))
        ensures
            cancelled.0 == Terminated::Cancelled,
            cancelled.1@ == (SessionDataView {
                data: None,
                status: Some(SessionStatus::Termination),
            }),
    {
        (Terminated::Cancelled, SessionData::new_termination())
    }
}

/// Why the documents of a session were not signed, or the response not
/// encrypted.
#[derive(Debug, PartialEq, Eq)]
pub enum ResponseError<E> {
    /// The signer failed.
    Sign(SignError<E>),
    /// The response was not encrypted.
    Session(Error),
}

impl<I> Signing<I> {
    /// Signs the proposed documents in one call of the signer, and
    /// encrypts the response that discloses them. The signer is handed
    /// what [`ProposedDocument::signing_batch`] gives and is not called
    /// where that fails; its answer becomes what [`Signing::answer`]
    /// gives.
    pub fn sign<KF: KeyFactory>(self, key_factory: &KF) -> (response: Result<
        (Responded, SessionData),
        ResponseError<KF::Error>,
    >)
        ensures
            match first_key_error(proposed_views(self.proposed_documents@)) {
                Some(error) => response matches Err(
                    ResponseError::Sign(SignError::PublicKey(found)),
                ) && found == error,
                None => exists|
                    batch: Vec<(Vec<u8>, Vec<KF::Key>)>,
                    signed: Result<Vec<(String, Vec<u8>)>, KF::Error>,
                | #[trigger] self.signed_by(*key_factory, batch, signed, response),
            },
    {
        let batch = match ProposedDocument::signing_batch(key_factory, &self.proposed_documents) {
            Ok(batch) => batch,
            Err(error) => {
                return Err(ResponseError::Sign(SignError::PublicKey(error)));
            },
        };
        let ghost handed = batch;
        let signed = key_factory.sign_with_existing_keys(batch);
        let ghost outcome = signed;
        let response = self.answer(signed);
        proof {
            assert(self.signed_by(*key_factory, handed, outcome, response));
        }
        response
    }

    /// What the session answers to the outcome of the signing: an error
    /// of the signer comes back as it is; with signatures, the answer is
    /// the one that [`Signing::answers`] describes.
    pub fn answer<E>(self, signed: Result<Vec<(String, Vec<u8>)>, E>) -> (response: Result<
        (Responded, SessionData),
        ResponseError<E>,
    >)
        ensures
            self.answers_to(signed, response),
    {
        let Signing { device_key, proposed_documents } = self;
        let documents = match ProposedDocument::into_documents(proposed_documents, signed) {
            Ok(documents) => documents,
            Err(error) => {
                return Err(ResponseError::Sign(error));
            },
        };
        let signing = Signing::<I> { device_key, proposed_documents: Vec::new() };
        match signing.respond(documents) {
            Ok(response) => Ok(response),
            Err(error) => Err(ResponseError::Session(error)),
        }
    }

    /// Whether an outcome is what the session answers to the outcome of
    /// the signing: an error of the signer as it is; with signatures,
    /// what [`Signing::answers`] describes.
    pub open spec fn answers_to<E>(
        self,
        signed: Result<Vec<(String, Vec<u8>)>, E>,
        response: Result<(Responded, SessionData), ResponseError<E>>,
    ) -> bool {
        match signed {
            Err(error) => response matches Err(ResponseError::Sign(SignError::Signing(forwarded)))
                && forwarded == error,
            Ok(signatures) => self.answers(signatures@, response),
        }
    }

    /// Whether an outcome is what the session answers after one call of
    /// a signer: the signer was handed the batch for the proposed
    /// documents, and its answer decided the outcome.
    pub open spec fn signed_by<KF: KeyFactory>(
        self,
        key_factory: KF,
        batch: Vec<(Vec<u8>, Vec<KF::Key>)>,
        signed: Result<Vec<(String, Vec<u8>)>, KF::Error>,
        response: Result<(Responded, SessionData), ResponseError<KF::Error>>,
    ) -> bool {
        &&& is_batch_for(key_factory, batch@, proposed_views(self.proposed_documents@))
        &&& key_factory.answered(batch@, signed)
        &&& self.answers_to(signed, response)
    }

    /// Whether an outcome is what the session answers once the signer
    /// has returned some signatures: where a document is left without a
    /// signature, the error that names its key; else, where the session
    /// key of the device has served already or the encryption fails, the
    /// error that says so; else the response that discloses the signed
    /// documents, encrypted with the session key of the device.
    pub open spec fn answers<E>(
        self,
        signatures: Seq<(String, Vec<u8>)>,
        response: Result<(Responded, SessionData), ResponseError<E>>,
    ) -> bool {
        match assembled(proposed_views(self.proposed_documents@), keyed(signatures)) {
            Err(identifier) => response matches Err(
                ResponseError::Sign(SignError::KeyNotFound(name)),
            ) && name@ == identifier,
            Ok(documents) => if self.device_key.spent() {
                response matches Err(ResponseError::Session(error)) && error == Error::Crypto(
                    CryptoError::KeyAlreadyUsed,
                )
            } else {
                match aes256_gcm_seal(
                    self.device_key.bytes(),
                    session_nonce(self.device_key.agent()),
                    device_response_bytes(response_with(documents)),
                ) {
                    Some(sealed) => response matches Ok((_, message)) && message@ == (
                    SessionDataView { data: Some(sealed), status: None }),
                    None => response matches Err(ResponseError::Session(error)) && error
                        == Error::Crypto(CryptoError::Aes),
                }
            },
        }
    }

    /// Encrypts the response that discloses the signed documents with
    /// the session key of the device, which thereby has served.
    pub fn respond(self, documents: Vec<Document>) -> (response: Result<
        (Responded, SessionData),
        Error,
    >)
        ensures
            self.device_key.spent() ==> (response matches Err(error) && error == Error::Crypto(
                CryptoError::KeyAlreadyUsed,
            )),
            !self.device_key.spent() ==> match aes256_gcm_seal(
                self.device_key.bytes(),
                session_nonce(self.device_key.agent()),
                device_response_bytes(response_with(document_views(documents@))),
            ) {
                Some(sealed) => response matches Ok((_, message)) && message@ == (SessionDataView {
                    data: Some(sealed),
                    status: None,
                }),
                None => response matches Err(error) && error == Error::Crypto(CryptoError::Aes),
            },
    {
        let mut device_key = self.device_key;
        let device_response = DeviceResponse::new(documents);
        let encoded = device_response.to_cbor();
        match SessionData::encrypt(encoded.as_slice(), &mut device_key) {
            Ok(message) => Ok((Responded {  }, message)),
            Err(error) => Err(Error::Crypto(error)),
        }
    }
}

impl Responded {
    /// The end of the session: a success if the transport delivered the
    /// response, else an error.
    pub fn complete(self, delivered: bool) -> (end: Terminated)
        ensures
            end == (if delivered {
                Terminated::Success
            } else {
                Terminated::Error
            }),
    {
        if delivered {
            Terminated::Success
        } else {
            Terminated::Error
        }
    }
}

/// A disclosure session in one of its states. A step consumes the state
/// and gives the next; a step that fails, or for which the session is in
/// no state, ends the session with an error. No state is entered twice.
pub enum DisclosureSession<I> {
    /// Nothing has happened.
    Created,
    /// The engagement of the device is made; the request of the reader
    /// is awaited.
    AwaitingRequest(AwaitingRequest),
    /// The request is verified and matched; the holder's decision is
    /// awaited.
    Matched(Matched<I>),
    /// The holder approved; the documents are being signed.
    Signing(Signing<I>),
    /// The response is encrypted; its delivery is awaited.
    Responded(Responded),
    /// The session has ended.
    Terminated(Terminated),
}

impl<I> DisclosureSession<I> {
    /// A session in which nothing has happened.
    pub fn new() -> (session: Self)
        ensures
            session is Created,
    {
        DisclosureSession::Created
    }

    /// How the session ended, if it has.
    pub fn terminated(&self) -> (end: Option<Terminated>)
        ensures
            end == (match *self {
                DisclosureSession::Terminated(end) => Some(end),
                _ => None,
            }),
    {
        match self {
            DisclosureSession::Terminated(end) => Some(*end),
            _ => None,
        }
    }

    /// The session and the message after the first step, for what the
    /// start of a session gave.
    pub open spec fn after_start(started: Result<(AwaitingRequest, Vec<u8>), Error>) -> (
        Self,
        Result<Vec<u8>, Error>,
    ) {
        match started {
            Ok((state, message)) => (DisclosureSession::AwaitingRequest(state), Ok(message)),
            Err(error) => (DisclosureSession::Terminated(Terminated::Error), Err(error)),
        }
    }

    /// The first step: on the engagement of a reader the device makes its
    /// own, which is what is sent, and derives the keys of the session:
    /// what [`AwaitingRequest::start`] gives.
    pub fn start(
        self,
        session_type: SessionType,
        reader_engagement: &ReaderEngagement,
        referrer_url: String,
        handover: Handover,
    ) -> (step: (Self, Result<Vec<u8>, Error>))
        requires
            reader_engagement.security.e_sender_key_bytes.params.len() < usize::MAX,
        ensures
            !(self is Created) ==> step.0 == DisclosureSession::<I>::Terminated(Terminated::Error)
                && step.1 == Err::<Vec<u8>, Error>(Error::State),
            self is Created && verifying_key_of_cose(
                reader_engagement.security.e_sender_key_bytes@,
            ) is Err ==> step.0 == DisclosureSession::<I>::Terminated(Terminated::Error)
                && step.1 is Err,
            step.1 is Err ==> step.0 == DisclosureSession::<I>::Terminated(Terminated::Error),
            step.1 matches Ok(message) ==> step.0 matches DisclosureSession::AwaitingRequest(state)
                && message@ == engagement_bytes(state.device_engagement) && awaiting(
                state,
                *reader_engagement,
                verifying_key_of_cose(reader_engagement.security.e_sender_key_bytes@)->Ok_0,
                handover,
            ),
            self is Created ==> match verifying_key_of_cose(
                reader_engagement.security.e_sender_key_bytes@,
            ) {
                Err(error) => step.1 == Err::<Vec<u8>, Error>(Error::Crypto(error)),
                Ok(_) => match step.1 {
                    Ok(_) => step.0 matches DisclosureSession::AwaitingRequest(state)
                        && state.device_engagement.names(
                        referrer_url@,
                        p256_public_key_of(state.device_private_key@),
                    ),
                    Err(error) => error == Error::Crypto(CryptoError::Hkdf),
                },
            },
            self is Created ==> exists|
                device_engagement: DeviceEngagement,
                device_scalar: Seq<u8>,
                started: Result<(AwaitingRequest, Vec<u8>), Error>,
            |
                device_engagement.names(referrer_url@, p256_public_key_of(device_scalar))
                    && #[trigger] starts(
                    *reader_engagement,
                    device_engagement,
                    device_scalar,
                    handover,
                    started,
                ) && step == Self::after_start(started),
    {
        match self {
            DisclosureSession::Created => {
                let started = AwaitingRequest::start(
                    session_type,
                    reader_engagement,
                    referrer_url,
                    handover,
                );
                let ghost outcome = started;
                let step = match started {
                    Ok((state, message)) => (
                        DisclosureSession::AwaitingRequest(state),
                        Ok(message),
                    ),
                    Err(error) => (DisclosureSession::Terminated(Terminated::Error), Err(error)),
                };
                assert(step == Self::after_start(outcome));
                step
            },
            _ => (DisclosureSession::Terminated(Terminated::Error), Err(Error::State)),
        }
    }

    /// The second step: the request of the reader is verified and matched
    /// against the credentials that storage gave.
    pub fn process(
        self,
        request: &DeviceRequest,
        stored_mdocs: Vec<Vec<StoredMdoc<I>>>,
        time: u64,
        trust_anchors: &Vec<Certificate>,
    ) -> (step: (Self, Result<(), Error>))
        ensures
            !(self is AwaitingRequest) ==> step.0 == DisclosureSession::<I>::Terminated(
                Terminated::Error,
            ) && step.1 == Err::<(), Error>(Error::State),
            self matches DisclosureSession::AwaitingRequest(state) ==> (match request_verdict(
                request.doc_requests@,
                state.transcript@,
                time,
                trust_anchors.deep_view(),
            ) {
                RequestVerdict::Trusted(_) => step.1 is Ok && (
                step.0 matches DisclosureSession::Matched(matched) && matched.transcript@
                    == state.transcript@ && matched.device_key == state.device_key
                    && matched_views(matched.doc_types@) == matched_doc_types(
                    request.doc_requests@,
                    stored_lists(stored_mdocs@),
                    state.transcript@,
                )),
                _ => step.1 is Err && step.0 == DisclosureSession::<I>::Terminated(
                    Terminated::Error,
                ),
            }),
    {
        match self {
            DisclosureSession::AwaitingRequest(state) => match state.process(
                request,
                stored_mdocs,
                time,
                trust_anchors,
            ) {
                Ok(matched) => (DisclosureSession::Matched(matched), Ok(())),
                Err(error) => (DisclosureSession::Terminated(Terminated::Error), Err(error)),
            },
            _ => (DisclosureSession::Terminated(Terminated::Error), Err(Error::State)),
        }
    }

    /// The holder approves: the documents to disclose are chosen. A
    /// request that the credentials do not meet ends the session.
    pub fn approve(self) -> (step: (Self, Result<(), Error>))
        ensures
            !(self is Matched) ==> step.0 == DisclosureSession::<I>::Terminated(Terminated::Error)
                && step.1 == Err::<(), Error>(Error::State),
            self matches DisclosureSession::Matched(state) ==> (if first_unsatisfied(
                matched_views(state.doc_types@),
                0,
            ) < state.doc_types@.len() {
                step.0 == DisclosureSession::<I>::Terminated(Terminated::Error) && (
                step.1 matches Err(Error::Holder(HolderError::UnsatisfiableRequest(doc_type)))
                    && doc_type@ == state.doc_types@[first_unsatisfied(
                    matched_views(state.doc_types@),
                    0,
                )].doc_type@)
            } else {
                step.1 is Ok && (step.0 matches DisclosureSession::Signing(signing)
                    && signing.device_key == state.device_key && proposed_views(
                    signing.proposed_documents@,
                ) == selected(matched_views(state.doc_types@)))
            }),
    {
        match self {
            DisclosureSession::Matched(state) => {
                proof {
                    lemma_first_unsatisfied(matched_views(state.doc_types@), 0);
                }
                match state.approve() {
                    Ok(signing) => (DisclosureSession::Signing(signing), Ok(())),
                    Err(error) => (DisclosureSession::Terminated(Terminated::Error), Err(error)),
                }
            },
            _ => (DisclosureSession::Terminated(Terminated::Error), Err(Error::State)),
        }
    }

    /// The holder declines: the session ends as cancelled, and the
    /// message for the reader is a termination without payload.
    pub fn cancel(self) -> (step: (Self, Result<SessionData, Error>))
        ensures
            !(self is Matched) ==> step.0 == DisclosureSession::<I>::Terminated(Terminated::Error)
                && step.1 == Err::<SessionData, Error>(Error::State),
            self is Matched ==> step.0 == DisclosureSession::<I>::Terminated(
                Terminated::Cancelled,
            ) && (step.1 matches Ok(message) && message@ == (SessionDataView {
                data: None,
                status: Some(SessionStatus::Termination),
            })),
    {
        match self {
            DisclosureSession::Matched(state) => {
                let (end, message) = state.cancel();
                (DisclosureSession::Terminated(end), Ok(message))
            },
            _ => (DisclosureSession::Terminated(Terminated::Error), Err(Error::State)),
        }
    }

    /// The signed documents are there: the response that discloses them
    /// is encrypted with the session key of the device.
    pub fn respond(self, documents: Vec<Document>) -> (step: (Self, Result<SessionData, Error>))
        ensures
            !(self is Signing) ==> step.0 == DisclosureSession::<I>::Terminated(Terminated::Error)
                && step.1 == Err::<SessionData, Error>(Error::State),
            step.1 is Err ==> step.0 == DisclosureSession::<I>::Terminated(Terminated::Error),
            step.1 is Ok ==> step.0 is Responded,
            self matches DisclosureSession::Signing(state) ==> (!state.device_key.spent()
                ==> (match aes256_gcm_seal(
                state.device_key.bytes(),
                session_nonce(state.device_key.agent()),
                device_response_bytes(response_with(document_views(documents@))),
            ) {
                Some(sealed) => step.1 matches Ok(message) && message@ == (SessionDataView {
                    data: Some(sealed),
                    status: None,
                }),
                None => step.1 is Err,
            })),
    {
        match self {
            DisclosureSession::Signing(state) => match state.respond(documents) {
                Ok((responded, message)) => (DisclosureSession::Responded(responded), Ok(message)),
                Err(error) => (DisclosureSession::Terminated(Terminated::Error), Err(error)),
            },
            _ => (DisclosureSession::Terminated(Terminated::Error), Err(Error::State)),
        }
    }

    /// The signing failed: the session ends with an error, and no
    /// response is made.
    pub fn fail(self) -> (end: Self)
        ensures
            end == DisclosureSession::<I>::Terminated(Terminated::Error),
    {
        DisclosureSession::Terminated(Terminated::Error)
    }

    /// The transport has tried to deliver the response: the session ends,
    /// with success if it was delivered.
    pub fn complete(self, delivered: bool) -> (end: Self)
        ensures
            end == DisclosureSession::<I>::Terminated(
                if self is Responded && delivered {
                    Terminated::Success
                } else {
                    Terminated::Error
                },
            ),
    {
        match self {
            DisclosureSession::Responded(state) => DisclosureSession::Terminated(
                state.complete(delivered),
            ),
            _ => DisclosureSession::Terminated(Terminated::Error),
        }
    }
}

} // verus!
