//! Matching a request against stored credentials, and narrowing a credential
//! down to what was requested.

use crate::identifiers::{
    identifier_set_contains, identifier_set_get_index, identifier_set_items, identifier_set_len,
    AttributeIdentifier, AttributeIdentifierView,
};
use crate::mdocs::{
    name_space_entries, name_spaces_get_index, name_spaces_insert,
    name_spaces_len, name_spaces_new, Entry, EntryView, IssuerSigned, IssuerSignedView, Mdoc,
    MdocView, NameSpaces, NameSpacesView, StoredMdoc, clone_name_spaces, is_entry_at,
    lemma_attribute_identifiers,
};
use crate::ordered_map::lemma_key_absent;
use crate::crypto::{verifying_key_of_cose, CryptoError, VerifyingKey};
use crate::disclosure::{device_signed, DeviceSigned, Document, DocumentView, document_views};
use crate::keys::{keyed, take_by_key, KeyFactory, MdocEcdsaKey};
use indexmap::IndexSet;
use vstd::prelude::*;

verus! {

/// A credential narrowed down to the requested attributes, waiting for the
/// holder's approval and the device's signature over the challenge.
#[derive(Debug, PartialEq, Eq)]
pub struct ProposedDocument<I> {
    pub source_identifier: I,
    pub private_key_id: String,
    pub doc_type: String,
    pub issuer_signed: IssuerSigned,
    pub device_signed_challenge: Vec<u8>,
}

pub struct ProposedDocumentView<I> {
    pub source_identifier: I,
    pub private_key_id: Seq<char>,
    pub doc_type: Seq<char>,
    pub issuer_signed: IssuerSignedView,
    pub device_signed_challenge: Seq<u8>,
}

impl<I> View for ProposedDocument<I> {
    type V = ProposedDocumentView<I>;

    open spec fn view(&self) -> ProposedDocumentView<I> {
        ProposedDocumentView {
            source_identifier: self.source_identifier,
            private_key_id: self.private_key_id@,
            doc_type: self.doc_type@,
            issuer_signed: self.issuer_signed@,
            device_signed_challenge: self.device_signed_challenge@,
        }
    }
}

/// The test that keeps an entry: its identifier is among the requested.
pub open spec fn is_requested(
    requested: Seq<AttributeIdentifierView>,
    doc_type: Seq<char>,
    name_space: Seq<char>,
) -> spec_fn(EntryView) -> bool {
    |entry: EntryView| requested.contains((doc_type, name_space, entry.element_identifier))
}

/// The entries of one name space that were requested, in their order.
pub open spec fn retained_entries(
    requested: Seq<AttributeIdentifierView>,
    doc_type: Seq<char>,
    name_space: Seq<char>,
    entries: Seq<EntryView>,
) -> Seq<EntryView> {
    entries.filter(is_requested(requested, doc_type, name_space))
}

/// The name spaces with their requested entries, in their order, without
/// the name spaces of which nothing was requested.
pub open spec fn retained_name_spaces(
    requested: Seq<AttributeIdentifierView>,
    doc_type: Seq<char>,
    name_spaces: NameSpacesView,
) -> NameSpacesView
    decreases name_spaces.len(),
{
    if name_spaces.len() == 0 {
        Seq::empty()
    } else {
        let before = retained_name_spaces(requested, doc_type, name_spaces.drop_last());
        let last = name_spaces.last();
        let kept = retained_entries(requested, doc_type, last.0, last.1);
        if kept.len() == 0 {
            before
        } else {
            before.push((last.0, kept))
        }
    }
}

/// The document proposed for a stored credential: the requested part of
/// what the issuer signed, the signature block as it was, and the challenge.
pub open spec fn proposed_document<I>(
    id: I,
    mdoc: MdocView,
    requested: Seq<AttributeIdentifierView>,
    challenge: Seq<u8>,
) -> ProposedDocumentView<I> {
    ProposedDocumentView {
        source_identifier: id,
        private_key_id: mdoc.private_key_id,
        doc_type: mdoc.doc_type,
        issuer_signed: IssuerSignedView {
            name_spaces: match mdoc.issuer_signed.name_spaces {
                Some(name_spaces) => Some(
                    retained_name_spaces(requested, mdoc.doc_type, name_spaces),
                ),
                None => None,
            },
            issuer_auth: mdoc.issuer_signed.issuer_auth,
        },
        device_signed_challenge: challenge,
    }
}

/// The test that a credential lacks an identifier.
pub open spec fn is_missing(mdoc: MdocView) -> spec_fn(AttributeIdentifierView) -> bool {
    |identifier: AttributeIdentifierView| !mdoc.attribute_identifiers().contains(identifier)
}

/// The requested identifiers that a credential lacks, in the order of the
/// request.
pub open spec fn missing_attributes(
    mdoc: MdocView,
    requested: Seq<AttributeIdentifierView>,
) -> Seq<AttributeIdentifierView> {
    requested.filter(is_missing(mdoc))
}

/// The documents proposed for the credentials that lack nothing, in the
/// order of the credentials.
pub open spec fn candidates<I>(
    stored: Seq<(I, MdocView)>,
    requested: Seq<AttributeIdentifierView>,
    challenge: Seq<u8>,
) -> Seq<ProposedDocumentView<I>>
    decreases stored.len(),
{
    if stored.len() == 0 {
        Seq::empty()
    } else {
        let before = candidates(stored.drop_last(), requested, challenge);
        let last = stored.last();
        if missing_attributes(last.1, requested).len() == 0 {
            before.push(proposed_document(last.0, last.1, requested, challenge))
        } else {
            before
        }
    }
}

/// What each credential that lacks something lacks, in the order of the
/// credentials.
pub open spec fn missing_lists<I>(
    stored: Seq<(I, MdocView)>,
    requested: Seq<AttributeIdentifierView>,
) -> Seq<Seq<AttributeIdentifierView>>
    decreases stored.len(),
{
    if stored.len() == 0 {
        Seq::empty()
    } else {
        let before = missing_lists(stored.drop_last(), requested);
        let last = stored.last();
        if missing_attributes(last.1, requested).len() == 0 {
            before
        } else {
            before.push(missing_attributes(last.1, requested))
        }
    }
}

/// Stored credentials as pairs of a name and a value.
pub open spec fn stored_view<I>(stored: Seq<StoredMdoc<I>>) -> Seq<(I, MdocView)> {
    Seq::new(stored.len(), |k: int| (stored[k].id, stored[k].mdoc@))
}

/// Proposed documents by their values.
pub open spec fn proposed_views<I>(documents: Seq<ProposedDocument<I>>) -> Seq<
    ProposedDocumentView<I>,
> {
    Seq::new(documents.len(), |k: int| documents[k]@)
}

/// The total length of some lists.
pub open spec fn total_len(lists: Seq<Seq<AttributeIdentifierView>>) -> nat
    decreases lists.len(),
{
    if lists.len() == 0 {
        0
    } else {
        total_len(lists.drop_last()) + lists.last().len()
    }
}

/// Each stored credential gives either a candidate or a list of what it
/// lacks: the two counts add up to the number of credentials.
pub proof fn lemma_candidates_and_missing_count<I>(
    stored: Seq<(I, MdocView)>,
    requested: Seq<AttributeIdentifierView>,
    challenge: Seq<u8>,
)
    ensures
        candidates(stored, requested, challenge).len() + missing_lists(stored, requested).len()
            == stored.len(),
    decreases stored.len(),
{
    if stored.len() > 0 {
        lemma_candidates_and_missing_count(stored.drop_last(), requested, challenge);
    }
}

/// Where no credential lacks more than one requested attribute, the number
/// of candidates and the number of all missing attributes add up to the
/// number of credentials.
pub proof fn lemma_candidates_and_missing_total<I>(
    stored: Seq<(I, MdocView)>,
    requested: Seq<AttributeIdentifierView>,
    challenge: Seq<u8>,
)
    requires
        forall|k: int|
            0 <= k < stored.len() ==> missing_attributes((#[trigger] stored[k]).1, requested).len()
                <= 1,
    ensures
        candidates(stored, requested, challenge).len() + total_len(
            missing_lists(stored, requested),
        ) == stored.len(),
    decreases stored.len(),
{
    if stored.len() > 0 {
        let head = stored.drop_last();
        assert forall|k: int| 0 <= k < head.len() implies missing_attributes(
            (#[trigger] head[k]).1,
            requested,
        ).len() <= 1 by {
            assert(head[k] == stored[k]);
        }
        lemma_candidates_and_missing_total(head, requested, challenge);
        let last = stored.last();
        assert(last == stored[stored.len() - 1]);
        if missing_attributes(last.1, requested).len() != 0 {
            let lists = missing_lists(stored, requested);
            assert(lists.drop_last() =~= missing_lists(head, requested));
        }
    }
}

/// No retained name space stands twice, and each stems from a name space
/// of the source.
proof fn lemma_retained_keys(
    requested: Seq<AttributeIdentifierView>,
    doc_type: Seq<char>,
    name_spaces: NameSpacesView,
    k: int,
)
    requires
        0 <= k < retained_name_spaces(requested, doc_type, name_spaces).len(),
    ensures
        exists|m: int|
            0 <= m < name_spaces.len() && (#[trigger] name_spaces[m]).0 == retained_name_spaces(
                requested,
                doc_type,
                name_spaces,
            )[k].0 && retained_name_spaces(requested, doc_type, name_spaces)[k].1
                == retained_entries(requested, doc_type, name_spaces[m].0, name_spaces[m].1),
    decreases name_spaces.len(),
{
    let head = name_spaces.drop_last();
    let before = retained_name_spaces(requested, doc_type, head);
    if k < before.len() {
        lemma_retained_keys(requested, doc_type, head, k);
        let m = choose|m: int|
            0 <= m < head.len() && (#[trigger] head[m]).0 == before[k].0 && before[k].1
                == retained_entries(requested, doc_type, head[m].0, head[m].1);
        assert(name_spaces[m] == head[m]);
    } else {
        assert(name_spaces[name_spaces.len() - 1] == name_spaces.last());
    }
}

/// Every attribute of a proposed document was requested and stands in the
/// source credential: the document discloses a part of `requested` and of
/// what the credential holds, and nothing else.
pub proof fn lemma_proposed_attributes<I>(
    id: I,
    mdoc: MdocView,
    requested: Seq<AttributeIdentifierView>,
    challenge: Seq<u8>,
    i: int,
    j: int,
)
    requires
        0 <= i < proposed_document(id, mdoc, requested, challenge).issuer_signed.entries().len(),
        0 <= j < proposed_document(id, mdoc, requested, challenge).issuer_signed.entries()[i].1.len(),
    ensures
        ({
            let proposed = proposed_document(id, mdoc, requested, challenge);
            let name_space = proposed.issuer_signed.entries()[i].0;
            let entry = proposed.issuer_signed.entries()[i].1[j];
            let identifier = (proposed.doc_type, name_space, entry.element_identifier);
            &&& requested.contains(identifier)
            &&& mdoc.has_attribute(identifier)
            &&& mdoc.attribute_identifiers().contains(identifier)
        }),
{
    let proposed = proposed_document(id, mdoc, requested, challenge);
    let source = mdoc.issuer_signed.entries();
    let kept = proposed.issuer_signed.entries();
    assert(kept == retained_name_spaces(requested, mdoc.doc_type, source));
    lemma_retained_keys(requested, mdoc.doc_type, source, i);
    let m = choose|m: int|
        0 <= m < source.len() && (#[trigger] source[m]).0 == kept[i].0 && kept[i].1
            == retained_entries(requested, mdoc.doc_type, source[m].0, source[m].1);
    let pred = is_requested(requested, mdoc.doc_type, source[m].0);
    let entry = kept[i].1[j];
    source[m].1.lemma_filter_pred(pred, j);
    assert(pred(entry));
    assert(source[m].1.filter(pred).contains(entry));
    source[m].1.lemma_filter_contains_rev(pred, entry);
    let n = choose|n: int| 0 <= n < source[m].1.len() && source[m].1[n] == entry;
    let identifier = (proposed.doc_type, kept[i].0, entry.element_identifier);
    assert(is_entry_at(source, m, n, identifier.1, identifier.2));
    lemma_attribute_identifiers(mdoc, identifier);
}

/// Why a proposed document was not signed.
#[derive(Debug, PartialEq, Eq)]
pub enum SignError<E> {
    /// The credential names no public key of the device.
    PublicKey(CryptoError),
    /// The key did not sign: its error, as it came.
    Signing(E),
    /// The signer returned no signature for the key of a document: it
    /// broke its contract. This is no failure of the session that a
    /// holder could mend: whoever drives the signer stops on it.
    KeyNotFound(String),
}

/// The document that a proposed document becomes with a signature.
pub open spec fn document_of<I>(proposed: ProposedDocumentView<I>, signature: Seq<u8>) -> DocumentView {
    DocumentView {
        doc_type: proposed.doc_type,
        issuer_signed: proposed.issuer_signed,
        device_signed: device_signed(signature),
        errors: None,
    }
}

/// The first error among the public keys of some proposed documents.
pub open spec fn first_key_error<I>(documents: Seq<ProposedDocumentView<I>>) -> Option<CryptoError>
    decreases documents.len(),
{
    if documents.len() == 0 {
        None
    } else {
        match verifying_key_of_cose(documents[0].issuer_signed.issuer_auth.device_key) {
            Err(error) => Some(error),
            Ok(_) => first_key_error(documents.drop_first()),
        }
    }
}

/// The documents that some proposed documents become with the signatures
/// that a signer returned by the names of the keys: each document takes
/// the signature of its key, which then serves no other. The name of
/// the key of the first document without a signature is the error.
pub open spec fn assembled<I>(
    documents: Seq<ProposedDocumentView<I>>,
    signatures: Map<Seq<char>, Vec<u8>>,
) -> Result<Seq<DocumentView>, Seq<char>>
    decreases documents.len(),
{
    if documents.len() == 0 {
        Ok(Seq::empty())
    } else {
        let first = documents[0];
        if !signatures.contains_key(first.private_key_id) {
            Err(first.private_key_id)
        } else {
            match assembled(documents.drop_first(), signatures.remove(first.private_key_id)) {
                Ok(rest) => Ok(
                    seq![document_of(first, signatures[first.private_key_id]@)] + rest,
                ),
                Err(identifier) => Err(identifier),
            }
        }
    }
}

/// What [`assembled`] gives after some documents were made already.
pub open spec fn assembled_after(
    done: Seq<DocumentView>,
    rest: Result<Seq<DocumentView>, Seq<char>>,
) -> Result<Seq<DocumentView>, Seq<char>> {
    match rest {
        Ok(rest) => Ok(done + rest),
        Err(identifier) => Err(identifier),
    }
}

/// Whether an outcome is what some proposed documents become with the
/// signatures that a signer returned: the documents, or the error that
/// names the key of the first document without a signature.
pub open spec fn assembles<I, E>(
    documents: Seq<ProposedDocumentView<I>>,
    signatures: Seq<(String, Vec<u8>)>,
    outcome: Result<Vec<Document>, SignError<E>>,
) -> bool {
    match assembled(documents, keyed(signatures)) {
        Ok(expected) => outcome matches Ok(found) && document_views(found@) == expected,
        Err(identifier) => outcome matches Err(SignError::KeyNotFound(name)) && name@
            == identifier,
    }
}

/// What a signer is asked for one proposed document: to sign `input`
/// with the key that has this name and this public key.
#[derive(Debug, PartialEq, Eq)]
pub struct SigningRequest {
    pub input: Vec<u8>,
    pub private_key_id: String,
    pub public_key: VerifyingKey,
}

/// Whether a request is the one for a proposed document: it holds what
/// is signed for the challenge of the document, and the name and the
/// public key of the key of its credential.
pub open spec fn asks_one<I>(request: SigningRequest, document: ProposedDocumentView<I>) -> bool {
    &&& request.input@ == crate::disclosure::device_signature_input(
        document.device_signed_challenge,
    )
    &&& request.private_key_id@ == document.private_key_id
    &&& verifying_key_of_cose(document.issuer_signed.issuer_auth.device_key) == Ok::<
        Seq<u8>,
        CryptoError,
    >(request.public_key@)
}

/// Whether some requests are those for some proposed documents, one for
/// each and in their order.
pub open spec fn asks_for<I>(
    requests: Seq<SigningRequest>,
    documents: Seq<ProposedDocumentView<I>>,
) -> bool {
    &&& requests.len() == documents.len()
    &&& forall|k: int|
        0 <= k < requests.len() ==> asks_one(#[trigger] requests[k], documents[k])
}

/// Whether an outcome is what a proposed document becomes with the
/// outcome of the signing: with a signature the document, with an error
/// of the key that error.
pub open spec fn becomes<I, E>(
    proposed: ProposedDocumentView<I>,
    signed: Result<Vec<u8>, E>,
    document: Result<Document, SignError<E>>,
) -> bool {
    match signed {
        Ok(signature) => document matches Ok(signed_document) && signed_document@ == document_of(
            proposed,
            signature@,
        ),
        Err(error) => document matches Err(SignError::Signing(forwarded)) && forwarded == error,
    }
}

/// Whether an outcome is what some proposed documents become with the
/// outcome of the signing: with signatures what [`assembles`] says, with
/// an error of the signer that error.
pub open spec fn all_become<I, E>(
    documents: Seq<ProposedDocumentView<I>>,
    signed: Result<Vec<(String, Vec<u8>)>, E>,
    outcome: Result<Vec<Document>, SignError<E>>,
) -> bool {
    match signed {
        Ok(signatures) => assembles(documents, signatures@, outcome),
        Err(error) => outcome matches Err(SignError::Signing(forwarded)) && forwarded == error,
    }
}

/// Whether a document is what a proposed document became by signing
/// with a key: the key is the one that the source gave for the name and
/// the public key of the credential, it was asked to sign what is signed
/// for the challenge, and its outcome decided the document.
pub open spec fn signed_with<I, KF: KeyFactory>(
    key_factory: KF,
    proposed: ProposedDocumentView<I>,
    key: KF::Key,
    signed: Result<Vec<u8>, <KF::Key as MdocEcdsaKey>::Error>,
    document: Result<Document, SignError<<KF::Key as MdocEcdsaKey>::Error>>,
) -> bool {
    &&& verifying_key_of_cose(proposed.issuer_signed.issuer_auth.device_key) matches Ok(point)
        && key_factory.key_of(proposed.private_key_id, point, key)
    &&& key.signed(
        crate::disclosure::device_signature_input(proposed.device_signed_challenge),
        signed,
    )
    &&& becomes(proposed, signed, document)
}

/// Whether a pair of a message and keys is what a signer is handed for
/// a proposed document: what is signed for its challenge, and the one
/// key that the source gave for the name and the public key of its
/// credential.
pub open spec fn is_pair_for<I, KF: KeyFactory>(
    key_factory: KF,
    pair: (Vec<u8>, Vec<KF::Key>),
    document: ProposedDocumentView<I>,
) -> bool {
    &&& pair.0@ == crate::disclosure::device_signature_input(document.device_signed_challenge)
    &&& pair.1@.len() == 1
    &&& verifying_key_of_cose(document.issuer_signed.issuer_auth.device_key) matches Ok(point)
        && key_factory.key_of(document.private_key_id, point, pair.1@[0])
}

/// Whether a batch is what a signer is handed for some proposed
/// documents: one pair for each, in their order.
pub open spec fn is_batch_for<I, KF: KeyFactory>(
    key_factory: KF,
    batch: Seq<(Vec<u8>, Vec<KF::Key>)>,
    documents: Seq<ProposedDocumentView<I>>,
) -> bool {
    &&& batch.len() == documents.len()
    &&& forall|k: int|
        0 <= k < batch.len() ==> is_pair_for(key_factory, #[trigger] batch[k], documents[k])
}

/// Whether an outcome is what some proposed documents became by signing
/// in one call of a signer: the signer was handed the batch for the
/// documents, and its answer decided the outcome.
pub open spec fn signed_in_batch<I, KF: KeyFactory>(
    key_factory: KF,
    documents: Seq<ProposedDocumentView<I>>,
    batch: Vec<(Vec<u8>, Vec<KF::Key>)>,
    signed: Result<Vec<(String, Vec<u8>)>, KF::Error>,
    outcome: Result<Vec<Document>, SignError<KF::Error>>,
) -> bool {
    &&& is_batch_for(key_factory, batch@, documents)
    &&& key_factory.answered(batch@, signed)
    &&& all_become(documents, signed, outcome)
}

/// What a signer is asked to sign for some proposed documents: for each,
/// what is signed for its challenge.
pub open spec fn signing_inputs<I>(documents: Seq<ProposedDocumentView<I>>) -> Seq<Seq<u8>> {
    Seq::new(
        documents.len(),
        |k: int| crate::disclosure::device_signature_input(documents[k].device_signed_challenge),
    )
}

impl<I> ProposedDocument<I> {
    /// The document that this proposed document becomes with the outcome
    /// of the signing: with a signature the document, with an error of
    /// the key that error and no document.
    pub fn into_document<E>(self, signed: Result<Vec<u8>, E>) -> (document: Result<
        Document,
        SignError<E>,
    >)
        ensures
            becomes(self@, signed, document),
    {
        match signed {
            Err(error) => Err(SignError::Signing(error)),
            Ok(signature) => Ok(
                Document {
                    doc_type: self.doc_type,
                    issuer_signed: self.issuer_signed,
                    device_signed: DeviceSigned::new_signature(signature.as_slice()),
                    errors: None,
                },
            ),
        }
    }

    /// Convert the [`ProposedDocument`] to a [`Document`] by signing the
    /// challenge with the key that `key_factory` has under the name and
    /// public key of the credential: the key is asked to sign what is
    /// signed for the challenge, and its outcome decides the document as
    /// [`ProposedDocument::into_document`] says. An error of the key
    /// comes back as it is.
    pub fn sign<KF: KeyFactory>(self, key_factory: &KF) -> (document: Result<
        Document,
        SignError<<KF::Key as MdocEcdsaKey>::Error>,
    >)
        ensures
            match verifying_key_of_cose(self@.issuer_signed.issuer_auth.device_key) {
                Err(error) => document matches Err(SignError::PublicKey(found)) && found == error,
                Ok(_) => exists|
                    key: KF::Key,
                    signed: Result<Vec<u8>, <KF::Key as MdocEcdsaKey>::Error>,
                | #[trigger] signed_with(*key_factory, self@, key, signed, document),
            },
    {
        let public_key = match self.issuer_signed.public_key() {
            Ok(public_key) => public_key,
            Err(error) => {
                return Err(SignError::PublicKey(error));
            },
        };
        let private_key = key_factory.generate_existing(self.private_key_id.clone(), public_key);
        let input = DeviceSigned::signature_input(self.device_signed_challenge.as_slice());
        let signed = private_key.try_sign(input.as_slice());
        let ghost view = self@;
        let ghost outcome = signed;
        let document = self.into_document(signed);
        proof {
            assert(signed_with(*key_factory, view, private_key, outcome, document));
        }
        document
    }

    /// The documents that some proposed documents become with the
    /// signatures that a signer returned by the names of the keys.
    pub fn documents_from_signatures<E>(
        proposed_documents: Vec<ProposedDocument<I>>,
        signatures: Vec<(String, Vec<u8>)>,
    ) -> (documents: Result<Vec<Document>, SignError<E>>)
        ensures
            match assembled(proposed_views(proposed_documents@), keyed(signatures@)) {
                Ok(expected) => documents matches Ok(found) && document_views(found@) == expected,
                Err(identifier) => documents matches Err(SignError::KeyNotFound(name)) && name@
                    == identifier,
            },
    {
        let ghost proposed = proposed_views(proposed_documents@);
        let ghost all = keyed(signatures@);
        let mut device_signed_by_key = signatures;
        let mut documents: Vec<Document> = Vec::new();
        proof {
            assert(proposed.skip(0) =~= proposed);
            assert(document_views(documents@) + Seq::<DocumentView>::empty() =~= document_views(
                documents@,
            ));
        }
        for proposed_doc in iter: proposed_documents.into_iter()
            invariant
                iter.seq() == proposed_documents@,
                proposed == proposed_views(proposed_documents@),
                all == keyed(signatures@),
                assembled(proposed, all) == assembled_after(
                    document_views(documents@),
                    assembled(proposed.skip(iter.index() as int), keyed(device_signed_by_key@)),
                ),
        {
            let ghost index = iter.index() as int;
            let ghost held = keyed(device_signed_by_key@);
            let ghost done = document_views(documents@);
            let ghost view = proposed_doc@;
            proof {
                assert(proposed.skip(index)[0] == view);
                assert(proposed.skip(index).drop_first() =~= proposed.skip(index + 1));
            }
            let (found, rest) = take_by_key(device_signed_by_key, &proposed_doc.private_key_id);
            device_signed_by_key = rest;
            match found {
                None => {
                    assert(assembled(proposed.skip(index), held) == Err::<
                        Seq<DocumentView>,
                        Seq<char>,
                    >(view.private_key_id));
                    return Err(SignError::KeyNotFound(proposed_doc.private_key_id));
                },
                Some(signature) => {
                    let document = Document {
                        doc_type: proposed_doc.doc_type,
                        issuer_signed: proposed_doc.issuer_signed,
                        device_signed: DeviceSigned::new_signature(signature.as_slice()),
                        errors: None,
                    };
                    proof {
                        assert(document@ == document_of(view, signature@));
                        assert(assembled(proposed.skip(index), held) == match assembled(
                            proposed.skip(index + 1),
                            held.remove(view.private_key_id),
                        ) {
                            Ok(rest) => Ok::<Seq<DocumentView>, Seq<char>>(
                                seq![document_of(view, signature@)] + rest,
                            ),
                            Err(identifier) => Err(identifier),
                        });
                    }
                    documents.push(document);
                    proof {
                        assert(document_views(documents@) =~= done.push(document@));
                        let tail = assembled(
                            proposed.skip(index + 1),
                            held.remove(view.private_key_id),
                        );
                        if tail is Ok {
                            assert(done + (seq![document@] + tail->Ok_0) =~= done.push(document@)
                                + tail->Ok_0);
                        }
                    }
                },
            }
        }
        proof {
            assert(proposed.skip(proposed.len() as int) =~= Seq::empty());
            assert(document_views(documents@) + Seq::<DocumentView>::empty() =~= document_views(
                documents@,
            ));
        }
        Ok(documents)
    }

    /// The documents that some proposed documents become with the
    /// outcome of the signing: with signatures the documents of
    /// [`ProposedDocument::documents_from_signatures`], with an error of
    /// the signer that error and no document.
    pub fn into_documents<E>(
        proposed_documents: Vec<ProposedDocument<I>>,
        signed: Result<Vec<(String, Vec<u8>)>, E>,
    ) -> (documents: Result<Vec<Document>, SignError<E>>)
        ensures
            all_become(proposed_views(proposed_documents@), signed, documents),
    {
        match signed {
            Err(error) => Err(SignError::Signing(error)),
            Ok(signatures) => Self::documents_from_signatures(proposed_documents, signatures),
        }
    }

    /// What a signer is asked for some proposed documents: one request
    /// for each, in their order, with what is signed for its challenge
    /// and the name and public key of the key of its credential. No
    /// request is made where a credential names no public key: the error
    /// is that of the first such credential.
    pub fn signing_requests(proposed_documents: &Vec<ProposedDocument<I>>) -> (requests: Result<
        Vec<SigningRequest>,
        CryptoError,
    >)
        ensures
            match first_key_error(proposed_views(proposed_documents@)) {
                Some(error) => requests == Err::<Vec<SigningRequest>, CryptoError>(error),
                None => requests matches Ok(found) && asks_for(
                    found@,
                    proposed_views(proposed_documents@),
                ),
            },
    {
        let ghost proposed = proposed_views(proposed_documents@);
        let mut requests: Vec<SigningRequest> = Vec::new();
        let mut i: usize = 0;
        proof {
            assert(proposed.skip(0) =~= proposed);
        }
        while i < proposed_documents.len()
            invariant
                i <= proposed_documents.len(),
                proposed == proposed_views(proposed_documents@),
                first_key_error(proposed) == first_key_error(proposed.skip(i as int)),
                asks_for(requests@, proposed.take(i as int)),
            decreases proposed_documents.len() - i,
        {
            let doc = &proposed_documents[i];
            proof {
                assert(proposed.skip(i as int)[0] == doc@);
                assert(proposed.skip(i as int).drop_first() =~= proposed.skip(i as int + 1));
            }
            let public_key = match doc.issuer_signed.public_key() {
                Ok(public_key) => public_key,
                Err(error) => {
                    return Err(error);
                },
            };
            let request = SigningRequest {
                input: DeviceSigned::signature_input(doc.device_signed_challenge.as_slice()),
                private_key_id: doc.private_key_id.clone(),
                public_key,
            };
            proof {
                assert(asks_one(request, doc@));
                assert forall|k: int| 0 <= k < i + 1 implies asks_one(
                    #[trigger] requests@.push(request)[k],
                    proposed.take(i + 1)[k],
                ) by {
                    if k < i {
                        assert(asks_one(requests@[k], proposed.take(i as int)[k]));
                    }
                }
            }
            requests.push(request);
            i += 1;
        }
        proof {
            assert(proposed.skip(proposed.len() as int) =~= Seq::empty());
            assert(proposed.take(i as int) =~= proposed);
        }
        Ok(requests)
    }

    /// What is handed to a signer for some proposed documents: one pair
    /// for each, in their order, of what is signed for its challenge and
    /// the one key that `key_factory` has under the name and public key
    /// of its credential. Nothing is handed over where a credential names
    /// no public key: the error is that of the first such credential.
    pub fn signing_batch<KF: KeyFactory>(
        key_factory: &KF,
        proposed_documents: &Vec<ProposedDocument<I>>,
    ) -> (batch: Result<Vec<(Vec<u8>, Vec<KF::Key>)>, CryptoError>)
        ensures
            match first_key_error(proposed_views(proposed_documents@)) {
                Some(error) => batch matches Err(found) && found == error,
                None => batch matches Ok(pairs) && is_batch_for(
                    *key_factory,
                    pairs@,
                    proposed_views(proposed_documents@),
                ) && forall|k: int|
                    0 <= k < pairs@.len() ==> (#[trigger] pairs@[k]).0@ == signing_inputs(
                        proposed_views(proposed_documents@),
                    )[k],
            },
    {
        let ghost inputs = signing_inputs(proposed_views(proposed_documents@));
        let requests = match Self::signing_requests(proposed_documents) {
            Ok(requests) => requests,
            Err(error) => {
                return Err(error);
            },
        };
        let mut pairs: Vec<(Vec<u8>, Vec<KF::Key>)> = Vec::new();
        for request in iter: requests.into_iter()
            invariant
                iter.seq() == requests@,
                inputs == signing_inputs(proposed_views(proposed_documents@)),
                asks_for(requests@, proposed_views(proposed_documents@)),
                pairs@.len() == iter.index(),
                forall|k: int|
                    0 <= k < pairs@.len() ==> (#[trigger] pairs@[k]).0@ == inputs[k],
                forall|k: int|
                    0 <= k < pairs@.len() ==> is_pair_for(
                        *key_factory,
                        #[trigger] pairs@[k],
                        proposed_views(proposed_documents@)[k],
                    ),
        {
            proof {
                assert(asks_one(
                    requests@[iter.index() as int],
                    proposed_views(proposed_documents@)[iter.index() as int],
                ));
            }
            let key = key_factory.generate_existing(request.private_key_id, request.public_key);
            let mut keys: Vec<KF::Key> = Vec::new();
            keys.push(key);
            let pair = (request.input, keys);
            assert(is_pair_for(
                *key_factory,
                pair,
                proposed_views(proposed_documents@)[iter.index() as int],
            ));
            pairs.push(pair);
        }
        Ok(pairs)
    }

    /// Convert some proposed documents to documents by signing the
    /// challenge of each with the key of its credential, in one call of
    /// the signer, which is handed what [`ProposedDocument::signing_batch`]
    /// gives and is not called where that fails. Its answer becomes what
    /// [`ProposedDocument::into_documents`] gives: an error of the signer
    /// comes back as it is.
    pub fn sign_multiple<KF: KeyFactory>(
        key_factory: &KF,
        proposed_documents: Vec<ProposedDocument<I>>,
    ) -> (documents: Result<Vec<Document>, SignError<KF::Error>>)
        ensures
            match first_key_error(proposed_views(proposed_documents@)) {
                Some(error) => documents matches Err(SignError::PublicKey(found)) && found
                    == error,
                None => exists|
                    batch: Vec<(Vec<u8>, Vec<KF::Key>)>,
                    signed: Result<Vec<(String, Vec<u8>)>, KF::Error>,
                | #[trigger]
                    signed_in_batch(
                        *key_factory,
                        proposed_views(proposed_documents@),
                        batch,
                        signed,
                        documents,
                    ),
            },
    {
        let batch = match Self::signing_batch(key_factory, &proposed_documents) {
            Ok(batch) => batch,
            Err(error) => {
                return Err(SignError::PublicKey(error));
            },
        };
        let ghost handed = batch;
        let signed = key_factory.sign_with_existing_keys(batch);
        let ghost outcome = signed;
        let documents = Self::into_documents(proposed_documents, signed);
        proof {
            assert(signed_in_batch(
                *key_factory,
                proposed_views(proposed_documents@),
                handed,
                outcome,
                documents,
            ));
        }
        documents
    }

    /// For stored credentials of one document type, the proposed documents
    /// of those that hold every requested attribute, and for each of the
    /// others the list of what it lacks. Both keep the order of the
    /// credentials; a list of missing attributes keeps the order of the
    /// request.
    pub fn candidates_and_missing_attributes_from_stored_mdocs(
        stored_mdocs: Vec<StoredMdoc<I>>,
        requested_attributes: &IndexSet<AttributeIdentifier>,
        device_signed_challenge: Vec<u8>,
    ) -> (found: (Vec<Self>, Vec<Vec<AttributeIdentifier>>))
        ensures
            found.0.len() + found.1.len() == stored_mdocs.len(),
            proposed_views(found.0@) == candidates(
                stored_view(stored_mdocs@),
                identifier_set_items(*requested_attributes),
                device_signed_challenge@,
            ),
            found.1.deep_view() == missing_lists(
                stored_view(stored_mdocs@),
                identifier_set_items(*requested_attributes),
            ),
    {
        let ghost stored = stored_view(stored_mdocs@);
        let ghost requested = identifier_set_items(*requested_attributes);
        let ghost challenge = device_signed_challenge@;
        let mut proposed_documents: Vec<Self> = Vec::new();
        let mut all_missing_attributes: Vec<Vec<AttributeIdentifier>> = Vec::new();
        proof {
            assert(stored.take(0) =~= Seq::empty());
            assert(proposed_views(proposed_documents@) =~= Seq::empty());
            assert(all_missing_attributes.deep_view() =~= Seq::empty());
        }
        for stored_mdoc in iter: stored_mdocs.into_iter()
            invariant
                iter.seq() == stored_mdocs@,
                stored == stored_view(stored_mdocs@),
                requested == identifier_set_items(*requested_attributes),
                challenge == device_signed_challenge@,
                proposed_views(proposed_documents@) == candidates(
                    stored.take(iter.index() as int),
                    requested,
                    challenge,
                ),
                all_missing_attributes.deep_view() == missing_lists(
                    stored.take(iter.index() as int),
                    requested,
                ),
        {
            let ghost k = iter.index() as int;
            let ghost before_candidates = proposed_views(proposed_documents@);
            let ghost before_missing = all_missing_attributes.deep_view();
            proof {
                let next = stored.take(k + 1);
                assert(next.drop_last() =~= stored.take(k));
                assert(next.last() == (stored_mdoc.id, stored_mdoc.mdoc@));
            }
            let missing_attributes = Self::missing_from(&stored_mdoc.mdoc, requested_attributes);
            if missing_attributes.len() == 0 {
                let proposed = Self::from_stored_mdoc(
                    stored_mdoc,
                    requested_attributes,
                    device_signed_challenge.clone(),
                );
                proposed_documents.push(proposed);
                assert(proposed_views(proposed_documents@) =~= before_candidates.push(proposed@));
            } else {
                all_missing_attributes.push(missing_attributes);
                assert(all_missing_attributes.deep_view() =~= before_missing.push(
                    missing_attributes.deep_view(),
                ));
            }
        }
        proof {
            assert(stored.take(stored.len() as int) =~= stored);
            lemma_candidates_and_missing_count(stored, requested, challenge);
        }
        (proposed_documents, all_missing_attributes)
    }

    /// The requested identifiers that a credential lacks, in the order of
    /// the request.
    pub fn missing_from(mdoc: &Mdoc, requested_attributes: &IndexSet<AttributeIdentifier>) -> (missing:
        Vec<AttributeIdentifier>)
        ensures
            missing.deep_view() == missing_attributes(
                mdoc@,
                identifier_set_items(*requested_attributes),
            ),
    {
        let available_attributes = mdoc.issuer_signed_attribute_identifiers();
        let ghost requested = identifier_set_items(*requested_attributes);
        let ghost pred = is_missing(mdoc@);
        let mut missing: Vec<AttributeIdentifier> = Vec::new();
        let n = identifier_set_len(requested_attributes);
        let mut i: usize = 0;
        proof {
            assert(requested.take(0) =~= Seq::empty());
            assert(missing.deep_view() =~= Seq::empty());
        }
        while i < n
            invariant
                i <= n,
                n == requested.len(),
                requested == identifier_set_items(*requested_attributes),
                pred == is_missing(mdoc@),
                identifier_set_items(available_attributes) == mdoc@.attribute_identifiers(),
                missing.deep_view() == requested.take(i as int).filter(pred),
            decreases n - i,
        {
            let identifier = identifier_set_get_index(requested_attributes, i).unwrap();
            let ghost before = missing.deep_view();
            proof {
                assert(requested.take(i as int + 1) =~= requested.take(i as int).push(
                    identifier@,
                ));
                requested.take(i as int).lemma_filter_push(identifier@, pred);
            }
            if !identifier_set_contains(&available_attributes, identifier) {
                let copy: AttributeIdentifier = (
                    identifier.0.clone(),
                    identifier.1.clone(),
                    identifier.2.clone(),
                );
                missing.push(copy);
                assert(missing.deep_view() =~= before.push(identifier@));
            }
            i += 1;
        }
        assert(requested.take(n as int) =~= requested);
        missing
    }

    /// The entries of one name space that were requested, in their order.
    fn requested_entries(
        doc_type: &String,
        name_space: &String,
        entries: &Vec<Entry>,
        requested_attributes: &IndexSet<AttributeIdentifier>,
    ) -> (kept: Vec<Entry>)
        ensures
            kept.deep_view() == retained_entries(
                identifier_set_items(*requested_attributes),
                doc_type@,
                name_space@,
                entries.deep_view(),
            ),
    {
        let ghost pred = is_requested(
            identifier_set_items(*requested_attributes),
            doc_type@,
            name_space@,
        );
        let ghost source = entries.deep_view();
        let mut kept: Vec<Entry> = Vec::new();
        let mut j: usize = 0;
        proof {
            assert(source.take(0) =~= Seq::empty());
            assert(kept.deep_view() =~= Seq::empty());
        }
        while j < entries.len()
            invariant
                j <= entries.len(),
                source == entries.deep_view(),
                pred == is_requested(
                    identifier_set_items(*requested_attributes),
                    doc_type@,
                    name_space@,
                ),
                kept.deep_view() == source.take(j as int).filter(pred),
            decreases entries.len() - j,
        {
            let attribute_identifier: AttributeIdentifier = (
                doc_type.clone(),
                name_space.clone(),
                entries[j].element_identifier.clone(),
            );
            let ghost before = kept.deep_view();
            proof {
                assert(source.take(j as int + 1) =~= source.take(j as int).push(
                    entries[j as int]@,
                ));
                source.take(j as int).lemma_filter_push(entries[j as int]@, pred);
            }
            if identifier_set_contains(requested_attributes, &attribute_identifier) {
                let entry = entries[j].clone();
                kept.push(entry);
                assert(kept.deep_view() =~= before.push(entries[j as int]@));
            }
            j += 1;
        }
        assert(source.take(entries.len() as int) =~= source);
        kept
    }

    /// The name spaces narrowed down to the requested entries; a name space
    /// of which nothing was requested is left out.
    fn requested_name_spaces(
        doc_type: &String,
        name_spaces: &NameSpaces,
        requested_attributes: &IndexSet<AttributeIdentifier>,
    ) -> (kept: NameSpaces)
        ensures
            name_space_entries(kept) == retained_name_spaces(
                identifier_set_items(*requested_attributes),
                doc_type@,
                name_space_entries(*name_spaces),
            ),
    {
        let ghost requested = identifier_set_items(*requested_attributes);
        let ghost source = name_space_entries(*name_spaces);
        let mut kept = name_spaces_new();
        let n = name_spaces_len(name_spaces);
        let mut i: usize = 0;
        proof {
            assert(source.take(0) =~= Seq::empty());
        }
        while i < n
            invariant
                i <= n,
                n == source.len(),
                source == name_space_entries(*name_spaces),
                requested == identifier_set_items(*requested_attributes),
                name_space_entries(kept) == retained_name_spaces(
                    requested,
                    doc_type@,
                    source.take(i as int),
                ),
            decreases n - i,
        {
            let (name_space, entries) = name_spaces_get_index(name_spaces, i).unwrap();
            let attributes = Self::requested_entries(
                doc_type,
                name_space,
                entries,
                requested_attributes,
            );
            proof {
                let next = source.take(i as int + 1);
                assert(next.drop_last() =~= source.take(i as int));
                assert(next.last() == source[i as int]);
            }
            if attributes.len() != 0 {
                proof {
                    let before = name_space_entries(kept);
                    assert forall|k: int| 0 <= k < before.len() implies (#[trigger] before[k]).0
                        != name_space@ by {
                        lemma_retained_keys(requested, doc_type@, source.take(i as int), k);
                        let m = choose|m: int|
                            0 <= m < source.take(i as int).len() && (#[trigger] source.take(
                                i as int,
                            )[m]).0 == before[k].0;
                        assert(source.take(i as int)[m] == source[m]);
                    }
                    lemma_key_absent(before, name_space@);
                }
                name_spaces_insert(&mut kept, name_space.clone(), attributes);
            }
            i += 1;
        }
        assert(source.take(n as int) =~= source);
        kept
    }

    /// The document proposed for a stored credential: of what the issuer
    /// signed only the requested attributes, with the signature block, the
    /// document type and the name of the device key as they were, and the
    /// challenge that the device is to sign.
    pub fn from_stored_mdoc(
        stored_mdoc: StoredMdoc<I>,
        requested_attributes: &IndexSet<AttributeIdentifier>,
        device_signed_challenge: Vec<u8>,
    ) -> (proposed: Self)
        ensures
            proposed@ == proposed_document(
                stored_mdoc.id,
                stored_mdoc.mdoc@,
                identifier_set_items(*requested_attributes),
                device_signed_challenge@,
            ),
    {
        let StoredMdoc { id: source_identifier, mdoc } = stored_mdoc;
        let name_spaces = match &mdoc.issuer_signed.name_spaces {
            Some(name_spaces) => Some(
                Self::requested_name_spaces(&mdoc.doc_type, name_spaces, requested_attributes),
            ),
            None => None,
        };
        let issuer_signed = IssuerSigned { name_spaces, issuer_auth: mdoc.issuer_signed.issuer_auth };
        ProposedDocument {
            source_identifier,
            private_key_id: mdoc.private_key_id,
            doc_type: mdoc.doc_type,
            issuer_signed,
            device_signed_challenge,
        }
    }

    /// The attributes of this document by name space; none where the
    /// document holds no name spaces.
    pub fn name_spaces(&self) -> (copy: NameSpaces)
        ensures
            name_space_entries(copy) == self@.issuer_signed.entries(),
    {
        match &self.issuer_signed.name_spaces {
            None => name_spaces_new(),
            Some(name_spaces) => clone_name_spaces(name_spaces),
        }
    }
}

} // verus!
