//! Signing keys that live elsewhere: what the library asks of them, and
//! how the answers of a remote signer are handed back to the keys.

use crate::crypto::{p256_secret_scalar, p256_uncompressed_point, SecretKey, VerifyingKey};
use p256::ecdsa::signature::{Signer, Verifier};
use vstd::prelude::*;

verus! {

/// A key that signs with ECDSA on P-256, named by an identifier.
pub trait MdocEcdsaKey {
    /// Why the key did not sign.
    type Error;

    /// Whether `outcome` is what the key gave when it was asked to sign
    /// `msg`. What that says of the outcome is for each key to state: a
    /// key that states nothing admits every outcome.
    open spec fn signed(&self, msg: Seq<u8>, outcome: Result<Vec<u8>, Self::Error>) -> bool {
        true
    }

    /// The name of the key.
    fn identifier(&self) -> String;

    /// The signature of the key over a message.
    fn try_sign(&self, msg: &[u8]) -> (outcome: Result<Vec<u8>, Self::Error>)
        ensures
            self.signed(msg@, outcome),
    ;
}

/// A source of keys, which can sign with many of them at once.
pub trait KeyFactory {
    /// The keys of this source.
    type Key: MdocEcdsaKey;

    /// Why the source did not sign.
    type Error;

    /// Whether `key` is the handle that the source gave for the key
    /// with a name and a public key. What that says of the handle is for
    /// each source to state.
    open spec fn key_of(&self, identifier: Seq<char>, public_key: Seq<u8>, key: Self::Key) -> bool {
        true
    }

    /// Whether `outcome` is what the source gave when it was asked to
    /// sign some messages, each with some keys. What that says of the
    /// outcome is for each source to state.
    open spec fn answered(
        &self,
        messages_and_keys: Seq<(Vec<u8>, Vec<Self::Key>)>,
        outcome: Result<Vec<(String, Vec<u8>)>, Self::Error>,
    ) -> bool {
        true
    }

    /// The handle of a key that exists, by its name and public key.
    fn generate_existing(&self, identifier: String, public_key: VerifyingKey) -> (key: Self::Key)
        ensures
            self.key_of(identifier@, public_key@, key),
    ;

    /// Signatures over some messages, each with some keys: for each key
    /// its name and its signature.
    fn sign_with_existing_keys(&self, messages_and_keys: Vec<(Vec<u8>, Vec<Self::Key>)>) -> (outcome:
        Result<Vec<(String, Vec<u8>)>, Self::Error>)
        ensures
            self.answered(messages_and_keys@, outcome),
    ;
}

/// What is kept under each name: of the values under one name the last.
pub open spec fn keyed<V>(entries: Seq<(String, V)>) -> Map<Seq<char>, V>
    decreases entries.len(),
{
    if entries.len() == 0 {
        Map::empty()
    } else {
        keyed(entries.drop_last()).insert(entries.last().0@, entries.last().1)
    }
}

/// Takes what is kept under a name out of some named values: the value,
/// if there is any, and what is left.
pub fn take_by_key<V>(entries: Vec<(String, V)>, key: &String) -> (taken: (
    Option<V>,
    Vec<(String, V)>,
))
    ensures
        keyed(taken.1@) == keyed(entries@).remove(key@),
        taken.0 == (if keyed(entries@).contains_key(key@) {
            Some(keyed(entries@)[key@])
        } else {
            None
        }),
{
    let mut found: Option<V> = None;
    let mut rest: Vec<(String, V)> = Vec::new();
    proof {
        assert(entries@.take(0) =~= Seq::empty());
        assert(keyed(rest@) =~= keyed(entries@.take(0)).remove(key@));
    }
    for entry in iter: entries.into_iter()
        invariant
            iter.seq() == entries@,
            keyed(rest@) == keyed(entries@.take(iter.index() as int)).remove(key@),
            found == (if keyed(entries@.take(iter.index() as int)).contains_key(key@) {
                Some(keyed(entries@.take(iter.index() as int))[key@])
            } else {
                None
            }),
    {
        let ghost index = iter.index() as int;
        let ghost before = entries@.take(index);
        let ghost next = entries@.take(index + 1);
        let ghost rest_before = rest@;
        proof {
            assert(next.drop_last() =~= before);
            assert(next.last() == entry);
        }
        if entry.0 == *key {
            found = Some(entry.1);
            assert(keyed(rest@) =~= keyed(next).remove(key@));
        } else {
            rest.push(entry);
            proof {
                assert(rest@.drop_last() =~= rest_before);
                assert(rest@.last() == entry);
                assert(keyed(rest@) =~= keyed(next).remove(key@));
            }
        }
    }
    assert(entries@.take(entries@.len() as int) =~= entries@);
    (found, rest)
}

/// Whether a signature with ECDSA on P-256 with SHA-256 over a message
/// verifies under a public key.
pub uninterp spec fn ecdsa_p256_verifies(
    public_key: Seq<u8>,
    message: Seq<u8>,
    signature: Seq<u8>,
) -> bool;

/// `p256::ecdsa::VerifyingKey::verify` on a signature that
/// `Signature::from_slice` parsed: whether the signature over the message
/// verifies under the key.
#[verifier::external_body]
pub(crate) fn p256_verify(public_key: &[u8], message: &[u8], signature: &[u8]) -> (valid: bool)
    requires
        p256_uncompressed_point(public_key@) == Some(public_key@),
    ensures
        valid == ecdsa_p256_verifies(public_key@, message@, signature@),
{
    let key = p256::ecdsa::VerifyingKey::from_sec1_bytes(public_key).expect("a public key");
    let parsed = p256::ecdsa::Signature::from_slice(signature);
    parsed.map_or(false, |signature| key.verify(message, &signature).is_ok())
}

/// The signature with ECDSA on P-256 with SHA-256 of a secret key over a
/// message, with the nonce that RFC 6979 derives from both.
pub uninterp spec fn ecdsa_p256_signature(scalar: Seq<u8>, message: Seq<u8>) -> Option<Seq<u8>>;

/// `p256::ecdsa::SigningKey::try_sign`, then `Signature::to_bytes`: the
/// signature of the key over the message, r and s as 64 bytes.
#[verifier::external_body]
pub(crate) fn p256_sign(scalar: &[u8], message: &[u8]) -> (signature: Option<Vec<u8>>)
    requires
        p256_secret_scalar(scalar@) == Some(scalar@),
    ensures
        signature.is_some() == ecdsa_p256_signature(scalar@, message@).is_some(),
        signature.is_some() ==> signature.unwrap()@ == ecdsa_p256_signature(
            scalar@,
            message@,
        ).unwrap(),
{
    let key = p256::ecdsa::SigningKey::from_slice(scalar).expect("a secret key");
    let signature: Option<p256::ecdsa::Signature> = key.try_sign(message).ok();
    signature.map(|signature| signature.to_bytes().to_vec())
}

/// The signature of a secret key over a message.
pub fn sign_message(key: &SecretKey, message: &[u8]) -> (signature: Option<Vec<u8>>)
    ensures
        signature.is_some() == ecdsa_p256_signature(key@, message@).is_some(),
        signature.is_some() ==> signature.unwrap()@ == ecdsa_p256_signature(
            key@,
            message@,
        ).unwrap(),
{
    let scalar = key.to_bytes();
    p256_sign(scalar.as_slice(), message)
}

/// Whether a signature over a message verifies under a public key.
pub fn verify_signature(public_key: &VerifyingKey, message: &[u8], signature: &[u8]) -> (valid:
    bool)
    ensures
        valid == ecdsa_p256_verifies(public_key@, message@, signature@),
{
    let point = public_key.to_sec1_bytes();
    p256_verify(point.as_slice(), message, signature)
}

/// The instruction to a remote signer to generate keys with the given
/// names.
#[derive(Debug, PartialEq, Eq)]
pub struct GenerateKey {
    pub identifiers: Vec<String>,
}

/// The answer to [`GenerateKey`]: the public key of each new key.
#[derive(Debug, PartialEq, Eq)]
pub struct GenerateKeyResult {
    pub public_keys: Vec<(String, VerifyingKey)>,
}

/// The instruction to a remote signer to sign each message with the keys
/// named beside it.
#[derive(Debug, PartialEq, Eq)]
pub struct Sign {
    pub messages_with_identifiers: Vec<(Vec<u8>, Vec<String>)>,
}

/// The answer to [`Sign`]: a signature by the name of each key.
#[derive(Debug, PartialEq, Eq)]
pub struct SignResult {
    pub signatures_by_identifier: Vec<(String, Vec<u8>)>,
}

/// Why a remote key did not sign.
#[derive(Debug, PartialEq, Eq)]
pub enum RemoteEcdsaKeyError {
    /// The instruction did not reach the signer, or it refused.
    Instruction(String),
    /// The signer returned a signature that does not verify.
    Signature,
    /// The signer returned no signature for a key, or one for a key
    /// that was not asked: it broke its contract. Of a signature for a
    /// key that was not asked, whoever drives the signer stops on it.
    KeyNotFound(String),
}

/// A key that a remote signer holds.
#[derive(Debug, PartialEq, Eq)]
pub struct RemoteEcdsaKey {
    pub identifier: String,
    pub public_key: VerifyingKey,
}

impl Clone for RemoteEcdsaKey {
    fn clone(&self) -> (copy: Self)
        ensures
            copy.identifier@ == self.identifier@,
            copy.public_key@ == self.public_key@,
    {
        RemoteEcdsaKey { identifier: self.identifier.clone(), public_key: self.public_key.clone() }
    }
}

/// The source of the keys that a remote signer holds.
#[derive(Debug)]
pub struct RemoteEcdsaKeyFactory {}

/// The names of some keys.
pub open spec fn identifiers_of(keys: Seq<RemoteEcdsaKey>) -> Seq<Seq<char>> {
    Seq::new(keys.len(), |k: int| keys[k].identifier@)
}

/// The instruction for some messages and keys: each message with the
/// names of its keys.
pub open spec fn sign_instruction_for(messages_and_keys: Seq<(Vec<u8>, Vec<RemoteEcdsaKey>)>) -> Seq<
    (Seq<u8>, Seq<Seq<char>>),
> {
    Seq::new(
        messages_and_keys.len(),
        |m: int| (messages_and_keys[m].0@, identifiers_of(messages_and_keys[m].1@)),
    )
}

/// The keys of some lists, one list after the other, each under its
/// name.
pub open spec fn flattened(keys: Seq<Vec<RemoteEcdsaKey>>) -> Seq<(String, RemoteEcdsaKey)>
    decreases keys.len(),
{
    if keys.len() == 0 {
        Seq::empty()
    } else {
        flattened(keys.drop_last()) + Seq::new(
            keys.last()@.len(),
            |k: int| (keys.last()@[k].identifier, keys.last()@[k]),
        )
    }
}

/// The keys with the signatures that a signer returned, in the order of
/// the signatures: each signature takes the key of its name, which then
/// serves no other. The name of the first signature without a key is
/// the error.
pub open spec fn paired(
    keys: Map<Seq<char>, RemoteEcdsaKey>,
    signatures: Seq<(String, Vec<u8>)>,
) -> Result<Seq<(RemoteEcdsaKey, Vec<u8>)>, Seq<char>>
    decreases signatures.len(),
{
    if signatures.len() == 0 {
        Ok(Seq::empty())
    } else {
        let first = signatures[0];
        if !keys.contains_key(first.0@) {
            Err(first.0@)
        } else {
            match paired(keys.remove(first.0@), signatures.drop_first()) {
                Ok(rest) => Ok(seq![(keys[first.0@], first.1)] + rest),
                Err(identifier) => Err(identifier),
            }
        }
    }
}

/// What [`paired`] gives after some pairs were made already.
pub open spec fn paired_after(
    done: Seq<(RemoteEcdsaKey, Vec<u8>)>,
    rest: Result<Seq<(RemoteEcdsaKey, Vec<u8>)>, Seq<char>>,
) -> Result<Seq<(RemoteEcdsaKey, Vec<u8>)>, Seq<char>> {
    match rest {
        Ok(rest) => Ok(done + rest),
        Err(identifier) => Err(identifier),
    }
}

impl RemoteEcdsaKeyFactory {
    pub fn new() -> (factory: Self) {
        RemoteEcdsaKeyFactory {  }
    }

    /// The handle of a key that the signer holds.
    pub fn generate_existing(&self, identifier: String, public_key: VerifyingKey) -> (key:
        RemoteEcdsaKey)
        ensures
            key.identifier@ == identifier@,
            key.public_key@ == public_key@,
    {
        RemoteEcdsaKey { identifier, public_key }
    }

    /// The handles of the keys that the signer generated.
    pub fn keys_from_result(&self, result: GenerateKeyResult) -> (keys: Vec<RemoteEcdsaKey>)
        ensures
            keys@.len() == result.public_keys@.len(),
            forall|k: int|
                0 <= k < keys@.len() ==> (#[trigger] keys@[k]).identifier
                    == result.public_keys@[k].0 && keys@[k].public_key == result.public_keys@[k].1,
    {
        let mut keys: Vec<RemoteEcdsaKey> = Vec::new();
        for pair in iter: result.public_keys.into_iter()
            invariant
                iter.seq() == result.public_keys@,
                keys@.len() == iter.index(),
                forall|k: int|
                    0 <= k < keys@.len() ==> (#[trigger] keys@[k]).identifier
                        == result.public_keys@[k].0 && keys@[k].public_key
                        == result.public_keys@[k].1,
        {
            keys.push(RemoteEcdsaKey { identifier: pair.0, public_key: pair.1 });
        }
        keys
    }

    /// The instruction to sign some messages, each with some keys.
    pub fn sign_instruction(&self, messages_and_keys: &Vec<(Vec<u8>, Vec<RemoteEcdsaKey>)>) -> (
        instruction: Sign)
        ensures
            instruction.messages_with_identifiers.deep_view() == sign_instruction_for(
                messages_and_keys@,
            ),
    {
        let mut messages_with_identifiers: Vec<(Vec<u8>, Vec<String>)> = Vec::new();
        let mut m: usize = 0;
        while m < messages_and_keys.len()
            invariant
                m <= messages_and_keys.len(),
                messages_with_identifiers@.len() == m,
                forall|j: int|
                    0 <= j < m ==> (#[trigger] messages_with_identifiers@[j]).deep_view() == (
                        messages_and_keys@[j].0@,
                        identifiers_of(messages_and_keys@[j].1@),
                    ),
            decreases messages_and_keys.len() - m,
        {
            let keys = &messages_and_keys[m].1;
            let mut identifiers: Vec<String> = Vec::new();
            let mut k: usize = 0;
            while k < keys.len()
                invariant
                    k <= keys.len(),
                    identifiers@.len() == k,
                    forall|j: int| 0 <= j < k ==> (#[trigger] identifiers@[j])@ == keys@[j].identifier@,
                decreases keys.len() - k,
            {
                identifiers.push(keys[k].identifier.clone());
                k += 1;
            }
            assert(identifiers.deep_view() =~= identifiers_of(keys@));
            let message = messages_and_keys[m].0.clone();
            assert(message.deep_view() =~= messages_and_keys@[m as int].0@);
            messages_with_identifiers.push((message, identifiers));
            m += 1;
        }
        assert(messages_with_identifiers.deep_view() =~= sign_instruction_for(messages_and_keys@));
        Sign { messages_with_identifiers }
    }

    /// The keys of some lists, one list after the other, each under its
    /// name.
    pub fn keys_by_identifier(&self, keys: Vec<Vec<RemoteEcdsaKey>>) -> (named: Vec<
        (String, RemoteEcdsaKey),
    >)
        ensures
            named@ == flattened(keys@),
    {
        let mut named: Vec<(String, RemoteEcdsaKey)> = Vec::new();
        proof {
            assert(keys@.take(0) =~= Seq::empty());
        }
        for list in outer: keys.into_iter()
            invariant
                outer.seq() == keys@,
                named@ == flattened(keys@.take(outer.index() as int)),
        {
            let ghost before = named@;
            let ghost index = outer.index() as int;
            proof {
                let next = keys@.take(index + 1);
                assert(next.drop_last() =~= keys@.take(index));
                assert(next.last() == list);
            }
            for key in inner: list.into_iter()
                invariant
                    inner.seq() == list@,
                    named@ == before + Seq::new(
                        inner.index() as nat,
                        |k: int| (list@[k].identifier, list@[k]),
                    ),
            {
                let ghost done = named@;
                let identifier = key.identifier.clone();
                named.push((identifier, key));
                assert(named@ =~= before + Seq::new(
                    (inner.index() + 1) as nat,
                    |k: int| (list@[k].identifier, list@[k]),
                ));
            }
        }
        assert(keys@.take(keys@.len() as int) =~= keys@);
        named
    }

    /// The keys with the signatures that the signer returned for them, in
    /// the order of the signatures. A signature for a key that was not
    /// asked, or asked no more, is an error that names the key.
    pub fn keys_and_signatures(&self, keys: Vec<Vec<RemoteEcdsaKey>>, result: SignResult) -> (pairs:
        Result<Vec<(RemoteEcdsaKey, Vec<u8>)>, RemoteEcdsaKeyError>)
        ensures
            match paired(keyed(flattened(keys@)), result.signatures_by_identifier@) {
                Ok(expected) => pairs matches Ok(found) && found@ == expected,
                Err(identifier) => pairs matches Err(RemoteEcdsaKeyError::KeyNotFound(name))
                    && name@ == identifier,
            },
    {
        let mut keys_by_identifier = self.keys_by_identifier(keys);
        let ghost all = keyed(flattened(keys@));
        let ghost signatures = result.signatures_by_identifier@;
        let mut keys_and_signatures: Vec<(RemoteEcdsaKey, Vec<u8>)> = Vec::new();
        proof {
            assert(signatures.skip(0) =~= signatures);
            assert(keys_and_signatures@ + Seq::<(RemoteEcdsaKey, Vec<u8>)>::empty()
                =~= keys_and_signatures@);
        }
        for pair in iter: result.signatures_by_identifier.into_iter()
            invariant
                iter.seq() == signatures,
                signatures == result.signatures_by_identifier@,
                all == keyed(flattened(keys@)),
                paired(all, signatures) == paired_after(
                    keys_and_signatures@,
                    paired(keyed(keys_by_identifier@), signatures.skip(iter.index() as int)),
                ),
        {
            let ghost index = iter.index() as int;
            let ghost held = keyed(keys_by_identifier@);
            let ghost done = keys_and_signatures@;
            proof {
                assert(signatures.skip(index)[0] == pair);
                assert(signatures.skip(index).drop_first() =~= signatures.skip(index + 1));
            }
            let (key, value) = pair;
            let (found, rest) = take_by_key(keys_by_identifier, &key);
            keys_by_identifier = rest;
            match found {
                None => {
                    assert(paired(held, signatures.skip(index)) == Err::<
                        Seq<(RemoteEcdsaKey, Vec<u8>)>,
                        Seq<char>,
                    >(key@));
                    return Err(RemoteEcdsaKeyError::KeyNotFound(key));
                },
                Some(found) => {
                    keys_and_signatures.push((found, value));
                    proof {
                        assert(paired(held, signatures.skip(index)) == match paired(
                            held.remove(key@),
                            signatures.skip(index + 1),
                        ) {
                            Ok(rest) => Ok::<Seq<(RemoteEcdsaKey, Vec<u8>)>, Seq<char>>(
                                seq![(found, value)] + rest,
                            ),
                            Err(identifier) => Err(identifier),
                        });
                        let tail = paired(held.remove(key@), signatures.skip(index + 1));
                        if tail is Ok {
                            assert(done + (seq![(found, value)] + tail->Ok_0) =~= done.push(
                                (found, value),
                            ) + tail->Ok_0);
                        }
                    }
                },
            }
        }
        proof {
            assert(signatures.skip(signatures.len() as int) =~= Seq::empty());
            assert(keys_and_signatures@ + Seq::<(RemoteEcdsaKey, Vec<u8>)>::empty()
                =~= keys_and_signatures@);
        }
        Ok(keys_and_signatures)
    }
}

/// The signature that a signer returned for a key over a message: the
/// last under the name of the key, if it verifies under the key.
pub open spec fn signature_of(
    key: RemoteEcdsaKey,
    message: Seq<u8>,
    signatures: Seq<(String, Vec<u8>)>,
) -> Result<Vec<u8>, RemoteEcdsaKeyError> {
    if !keyed(signatures).contains_key(key.identifier@) {
        Err(RemoteEcdsaKeyError::KeyNotFound(key.identifier))
    } else if !ecdsa_p256_verifies(key.public_key@, message, keyed(signatures)[key.identifier@]@) {
        Err(RemoteEcdsaKeyError::Signature)
    } else {
        Ok(keyed(signatures)[key.identifier@])
    }
}

impl RemoteEcdsaKey {
    /// The name of the key.
    pub fn identifier(&self) -> (identifier: &String)
        ensures
            identifier == &self.identifier,
    {
        &self.identifier
    }

    /// The public key.
    pub fn verifying_key(&self) -> (key: VerifyingKey)
        ensures
            key@ == self.public_key@,
    {
        self.public_key.clone()
    }

    /// The instruction to sign a message with this key.
    pub fn sign_instruction(&self, msg: &[u8]) -> (instruction: Sign)
        ensures
            instruction.messages_with_identifiers.deep_view() == seq![
                (msg@, seq![self.identifier@]),
            ],
    {
        let mut identifiers: Vec<String> = Vec::new();
        identifiers.push(self.identifier.clone());
        assert(identifiers.deep_view() =~= seq![self.identifier@]);
        let mut messages_with_identifiers: Vec<(Vec<u8>, Vec<String>)> = Vec::new();
        let message = crate::bytes::to_vec(msg);
        assert(message.deep_view() =~= msg@);
        messages_with_identifiers.push((message, identifiers));
        assert(messages_with_identifiers@[0].deep_view() == (msg@, seq![self.identifier@]));
        assert(messages_with_identifiers.deep_view() =~= seq![(msg@, seq![self.identifier@])]);
        Sign { messages_with_identifiers }
    }

    /// The signature that the signer returned for this key over a
    /// message. It must verify under the public key.
    pub fn signature_from(&self, msg: &[u8], result: SignResult) -> (signature: Result<
        Vec<u8>,
        RemoteEcdsaKeyError,
    >)
        ensures
            match signature_of(*self, msg@, result.signatures_by_identifier@) {
                Ok(expected) => signature matches Ok(found) && found == expected,
                Err(RemoteEcdsaKeyError::KeyNotFound(identifier)) => signature matches Err(
                    RemoteEcdsaKeyError::KeyNotFound(name),
                ) && name@ == identifier@,
                Err(error) => signature matches Err(found) && found == error,
            },
    {
        let (found, _) = take_by_key(result.signatures_by_identifier, &self.identifier);
        match found {
            None => Err(RemoteEcdsaKeyError::KeyNotFound(self.identifier.clone())),
            Some(signature) => {
                if verify_signature(&self.public_key, msg, signature.as_slice()) {
                    Ok(signature)
                } else {
                    Err(RemoteEcdsaKeyError::Signature)
                }
            },
        }
    }
}

} // verus!
