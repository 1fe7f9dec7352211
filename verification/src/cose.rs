//! COSE keys as plain values, and what is signed and sent of a signature.

use crate::cbor::{
    bytes, integer, map_head, push_bytes, push_integer, push_map_head, push_raw, push_text, text,
};
use coset::{CborSerializable, Header, ProtectedHeader};
use vstd::prelude::*;

verus! {

/// The label of the key type in the encoding of a key.
pub const LABEL_KEY_TYPE: i64 = 1;

/// The registered number of the key type "EC2" (elliptic curve with two
/// coordinates).
pub const KEY_TYPE_EC2: i64 = 2;

/// The key parameter that names the curve.
pub const PARAM_CURVE: i64 = -1;

/// The key parameter that holds the x coordinate.
pub const PARAM_X: i64 = -2;

/// The key parameter that holds the y coordinate.
pub const PARAM_Y: i64 = -3;

/// The registered number of the curve P-256.
pub const CURVE_P256: i64 = 1;

/// A label of a COSE map: an integer or a text.
#[derive(Debug, PartialEq, Eq)]
pub enum Label {
    Int(i64),
    Text(String),
}

pub enum LabelView {
    Int(i64),
    Text(Seq<char>),
}

impl View for Label {
    type V = LabelView;

    open spec fn view(&self) -> LabelView {
        match self {
            Label::Int(i) => LabelView::Int(*i),
            Label::Text(t) => LabelView::Text(t@),
        }
    }
}

impl DeepView for Label {
    type V = LabelView;

    open spec fn deep_view(&self) -> LabelView {
        self@
    }
}

impl Clone for Label {
    fn clone(&self) -> (copy: Self)
        ensures
            copy@ == self@,
    {
        match self {
            Label::Int(i) => Label::Int(*i),
            Label::Text(t) => Label::Text(t.clone()),
        }
    }
}

/// The type of a COSE key: a registered number or a text.
#[derive(Debug, PartialEq, Eq)]
pub enum KeyType {
    Assigned(i64),
    Text(String),
}

pub enum KeyTypeView {
    Assigned(i64),
    Text(Seq<char>),
}

impl View for KeyType {
    type V = KeyTypeView;

    open spec fn view(&self) -> KeyTypeView {
        match self {
            KeyType::Assigned(i) => KeyTypeView::Assigned(*i),
            KeyType::Text(t) => KeyTypeView::Text(t@),
        }
    }
}

impl Clone for KeyType {
    fn clone(&self) -> (copy: Self)
        ensures
            copy@ == self@,
    {
        match self {
            KeyType::Assigned(i) => KeyType::Assigned(*i),
            KeyType::Text(t) => KeyType::Text(t.clone()),
        }
    }
}

/// The value of a key parameter: an integer, a byte string, or any other
/// item, held in its encoding.
#[derive(Debug, PartialEq, Eq)]
pub enum ParamValue {
    Integer(i64),
    Bytes(Vec<u8>),
    Other(Vec<u8>),
}

pub enum ParamValueView {
    Integer(i64),
    Bytes(Seq<u8>),
    Other(Seq<u8>),
}

impl View for ParamValue {
    type V = ParamValueView;

    open spec fn view(&self) -> ParamValueView {
        match self {
            ParamValue::Integer(i) => ParamValueView::Integer(*i),
            ParamValue::Bytes(b) => ParamValueView::Bytes(b@),
            ParamValue::Other(e) => ParamValueView::Other(e@),
        }
    }
}

impl DeepView for ParamValue {
    type V = ParamValueView;

    open spec fn deep_view(&self) -> ParamValueView {
        self@
    }
}

impl Clone for ParamValue {
    fn clone(&self) -> (copy: Self)
        ensures
            copy@ == self@,
    {
        match self {
            ParamValue::Integer(i) => ParamValue::Integer(*i),
            ParamValue::Bytes(b) => ParamValue::Bytes(b.clone()),
            ParamValue::Other(e) => ParamValue::Other(e.clone()),
        }
    }
}

/// A COSE key: its type and its parameters in the order of the encoding.
#[derive(Debug, PartialEq, Eq)]
pub struct CoseKey {
    pub kty: KeyType,
    pub params: Vec<(Label, ParamValue)>,
}

pub struct CoseKeyView {
    pub kty: KeyTypeView,
    pub params: Seq<(LabelView, ParamValueView)>,
}

impl View for CoseKey {
    type V = CoseKeyView;

    open spec fn view(&self) -> CoseKeyView {
        CoseKeyView { kty: self.kty@, params: self.params.deep_view() }
    }
}

impl Clone for CoseKey {
    fn clone(&self) -> (copy: Self)
        ensures
            copy@ == self@,
    {
        let mut params: Vec<(Label, ParamValue)> = Vec::new();
        let mut i: usize = 0;
        while i < self.params.len()
            invariant
                i <= self.params.len(),
                params.len() == i,
                forall|j: int| 0 <= j < i ==> params[j].deep_view() == self.params[j].deep_view(),
            decreases self.params.len() - i,
        {
            let pair = &self.params[i];
            params.push((pair.0.clone(), pair.1.clone()));
            i += 1;
        }
        assert(params.deep_view() =~= self.params.deep_view());
        CoseKey { kty: self.kty.clone(), params }
    }
}

/// The encoding of a label.
pub open spec fn label_bytes(label: LabelView) -> Seq<u8> {
    match label {
        LabelView::Int(i) => integer(i),
        LabelView::Text(t) => text(t),
    }
}

/// The encoding of a key type.
pub open spec fn key_type_bytes(kty: KeyTypeView) -> Seq<u8> {
    match kty {
        KeyTypeView::Assigned(i) => integer(i),
        KeyTypeView::Text(t) => text(t),
    }
}

/// The encoding of the value of a parameter.
pub open spec fn param_value_bytes(value: ParamValueView) -> Seq<u8> {
    match value {
        ParamValueView::Integer(i) => integer(i),
        ParamValueView::Bytes(b) => bytes(b),
        ParamValueView::Other(e) => e,
    }
}

/// The encoding of the parameters, one after the other.
pub open spec fn params_bytes(params: Seq<(LabelView, ParamValueView)>) -> Seq<u8>
    decreases params.len(),
{
    if params.len() == 0 {
        Seq::empty()
    } else {
        params_bytes(params.drop_last()) + label_bytes(params.last().0) + param_value_bytes(
            params.last().1,
        )
    }
}

/// The encoding of a key: a map of the key type and the parameters.
pub open spec fn cose_key_bytes(key: CoseKeyView) -> Seq<u8> {
    map_head(1 + key.params.len() as int) + integer(LABEL_KEY_TYPE) + key_type_bytes(key.kty)
        + params_bytes(key.params)
}

impl CoseKey {
    /// Appends the encoding of this key.
    pub fn push_cbor(&self, out: &mut Vec<u8>)
        requires
            self.params.len() < usize::MAX,
        ensures
            final(out)@ == old(out)@ + cose_key_bytes(self@),
    {
        push_map_head(out, self.params.len() + 1);
        push_integer(out, LABEL_KEY_TYPE);
        match &self.kty {
            KeyType::Assigned(i) => push_integer(out, *i),
            KeyType::Text(t) => push_text(out, t.as_str()),
        }
        let ghost start = out@;
        let ghost params = self.params.deep_view();
        let mut i: usize = 0;
        assert(params.take(0) =~= Seq::empty());
        assert(start + params_bytes(params.take(0)) =~= start);
        while i < self.params.len()
            invariant
                i <= self.params.len(),
                params == self.params.deep_view(),
                out@ == start + params_bytes(params.take(i as int)),
            decreases self.params.len() - i,
        {
            let ghost before = out@;
            let pair = &self.params[i];
            match &pair.0 {
                Label::Int(l) => push_integer(out, *l),
                Label::Text(t) => push_text(out, t.as_str()),
            }
            match &pair.1 {
                ParamValue::Integer(v) => push_integer(out, *v),
                ParamValue::Bytes(b) => push_bytes(out, b.as_slice()),
                ParamValue::Other(e) => push_raw(out, e.as_slice()),
            }
            proof {
                let next = params.take(i as int + 1);
                assert(next.drop_last() =~= params.take(i as int));
                assert(next.last() == params[i as int]);
                assert(params[i as int] == (pair.0@, pair.1@));
                assert(out@ =~= start + params_bytes(next));
            }
            i += 1;
        }
        assert(params.take(self.params.len() as int) =~= params);
        assert(out@ =~= old(out)@ + cose_key_bytes(self@));
    }

    /// The encoding of this key.
    pub fn to_cbor(&self) -> (encoded: Vec<u8>)
        requires
            self.params.len() < usize::MAX,
        ensures
            encoded@ == cose_key_bytes(self@),
    {
        let mut out: Vec<u8> = Vec::new();
        self.push_cbor(&mut out);
        assert(out@ =~= cose_key_bytes(self@));
        out
    }
}

/// The encoding of the protected header that names the algorithm ES256,
/// ECDSA on P-256 with SHA-256, and nothing else: a map of the label 1
/// to the number -7.
pub open spec fn protected_header_es256() -> Seq<u8> {
    seq![0xa1u8, 0x01u8, 0x26u8]
}

/// What is signed for a payload under a protected header, by one signer
/// and without further data.
pub uninterp spec fn sig_structure(protected: Seq<u8>, payload: Seq<u8>) -> Seq<u8>;

/// The envelope of a signature whose payload travels apart: the
/// protected header, an empty unprotected header, no payload, and the
/// signature.
pub uninterp spec fn cose_sign1_detached(protected: Seq<u8>, signature: Seq<u8>) -> Seq<u8>;

/// `coset::HeaderBuilder` with `algorithm` for ES256, then `to_vec` of
/// the protected header: the three bytes of the map of the label 1 to
/// the number -7. A header that holds an algorithm alone is always
/// written.
#[verifier::external_body]
pub(crate) fn coset_es256_header() -> (header: Option<Vec<u8>>)
    ensures
        header.is_some(),
        header.is_some() ==> header.unwrap()@ == protected_header_es256(),
{
    let header = coset::HeaderBuilder::new().algorithm(coset::iana::Algorithm::ES256).build();
    coset::ProtectedHeader { original_data: None, header }.to_vec().ok()
}

/// `coset::sig_structure_data` in the context of a signature of one
/// signer, with the protected header as it was received or written and
/// without further data: what is signed for the payload.
#[verifier::external_body]
pub(crate) fn coset_sig_structure(protected: &[u8], payload: &[u8]) -> (input: Vec<u8>)
    ensures
        input@ == sig_structure(protected@, payload@),
{
    let body = ProtectedHeader { original_data: Some(protected.to_vec()), header: Header::default() };
    coset::sig_structure_data(coset::SignatureContext::CoseSign1, body, None, &[], payload)
}

/// `to_vec` of a `coset::CoseSign1` with the protected header as it was
/// written, an empty unprotected header, no payload and a signature: its
/// encoding. An envelope of these parts is always written.
#[verifier::external_body]
pub(crate) fn coset_sign1_detached(protected: &[u8], signature: &[u8]) -> (envelope: Option<Vec<u8>>)
    ensures
        envelope.is_some(),
        envelope.is_some() ==> envelope.unwrap()@ == cose_sign1_detached(protected@, signature@),
{
    let protected = ProtectedHeader {
        original_data: Some(protected.to_vec()),
        header: Header::default(),
    };
    let envelope = coset::CoseSign1 {
        protected,
        unprotected: Header::default(),
        payload: None,
        signature: signature.to_vec(),
    };
    envelope.to_vec().ok()
}

/// The encoding of the protected header that names the algorithm ES256.
pub fn protected_header() -> (header: Vec<u8>)
    ensures
        header@ == protected_header_es256(),
{
    coset_es256_header().unwrap()
}

/// What is signed for a payload under a protected header.
pub fn signature_input(protected: &[u8], payload: &[u8]) -> (input: Vec<u8>)
    ensures
        input@ == sig_structure(protected@, payload@),
{
    coset_sig_structure(protected, payload)
}

/// The envelope of a signature whose payload travels apart.
pub fn detached_envelope(protected: &[u8], signature: &[u8]) -> (envelope: Vec<u8>)
    ensures
        envelope@ == cose_sign1_detached(protected@, signature@),
{
    coset_sign1_detached(protected, signature).unwrap()
}

} // verus!
