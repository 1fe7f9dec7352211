//! Credentials as the holder stores them: a document type, the attributes
//! that the issuer signed, by name space, and the name of the device key.

use crate::cose::{CoseKey, CoseKeyView};
use crate::crypto::{verifying_key_of_cose, CryptoError, VerifyingKey};
use crate::identifiers::{
    identifier_set_insert, identifier_set_items, identifier_set_new, AttributeIdentifier,
    AttributeIdentifierView,
};
use crate::ordered_map::{key_position, lemma_key_absent, upsert};
use indexmap::{IndexMap, IndexSet};
use std::hash::RandomState;
use vstd::prelude::*;

verus! {

/// One attribute as the issuer signed it: the number of its digest, the
/// salt, the attribute's name and its encoded value.
#[derive(Debug, PartialEq, Eq)]
pub struct Entry {
    pub digest_id: u64,
    pub random: Vec<u8>,
    pub element_identifier: String,
    pub element_value: Vec<u8>,
}

pub struct EntryView {
    pub digest_id: u64,
    pub random: Seq<u8>,
    pub element_identifier: Seq<char>,
    pub element_value: Seq<u8>,
}

impl View for Entry {
    type V = EntryView;

    open spec fn view(&self) -> EntryView {
        EntryView {
            digest_id: self.digest_id,
            random: self.random@,
            element_identifier: self.element_identifier@,
            element_value: self.element_value@,
        }
    }
}

impl DeepView for Entry {
    type V = EntryView;

    open spec fn deep_view(&self) -> EntryView {
        self@
    }
}

impl Clone for Entry {
    fn clone(&self) -> (copy: Self)
        ensures
            copy@ == self@,
    {
        Entry {
            digest_id: self.digest_id,
            random: self.random.clone(),
            element_identifier: self.element_identifier.clone(),
            element_value: self.element_value.clone(),
        }
    }
}

/// Copies a list of entries.
pub fn clone_entries(entries: &Vec<Entry>) -> (copy: Vec<Entry>)
    ensures
        copy.deep_view() == entries.deep_view(),
{
    let mut copy: Vec<Entry> = Vec::new();
    let mut i: usize = 0;
    while i < entries.len()
        invariant
            i <= entries.len(),
            copy.len() == i,
            forall|j: int| 0 <= j < i ==> copy[j]@ == entries[j]@,
        decreases entries.len() - i,
    {
        copy.push(entries[i].clone());
        i += 1;
    }
    assert(copy.deep_view() =~= entries.deep_view());
    copy
}

/// Attribute entries by name space, in the order of insertion.
pub type NameSpaces = IndexMap<String, Vec<Entry>>;

/// The mathematical value of [`NameSpaces`]: pairs of a name space and its
/// entries.
pub type NameSpacesView = Seq<(Seq<char>, Seq<EntryView>)>;

/// The name spaces that a map holds with their entries, in insertion
/// order.
pub uninterp spec fn name_space_entries(
    map: IndexMap<String, Vec<Entry>, RandomState>,
) -> NameSpacesView;

/// `IndexMap::new`: the empty map.
#[verifier::external_body]
pub(crate) fn name_spaces_new() -> (map: NameSpaces)
    ensures
        name_space_entries(map) == Seq::<(Seq<char>, Seq<EntryView>)>::empty(),
{
    IndexMap::new()
}

/// `IndexMap::len`: the number of name spaces held.
#[verifier::external_body]
pub(crate) fn name_spaces_len(map: &NameSpaces) -> (n: usize)
    ensures
        n == name_space_entries(*map).len(),
{
    map.len()
}

/// `IndexMap::get_index`: the name space and entries at a position of the
/// insertion order, or `None` at or beyond the length. A map holds each key
/// once: the name space returned stands at no other position.
#[verifier::external_body]
pub(crate) fn name_spaces_get_index(map: &NameSpaces, index: usize) -> (item: Option<
    (&String, &Vec<Entry>),
>)
    ensures
        index < name_space_entries(*map).len() ==> item.is_some() && item.unwrap().0@
            == name_space_entries(*map)[index as int].0 && item.unwrap().1.deep_view()
            == name_space_entries(*map)[index as int].1,
        index < name_space_entries(*map).len() ==> forall|j: int|
            0 <= j < name_space_entries(*map).len() && j != index ==> (
            #[trigger] name_space_entries(*map)[j]).0 != item.unwrap().0@,
        index >= name_space_entries(*map).len() ==> item.is_none(),
{
    map.get_index(index)
}

/// `IndexMap::insert`: a new name space goes last and `None` is
/// returned; for one that is held the entries are replaced in place and
/// the former entries are returned.
#[verifier::external_body]
pub(crate) fn name_spaces_insert(map: &mut NameSpaces, name_space: String, entries: Vec<Entry>) -> (
    former: Option<Vec<Entry>>)
    ensures
        name_space_entries(*final(map)) == upsert(
            name_space_entries(*old(map)),
            name_space@,
            entries.deep_view(),
        ),
        former.is_none() == (key_position(name_space_entries(*old(map)), name_space@)
            == name_space_entries(*old(map)).len()),
        former.is_some() ==> former.unwrap().deep_view() == name_space_entries(
            *old(map),
        )[key_position(name_space_entries(*old(map)), name_space@)].1,
{
    map.insert(name_space, entries)
}

/// A copy of some name spaces with their entries.
pub fn clone_name_spaces(name_spaces: &NameSpaces) -> (copy: NameSpaces)
    ensures
        name_space_entries(copy) == name_space_entries(*name_spaces),
{
    let mut copy = name_spaces_new();
    let ghost source = name_space_entries(*name_spaces);
    let n = name_spaces_len(name_spaces);
    let mut i: usize = 0;
    assert(source.take(0) =~= Seq::empty());
    while i < n
        invariant
            i <= n,
            n == source.len(),
            source == name_space_entries(*name_spaces),
            name_space_entries(copy) == source.take(i as int),
        decreases n - i,
    {
        let (name_space, attributes) = name_spaces_get_index(name_spaces, i).unwrap();
        proof {
            let before = name_space_entries(copy);
            assert forall|k: int| 0 <= k < before.len() implies (#[trigger] before[k]).0
                != name_space@ by {
                assert(before[k] == source[k]);
            }
            lemma_key_absent(before, name_space@);
            assert(source.take(i as int + 1) =~= source.take(i as int).push(source[i as int]));
        }
        name_spaces_insert(&mut copy, name_space.clone(), clone_entries(attributes));
        i += 1;
    }
    assert(source.take(n as int) =~= source);
    copy
}

/// The issuer's signature over the credential, as the holder received it,
/// and the device key that it names.
#[derive(Debug, PartialEq, Eq)]
pub struct IssuerAuth {
    pub cose: Vec<u8>,
    pub device_key: CoseKey,
}

pub struct IssuerAuthView {
    pub cose: Seq<u8>,
    pub device_key: CoseKeyView,
}

impl View for IssuerAuth {
    type V = IssuerAuthView;

    open spec fn view(&self) -> IssuerAuthView {
        IssuerAuthView { cose: self.cose@, device_key: self.device_key@ }
    }
}

impl Clone for IssuerAuth {
    fn clone(&self) -> (copy: Self)
        ensures
            copy@ == self@,
    {
        IssuerAuth { cose: self.cose.clone(), device_key: self.device_key.clone() }
    }
}

/// What the issuer signed: the attributes by name space, and the
/// signature block.
#[derive(Debug, PartialEq, Eq)]
pub struct IssuerSigned {
    pub name_spaces: Option<NameSpaces>,
    pub issuer_auth: IssuerAuth,
}

pub struct IssuerSignedView {
    pub name_spaces: Option<NameSpacesView>,
    pub issuer_auth: IssuerAuthView,
}

impl View for IssuerSigned {
    type V = IssuerSignedView;

    open spec fn view(&self) -> IssuerSignedView {
        IssuerSignedView {
            name_spaces: match self.name_spaces {
                Some(map) => Some(name_space_entries(map)),
                None => None,
            },
            issuer_auth: self.issuer_auth@,
        }
    }
}

impl Clone for IssuerSigned {
    fn clone(&self) -> (copy: Self)
        ensures
            copy@ == self@,
    {
        IssuerSigned {
            name_spaces: match &self.name_spaces {
                Some(name_spaces) => Some(clone_name_spaces(name_spaces)),
                None => None,
            },
            issuer_auth: self.issuer_auth.clone(),
        }
    }
}

impl IssuerSigned {
    /// The public key of the device key that the issuer signed.
    pub fn public_key(&self) -> (key: Result<VerifyingKey, CryptoError>)
        ensures
            match verifying_key_of_cose(self@.issuer_auth.device_key) {
                Err(error) => key == Err::<VerifyingKey, CryptoError>(error),
                Ok(point) => key.is_ok() && key.unwrap()@ == point,
            },
    {
        VerifyingKey::try_from_cose(&self.issuer_auth.device_key)
    }
}

impl IssuerSignedView {
    /// The name spaces, none where the block holds none.
    pub open spec fn entries(self) -> NameSpacesView {
        match self.name_spaces {
            Some(name_spaces) => name_spaces,
            None => Seq::empty(),
        }
    }
}

/// A credential in the holder's keeping.
#[derive(Debug, PartialEq, Eq)]
pub struct Mdoc {
    pub doc_type: String,
    pub private_key_id: String,
    pub issuer_signed: IssuerSigned,
}

pub struct MdocView {
    pub doc_type: Seq<char>,
    pub private_key_id: Seq<char>,
    pub issuer_signed: IssuerSignedView,
}

impl View for Mdoc {
    type V = MdocView;

    open spec fn view(&self) -> MdocView {
        MdocView {
            doc_type: self.doc_type@,
            private_key_id: self.private_key_id@,
            issuer_signed: self.issuer_signed@,
        }
    }
}

impl Clone for Mdoc {
    fn clone(&self) -> (copy: Self)
        ensures
            copy@ == self@,
    {
        Mdoc {
            doc_type: self.doc_type.clone(),
            private_key_id: self.private_key_id.clone(),
            issuer_signed: self.issuer_signed.clone(),
        }
    }
}

/// A credential together with the name under which storage keeps it.
#[derive(Debug, PartialEq, Eq)]
pub struct StoredMdoc<I> {
    pub id: I,
    pub mdoc: Mdoc,
}

/// The identifiers of the entries of one name space, in order.
pub open spec fn name_space_identifiers(
    doc_type: Seq<char>,
    name_space: Seq<char>,
    entries: Seq<EntryView>,
) -> Seq<AttributeIdentifierView> {
    Seq::new(entries.len(), |j: int| (doc_type, name_space, entries[j].element_identifier))
}

/// The identifiers of all entries, name space by name space, with
/// repetitions.
pub open spec fn all_identifiers(doc_type: Seq<char>, name_spaces: NameSpacesView) -> Seq<
    AttributeIdentifierView,
>
    decreases name_spaces.len(),
{
    if name_spaces.len() == 0 {
        Seq::empty()
    } else {
        all_identifiers(doc_type, name_spaces.drop_last()) + name_space_identifiers(
            doc_type,
            name_spaces.last().0,
            name_spaces.last().1,
        )
    }
}

/// A sequence without its repetitions: each item stays where it first
/// occurs.
pub open spec fn first_occurrences(items: Seq<AttributeIdentifierView>) -> Seq<
    AttributeIdentifierView,
>
    decreases items.len(),
{
    if items.len() == 0 {
        Seq::empty()
    } else {
        let before = first_occurrences(items.drop_last());
        if before.contains(items.last()) {
            before
        } else {
            before.push(items.last())
        }
    }
}

/// Whether name space `i` holds an entry `j` with the given name space and
/// attribute name.
pub open spec fn is_entry_at(
    name_spaces: NameSpacesView,
    i: int,
    j: int,
    name_space: Seq<char>,
    attribute: Seq<char>,
) -> bool {
    0 <= i < name_spaces.len() && 0 <= j < name_spaces[i].1.len() && name_spaces[i].0 == name_space
        && name_spaces[i].1[j].element_identifier == attribute
}

impl MdocView {
    /// The identifiers of the attributes that the issuer signed, each once,
    /// in the order of the credential.
    pub open spec fn attribute_identifiers(self) -> Seq<AttributeIdentifierView> {
        first_occurrences(all_identifiers(self.doc_type, self.issuer_signed.entries()))
    }

    /// Whether the credential holds the attribute that an identifier names.
    pub open spec fn has_attribute(self, identifier: AttributeIdentifierView) -> bool {
        identifier.0 == self.doc_type && exists|i: int, j: int| #[trigger]
            is_entry_at(self.issuer_signed.entries(), i, j, identifier.1, identifier.2)
    }
}

/// A sequence without its repetitions holds what the sequence holds, and
/// nothing twice.
pub proof fn lemma_first_occurrences(items: Seq<AttributeIdentifierView>)
    ensures
        first_occurrences(items).no_duplicates(),
        forall|x: AttributeIdentifierView| #[trigger]
            first_occurrences(items).contains(x) <==> items.contains(x),
    decreases items.len(),
{
    if items.len() > 0 {
        let head = items.drop_last();
        lemma_first_occurrences(head);
        let before = first_occurrences(head);
        assert forall|x: AttributeIdentifierView| #[trigger]
            first_occurrences(items).contains(x) <==> items.contains(x) by {
            if items.contains(x) {
                let k = choose|k: int| 0 <= k < items.len() && items[k] == x;
                if k < items.len() - 1 {
                    assert(head[k] == x);
                    assert(before.contains(x));
                }
                if !before.contains(items.last()) {
                    assert(before.push(items.last())[before.len() as int] == items.last());
                    if before.contains(x) {
                        let m = choose|m: int| 0 <= m < before.len() && before[m] == x;
                        assert(before.push(items.last())[m] == x);
                    }
                }
            }
            if first_occurrences(items).contains(x) {
                let m = choose|m: int|
                    0 <= m < first_occurrences(items).len() && first_occurrences(items)[m] == x;
                if m < before.len() {
                    assert(before[m] == x);
                    assert(before.contains(x));
                    let k = choose|k: int| 0 <= k < head.len() && head[k] == x;
                    assert(items[k] == x);
                } else {
                    assert(x == items.last());
                    assert(items[items.len() - 1] == x);
                }
            }
        }
    }
}

/// What the flat list of identifiers holds is what the name spaces hold.
pub proof fn lemma_all_identifiers(
    doc_type: Seq<char>,
    name_spaces: NameSpacesView,
    x: AttributeIdentifierView,
)
    ensures
        all_identifiers(doc_type, name_spaces).contains(x) <==> (x.0 == doc_type && exists|
            i: int,
            j: int,
        | #[trigger] is_entry_at(name_spaces, i, j, x.1, x.2)),
    decreases name_spaces.len(),
{
    if name_spaces.len() > 0 {
        let head = name_spaces.drop_last();
        let last = name_spaces.last();
        let tail = name_space_identifiers(doc_type, last.0, last.1);
        let flat = all_identifiers(doc_type, name_spaces);
        lemma_all_identifiers(doc_type, head, x);
        if flat.contains(x) {
            let k = choose|k: int| 0 <= k < flat.len() && flat[k] == x;
            if k < all_identifiers(doc_type, head).len() {
                assert(all_identifiers(doc_type, head)[k] == x);
                assert(all_identifiers(doc_type, head).contains(x));
                let (i, j) = choose|i: int, j: int| #[trigger] is_entry_at(head, i, j, x.1, x.2);
                assert(is_entry_at(name_spaces, i, j, x.1, x.2));
            } else {
                let j = k - all_identifiers(doc_type, head).len();
                assert(tail[j] == x);
                assert(is_entry_at(name_spaces, name_spaces.len() - 1, j, x.1, x.2));
            }
        }
        if x.0 == doc_type && exists|i: int, j: int| #[trigger]
            is_entry_at(name_spaces, i, j, x.1, x.2) {
            let (i, j) = choose|i: int, j: int| #[trigger] is_entry_at(name_spaces, i, j, x.1, x.2);
            if i < name_spaces.len() - 1 {
                assert(is_entry_at(head, i, j, x.1, x.2));
                assert(all_identifiers(doc_type, head).contains(x));
                let k = choose|k: int|
                    0 <= k < all_identifiers(doc_type, head).len() && all_identifiers(
                        doc_type,
                        head,
                    )[k] == x;
                assert(flat[k] == x);
            } else {
                assert(tail[j] == x);
                assert(flat[all_identifiers(doc_type, head).len() + j] == x);
            }
        }
    } else {
        assert(!all_identifiers(doc_type, name_spaces).contains(x));
    }
}

/// The set of identifiers of a credential holds an identifier exactly where
/// the credential holds the attribute.
pub proof fn lemma_attribute_identifiers(mdoc: MdocView, identifier: AttributeIdentifierView)
    ensures
        mdoc.attribute_identifiers().contains(identifier) <==> mdoc.has_attribute(identifier),
        mdoc.attribute_identifiers().no_duplicates(),
{
    lemma_first_occurrences(all_identifiers(mdoc.doc_type, mdoc.issuer_signed.entries()));
    lemma_all_identifiers(mdoc.doc_type, mdoc.issuer_signed.entries(), identifier);
}

impl Mdoc {
    /// The identifiers of the attributes that the issuer signed, each once,
    /// in the order of the credential.
    pub fn issuer_signed_attribute_identifiers(&self) -> (set: IndexSet<AttributeIdentifier>)
        ensures
            identifier_set_items(set) == self@.attribute_identifiers(),
    {
        let mut set = identifier_set_new();
        match &self.issuer_signed.name_spaces {
            None => {
                set
            },
            Some(map) => {
                let ghost nss = name_space_entries(*map);
                let ghost doc_type = self.doc_type@;
                let n = name_spaces_len(map);
                let mut i: usize = 0;
                assert(nss.take(0) =~= Seq::empty());
                while i < n
                    invariant
                        i <= n,
                        n == nss.len(),
                        nss == name_space_entries(*map),
                        doc_type == self.doc_type@,
                        identifier_set_items(set) == first_occurrences(
                            all_identifiers(doc_type, nss.take(i as int)),
                        ),
                    decreases n - i,
                {
                    let (name_space, entries) = name_spaces_get_index(map, i).unwrap();
                    let ghost done = all_identifiers(doc_type, nss.take(i as int));
                    let ghost ids = name_space_identifiers(doc_type, nss[i as int].0, nss[i as int].1);
                    let mut j: usize = 0;
                    assert(done + ids.take(0) =~= done);
                    while j < entries.len()
                        invariant
                            j <= entries.len(),
                            entries.deep_view() == nss[i as int].1,
                            name_space@ == nss[i as int].0,
                            doc_type == self.doc_type@,
                            ids == name_space_identifiers(doc_type, nss[i as int].0, nss[i as int].1),
                            identifier_set_items(set) == first_occurrences(
                                done + ids.take(j as int),
                            ),
                        decreases entries.len() - j,
                    {
                        let identifier: AttributeIdentifier = (
                            self.doc_type.clone(),
                            name_space.clone(),
                            entries[j].element_identifier.clone(),
                        );
                        proof {
                            assert(entries.deep_view()[j as int] == entries[j as int]@);
                            assert(identifier@ == ids[j as int]);
                            let next = done + ids.take(j as int + 1);
                            assert(next.drop_last() =~= done + ids.take(j as int));
                            assert(next.last() == ids[j as int]);
                        }
                        identifier_set_insert(&mut set, identifier);
                        j += 1;
                    }
                    proof {
                        assert(ids.take(j as int) =~= ids);
                        let next = nss.take(i as int + 1);
                        assert(next.drop_last() =~= nss.take(i as int));
                        assert(next.last() == nss[i as int]);
                    }
                    i += 1;
                }
                assert(nss.take(n as int) =~= nss);
                set
            },
        }
    }
}

} // verus!
