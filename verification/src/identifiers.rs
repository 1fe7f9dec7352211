//! Attribute identifiers and the ordered sets that hold them.

use indexmap::IndexSet;
use std::hash::RandomState;
use vstd::prelude::*;

verus! {

/// The addressable unit of disclosure: document type, name space and
/// attribute name, in that order.
pub type AttributeIdentifier = (String, String, String);

/// The mathematical value of an [`AttributeIdentifier`].
pub type AttributeIdentifierView = (Seq<char>, Seq<char>, Seq<char>);

/// `indexmap::IndexSet`: a set that keeps the order of insertion.
#[verifier::external_type_specification]
#[verifier::external_body]
#[verifier::reject_recursive_types(T)]
#[verifier::reject_recursive_types(S)]
pub struct ExIndexSet<T, S>(IndexSet<T, S>);

/// The identifiers that an ordered set holds, in insertion order.
pub uninterp spec fn identifier_set_items(
    set: IndexSet<AttributeIdentifier, RandomState>,
) -> Seq<AttributeIdentifierView>;

/// `IndexSet::new`: the empty set.
#[verifier::external_body]
pub(crate) fn identifier_set_new() -> (set: IndexSet<AttributeIdentifier>)
    ensures
        identifier_set_items(set) == Seq::<AttributeIdentifierView>::empty(),
{
    IndexSet::new()
}

/// `IndexSet::len`: the number of identifiers held.
#[verifier::external_body]
pub(crate) fn identifier_set_len(set: &IndexSet<AttributeIdentifier>) -> (n: usize)
    ensures
        n == identifier_set_items(*set).len(),
{
    set.len()
}

/// `IndexSet::contains`: whether an equal identifier is held.
#[verifier::external_body]
pub(crate) fn identifier_set_contains(
    set: &IndexSet<AttributeIdentifier>,
    identifier: &AttributeIdentifier,
) -> (found: bool)
    ensures
        found == identifier_set_items(*set).contains(identifier@),
{
    set.contains(identifier)
}

/// `IndexSet::get_index`: the identifier at a position of the insertion
/// order, or `None` at or beyond the length. A set holds each identifier
/// once: the one returned stands at no other position.
#[verifier::external_body]
pub(crate) fn identifier_set_get_index(
    set: &IndexSet<AttributeIdentifier>,
    index: usize,
) -> (item: Option<&AttributeIdentifier>)
    ensures
        index < identifier_set_items(*set).len() ==> item.is_some()
            && item.unwrap()@ == identifier_set_items(*set)[index as int],
        index < identifier_set_items(*set).len() ==> forall|j: int|
            0 <= j < identifier_set_items(*set).len() && j != index ==> (
            #[trigger] identifier_set_items(*set)[j]) != item.unwrap()@,
        index >= identifier_set_items(*set).len() ==> item.is_none(),
{
    set.get_index(index)
}

/// `IndexSet::insert`: appends the identifier unless an equal one is
/// held already; returns whether it was appended.
#[verifier::external_body]
pub(crate) fn identifier_set_insert(
    set: &mut IndexSet<AttributeIdentifier>,
    identifier: AttributeIdentifier,
) -> (added: bool)
    ensures
        added == !identifier_set_items(*old(set)).contains(identifier@),
        added ==> identifier_set_items(*final(set)) == identifier_set_items(*old(set)).push(
            identifier@,
        ),
        !added ==> identifier_set_items(*final(set)) == identifier_set_items(*old(set)),
{
    set.insert(identifier)
}


} // verus!
