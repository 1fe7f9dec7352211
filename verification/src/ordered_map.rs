//! Maps that keep the order of insertion, and what an insertion does to
//! one.

use indexmap::IndexMap;
use vstd::prelude::*;

verus! {

/// `indexmap::IndexMap`: a map that keeps the order of insertion.
#[verifier::external_type_specification]
#[verifier::external_body]
#[verifier::reject_recursive_types(K)]
#[verifier::reject_recursive_types(V)]
#[verifier::reject_recursive_types(S)]
pub struct ExIndexMap<K, V, S>(IndexMap<K, V, S>);

/// The position of a key among the pairs of a map, or their number where
/// it does not occur.
pub open spec fn key_position<V>(entries: Seq<(Seq<char>, V)>, key: Seq<char>) -> int
    decreases entries.len(),
{
    if entries.len() == 0 {
        0
    } else if entries[0].0 == key {
        0
    } else {
        1 + key_position(entries.drop_first(), key)
    }
}

/// The pairs of a map after an insertion: a new key goes last with its
/// value; the value of a key that is held is replaced where it stands.
pub open spec fn upsert<V>(entries: Seq<(Seq<char>, V)>, key: Seq<char>, value: V) -> Seq<
    (Seq<char>, V),
> {
    if key_position(entries, key) == entries.len() {
        entries.push((key, value))
    } else {
        entries.update(key_position(entries, key), (key, value))
    }
}

/// The position of a key lies within the pairs, on a pair of that key,
/// or is their number.
pub proof fn lemma_key_position<V>(entries: Seq<(Seq<char>, V)>, key: Seq<char>)
    ensures
        0 <= key_position(entries, key) <= entries.len(),
        key_position(entries, key) < entries.len() ==> entries[key_position(entries, key)].0
            == key,
        forall|k: int| 0 <= k < key_position(entries, key) ==> (#[trigger] entries[k]).0 != key,
    decreases entries.len(),
{
    if entries.len() > 0 && entries[0].0 != key {
        let tail = entries.drop_first();
        lemma_key_position(tail, key);
        assert forall|k: int| 0 <= k < key_position(entries, key) implies (#[trigger] entries[k]).0
            != key by {
            if k > 0 {
                assert(entries[k] == tail[k - 1]);
            }
        }
    }
}

/// A key that stands nowhere has the number of the pairs as its position:
/// its insertion appends.
pub proof fn lemma_key_absent<V>(entries: Seq<(Seq<char>, V)>, key: Seq<char>)
    requires
        forall|k: int| 0 <= k < entries.len() ==> (#[trigger] entries[k]).0 != key,
    ensures
        key_position(entries, key) == entries.len(),
{
    lemma_key_position(entries, key);
}

} // verus!
