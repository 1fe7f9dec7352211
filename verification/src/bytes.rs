//! Copies and comparisons of byte strings.

use vstd::prelude::*;

verus! {

/// A copy of some bytes.
pub fn to_vec(bytes: &[u8]) -> (copy: Vec<u8>)
    ensures
        copy@ == bytes@,
{
    slice_to_vec(bytes, 0, bytes.len())
}

/// A copy of a part of some bytes.
pub fn slice_to_vec(bytes: &[u8], from: usize, to: usize) -> (part: Vec<u8>)
    requires
        from <= to <= bytes.len(),
    ensures
        part@ == bytes@.subrange(from as int, to as int),
{
    let mut part: Vec<u8> = Vec::new();
    let mut i: usize = from;
    while i < to
        invariant
            from <= i <= to <= bytes.len(),
            part@ == bytes@.subrange(from as int, i as int),
        decreases to - i,
    {
        part.push(bytes[i]);
        assert(bytes@.subrange(from as int, i as int + 1) =~= bytes@.subrange(
            from as int,
            i as int,
        ).push(bytes@[i as int]));
        i += 1;
    }
    assert(bytes@.subrange(0, bytes.len() as int) =~= bytes@);
    part
}

/// Whether two byte strings are the same.
pub fn same_bytes(left: &[u8], right: &[u8]) -> (same: bool)
    ensures
        same == (left@ == right@),
{
    if left.len() != right.len() {
        return false;
    }
    let mut i: usize = 0;
    while i < left.len()
        invariant
            i <= left.len(),
            left.len() == right.len(),
            left@.take(i as int) == right@.take(i as int),
        decreases left.len() - i,
    {
        if left[i] != right[i] {
            return false;
        }
        assert(left@.take(i as int + 1) =~= left@.take(i as int).push(left@[i as int]));
        assert(right@.take(i as int + 1) =~= right@.take(i as int).push(right@[i as int]));
        i += 1;
    }
    assert(left@.take(left.len() as int) =~= left@);
    assert(right@.take(right.len() as int) =~= right@);
    true
}

/// Whether some bytes stand in a byte string at a position.
pub open spec fn occurs_at(part: Seq<u8>, whole: Seq<u8>, at: int) -> bool {
    0 <= at && at + part.len() <= whole.len() && whole.subrange(at, at + part.len()) == part
}

/// Whether a byte string begins with some bytes.
pub open spec fn begins_with(whole: Seq<u8>, part: Seq<u8>) -> bool {
    occurs_at(part, whole, 0)
}

/// Whether some bytes stand anywhere in a byte string.
pub open spec fn holds(whole: Seq<u8>, part: Seq<u8>) -> bool {
    exists|at: int| occurs_at(part, whole, at)
}

/// Whether some bytes stand in a byte string at a position.
pub fn stands_at(part: &[u8], whole: &[u8], at: usize) -> (found: bool)
    ensures
        found == occurs_at(part@, whole@, at as int),
{
    if at > whole.len() || part.len() > whole.len() - at {
        return false;
    }
    let mut i: usize = 0;
    while i < part.len()
        invariant
            i <= part.len(),
            at + part.len() <= whole.len(),
            whole@.subrange(at as int, at + i) == part@.take(i as int),
        decreases part.len() - i,
    {
        if whole[at + i] != part[i] {
            assert(whole@.subrange(at as int, at + part.len())[i as int] != part@[i as int]);
            return false;
        }
        assert(whole@.subrange(at as int, at + i + 1) =~= whole@.subrange(at as int, at + i).push(
            whole@[at + i],
        ));
        assert(part@.take(i as int + 1) =~= part@.take(i as int).push(part@[i as int]));
        i += 1;
    }
    assert(part@.take(part.len() as int) =~= part@);
    true
}

/// Whether a byte string begins with some bytes.
pub fn starts_with(whole: &[u8], part: &[u8]) -> (found: bool)
    ensures
        found == begins_with(whole@, part@),
{
    stands_at(part, whole, 0)
}

/// Whether some bytes stand anywhere in a byte string.
pub fn contains(whole: &[u8], part: &[u8]) -> (found: bool)
    ensures
        found == holds(whole@, part@),
{
    if part.len() > whole.len() {
        assert forall|at: int| !occurs_at(part@, whole@, at) by {}
        return false;
    }
    let last = whole.len() - part.len();
    let mut at: usize = 0;
    while at < last
        invariant
            at <= last,
            last == whole.len() - part.len(),
            forall|k: int| 0 <= k < at ==> !occurs_at(part@, whole@, k),
        decreases last - at,
    {
        if stands_at(part, whole, at) {
            return true;
        }
        at += 1;
    }
    let found = stands_at(part, whole, last);
    assert forall|k: int| k != last implies !occurs_at(part@, whole@, k) by {}
    found
}

} // verus!
