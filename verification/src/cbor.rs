//! The deterministic binary encoding of the values that are hashed and
//! signed: heads in their shortest form, definite lengths.

use vstd::prelude::*;
use vstd::utf8::encode_utf8;

verus! {

/// Major type of a non-negative integer.
pub const MAJOR_UNSIGNED: u8 = 0;

/// Major type of a negative integer.
pub const MAJOR_NEGATIVE: u8 = 1;

/// Major type of a byte string.
pub const MAJOR_BYTES: u8 = 2;

/// Major type of a text string.
pub const MAJOR_TEXT: u8 = 3;

/// Major type of an array.
pub const MAJOR_ARRAY: u8 = 4;

/// Major type of a map.
pub const MAJOR_MAP: u8 = 5;

/// Major type of a tag.
pub const MAJOR_TAG: u8 = 6;

/// The tag that marks a byte string as holding an encoded item.
pub const TAG_ENCODED_ITEM: u64 = 24;

/// The encoding of "null".
pub const NULL_BYTE: u8 = 0xf6;

/// The head of an item: the major type and an argument, in the fewest
/// bytes that hold the argument, most significant byte first.
pub open spec fn head(major: int, value: int) -> Seq<u8> {
    if value < 24 {
        seq![(major * 32 + value) as u8]
    } else if value < 0x100 {
        seq![(major * 32 + 24) as u8, value as u8]
    } else if value < 0x1_0000 {
        seq![(major * 32 + 25) as u8, (value / 0x100) as u8, (value % 0x100) as u8]
    } else if value < 0x1_0000_0000 {
        seq![
            (major * 32 + 26) as u8,
            (value / 0x100_0000) as u8,
            (value / 0x1_0000 % 0x100) as u8,
            (value / 0x100 % 0x100) as u8,
            (value % 0x100) as u8,
        ]
    } else {
        seq![
            (major * 32 + 27) as u8,
            (value / 0x100_0000_0000_0000) as u8,
            (value / 0x1_0000_0000_0000 % 0x100) as u8,
            (value / 0x100_0000_0000 % 0x100) as u8,
            (value / 0x1_0000_0000 % 0x100) as u8,
            (value / 0x100_0000 % 0x100) as u8,
            (value / 0x1_0000 % 0x100) as u8,
            (value / 0x100 % 0x100) as u8,
            (value % 0x100) as u8,
        ]
    }
}

/// A non-negative integer.
pub open spec fn unsigned(value: u64) -> Seq<u8> {
    head(MAJOR_UNSIGNED as int, value as int)
}

/// An integer of either sign.
pub open spec fn integer(value: i64) -> Seq<u8> {
    if value >= 0 {
        head(MAJOR_UNSIGNED as int, value as int)
    } else {
        head(MAJOR_NEGATIVE as int, -1 - value)
    }
}

/// A byte string.
pub open spec fn bytes(content: Seq<u8>) -> Seq<u8> {
    head(MAJOR_BYTES as int, content.len() as int) + content
}

/// A text string.
pub open spec fn text(content: Seq<char>) -> Seq<u8> {
    head(MAJOR_TEXT as int, encode_utf8(content).len() as int) + encode_utf8(content)
}

/// The head of an array of `len` items.
pub open spec fn array_head(len: int) -> Seq<u8> {
    head(MAJOR_ARRAY as int, len)
}

/// The head of a map of `len` pairs.
pub open spec fn map_head(len: int) -> Seq<u8> {
    head(MAJOR_MAP as int, len)
}

/// An encoded item carried as a tagged byte string.
pub open spec fn encoded_item(item: Seq<u8>) -> Seq<u8> {
    head(MAJOR_TAG as int, TAG_ENCODED_ITEM as int) + bytes(item)
}

/// The encoding of "false".
pub const FALSE_BYTE: u8 = 0xf4;

/// The encoding of "true".
pub const TRUE_BYTE: u8 = 0xf5;

/// A truth value.
pub open spec fn boolean(value: bool) -> Seq<u8> {
    if value {
        seq![TRUE_BYTE]
    } else {
        seq![FALSE_BYTE]
    }
}

/// "null".
pub open spec fn null() -> Seq<u8> {
    seq![NULL_BYTE]
}

/// Appends the head of an item.
pub fn push_head(out: &mut Vec<u8>, major: u8, value: u64)
    requires
        major < 8,
    ensures
        final(out)@ == old(out)@ + head(major as int, value as int),
{
    let lead: u8 = major * 32;
    if value < 24 {
        out.push(lead + value as u8);
    } else if value < 0x100 {
        out.push(lead + 24);
        out.push(value as u8);
    } else if value < 0x1_0000 {
        out.push(lead + 25);
        out.push((value / 0x100) as u8);
        out.push((value % 0x100) as u8);
    } else if value < 0x1_0000_0000 {
        out.push(lead + 26);
        out.push((value / 0x100_0000) as u8);
        out.push((value / 0x1_0000 % 0x100) as u8);
        out.push((value / 0x100 % 0x100) as u8);
        out.push((value % 0x100) as u8);
    } else {
        out.push(lead + 27);
        out.push((value / 0x100_0000_0000_0000) as u8);
        out.push((value / 0x1_0000_0000_0000 % 0x100) as u8);
        out.push((value / 0x100_0000_0000 % 0x100) as u8);
        out.push((value / 0x1_0000_0000 % 0x100) as u8);
        out.push((value / 0x100_0000 % 0x100) as u8);
        out.push((value / 0x1_0000 % 0x100) as u8);
        out.push((value / 0x100 % 0x100) as u8);
        out.push((value % 0x100) as u8);
    }
    assert(out@ =~= old(out)@ + head(major as int, value as int));
}

/// Appends a non-negative integer.
pub fn push_unsigned(out: &mut Vec<u8>, value: u64)
    ensures
        final(out)@ == old(out)@ + unsigned(value),
{
    push_head(out, MAJOR_UNSIGNED, value);
}

/// Appends an integer of either sign.
pub fn push_integer(out: &mut Vec<u8>, value: i64)
    ensures
        final(out)@ == old(out)@ + integer(value),
{
    if value >= 0 {
        push_head(out, MAJOR_UNSIGNED, value as u64);
    } else {
        push_head(out, MAJOR_NEGATIVE, (-1 - value) as u64);
    }
}

/// Appends bytes as they are.
pub fn push_raw(out: &mut Vec<u8>, content: &[u8])
    ensures
        final(out)@ == old(out)@ + content@,
{
    let mut i: usize = 0;
    while i < content.len()
        invariant
            i <= content.len(),
            out@ == old(out)@ + content@.take(i as int),
        decreases content.len() - i,
    {
        out.push(content[i]);
        assert(content@.take(i as int + 1) =~= content@.take(i as int).push(content@[i as int]));
        i += 1;
    }
    assert(content@.take(content.len() as int) =~= content@);
}

/// Appends a byte string.
pub fn push_bytes(out: &mut Vec<u8>, content: &[u8])
    ensures
        final(out)@ == old(out)@ + bytes(content@),
{
    push_head(out, MAJOR_BYTES, content.len() as u64);
    push_raw(out, content);
    assert(out@ =~= old(out)@ + bytes(content@));
}

/// Appends a text string.
pub fn push_text(out: &mut Vec<u8>, content: &str)
    ensures
        final(out)@ == old(out)@ + text(content@),
{
    let encoded = content.as_bytes();
    push_head(out, MAJOR_TEXT, encoded.len() as u64);
    push_raw(out, encoded);
    assert(out@ =~= old(out)@ + text(content@));
}

/// Appends the head of an array.
pub fn push_array_head(out: &mut Vec<u8>, len: usize)
    ensures
        final(out)@ == old(out)@ + array_head(len as int),
{
    push_head(out, MAJOR_ARRAY, len as u64);
}

/// Appends the head of a map.
pub fn push_map_head(out: &mut Vec<u8>, len: usize)
    ensures
        final(out)@ == old(out)@ + map_head(len as int),
{
    push_head(out, MAJOR_MAP, len as u64);
}

/// Appends an encoded item as a tagged byte string.
pub fn push_encoded_item(out: &mut Vec<u8>, item: &[u8])
    ensures
        final(out)@ == old(out)@ + encoded_item(item@),
{
    push_head(out, MAJOR_TAG, TAG_ENCODED_ITEM);
    push_bytes(out, item);
    assert(out@ =~= old(out)@ + encoded_item(item@));
}

/// Appends a truth value.
pub fn push_boolean(out: &mut Vec<u8>, value: bool)
    ensures
        final(out)@ == old(out)@ + boolean(value),
{
    if value {
        out.push(TRUE_BYTE);
    } else {
        out.push(FALSE_BYTE);
    }
    assert(out@ =~= old(out)@ + boolean(value));
}

/// Appends "null".
pub fn push_null(out: &mut Vec<u8>)
    ensures
        final(out)@ == old(out)@ + null(),
{
    out.push(NULL_BYTE);
    assert(out@ =~= old(out)@ + null());
}

/// The arguments that a head can hold: below 2^64.
pub open spec fn is_argument(value: int) -> bool {
    0 <= value < 0x1_0000_0000_0000_0000
}

/// What follows a common beginning is the same in two equal sequences.
pub proof fn lemma_cancel_prefix(prefix: Seq<u8>, left: Seq<u8>, right: Seq<u8>)
    requires
        prefix + left == prefix + right,
    ensures
        left == right,
{
    assert(left =~= (prefix + left).skip(prefix.len() as int));
    assert(right =~= (prefix + right).skip(prefix.len() as int));
}

/// A head has one to nine bytes, and its first byte tells how many.
pub proof fn lemma_head_len(major: int, value: int)
    requires
        0 <= major < 8,
        is_argument(value),
    ensures
        1 <= head(major, value).len() <= 9,
        head(major, value)[0] >= major * 32,
        head(major, value)[0] < major * 32 + 28,
        head(major, value).len() == (if head(major, value)[0] < major * 32 + 24 {
            1int
        } else if head(major, value)[0] == major * 32 + 24 {
            2int
        } else if head(major, value)[0] == major * 32 + 25 {
            3int
        } else if head(major, value)[0] == major * 32 + 26 {
            5int
        } else {
            9int
        }),
{
}

/// A number below 2^32 is the sum of its four bytes, each at its place.
proof fn lemma_four_bytes(value: int)
    requires
        0 <= value < 0x1_0000_0000,
    ensures
        value == (value / 0x100_0000) * 0x100_0000 + (value / 0x1_0000 % 0x100) * 0x1_0000 + (value
            / 0x100 % 0x100) * 0x100 + value % 0x100,
        0 <= value / 0x100_0000 < 0x100,
{
}

/// The bytes of a number below 2^64 are the bytes of its two halves of
/// four bytes.
proof fn lemma_bytes_of_halves(value: u64)
    ensures
        (value / 0x1_0000_0000) / 0x100_0000 == value / 0x100_0000_0000_0000,
        (value / 0x1_0000_0000) / 0x1_0000 % 0x100 == value / 0x1_0000_0000_0000 % 0x100,
        (value / 0x1_0000_0000) / 0x100 % 0x100 == value / 0x100_0000_0000 % 0x100,
        (value / 0x1_0000_0000) % 0x100 == value / 0x1_0000_0000 % 0x100,
        (value % 0x1_0000_0000) / 0x100_0000 == value / 0x100_0000 % 0x100,
        (value % 0x1_0000_0000) / 0x1_0000 % 0x100 == value / 0x1_0000 % 0x100,
        (value % 0x1_0000_0000) / 0x100 % 0x100 == value / 0x100 % 0x100,
        (value % 0x1_0000_0000) % 0x100 == value % 0x100,
{
    assert((value / 0x1_0000_0000) / 0x100_0000 == value / 0x100_0000_0000_0000) by (bit_vector);
    assert((value / 0x1_0000_0000) / 0x1_0000 % 0x100 == value / 0x1_0000_0000_0000 % 0x100)
        by (bit_vector);
    assert((value / 0x1_0000_0000) / 0x100 % 0x100 == value / 0x100_0000_0000 % 0x100)
        by (bit_vector);
    assert((value / 0x1_0000_0000) % 0x100 == value / 0x1_0000_0000 % 0x100) by (bit_vector);
    assert((value % 0x1_0000_0000) / 0x100_0000 == value / 0x100_0000 % 0x100) by (bit_vector);
    assert((value % 0x1_0000_0000) / 0x1_0000 % 0x100 == value / 0x1_0000 % 0x100)
        by (bit_vector);
    assert((value % 0x1_0000_0000) / 0x100 % 0x100 == value / 0x100 % 0x100) by (bit_vector);
    assert((value % 0x1_0000_0000) % 0x100 == value % 0x100) by (bit_vector);
}

/// A number below 2^64 is the sum of its two halves of four bytes, whose
/// bytes are its own.
proof fn lemma_two_halves(value: int)
    requires
        is_argument(value),
    ensures
        value == (value / 0x1_0000_0000) * 0x1_0000_0000 + value % 0x1_0000_0000,
        0 <= value / 0x1_0000_0000 < 0x1_0000_0000,
        0 <= value % 0x1_0000_0000 < 0x1_0000_0000,
        (value / 0x1_0000_0000) / 0x100_0000 == value / 0x100_0000_0000_0000,
        (value / 0x1_0000_0000) / 0x1_0000 % 0x100 == value / 0x1_0000_0000_0000 % 0x100,
        (value / 0x1_0000_0000) / 0x100 % 0x100 == value / 0x100_0000_0000 % 0x100,
        (value / 0x1_0000_0000) % 0x100 == value / 0x1_0000_0000 % 0x100,
        (value % 0x1_0000_0000) / 0x100_0000 == value / 0x100_0000 % 0x100,
        (value % 0x1_0000_0000) / 0x1_0000 % 0x100 == value / 0x1_0000 % 0x100,
        (value % 0x1_0000_0000) / 0x100 % 0x100 == value / 0x100 % 0x100,
        (value % 0x1_0000_0000) % 0x100 == value % 0x100,
{
    lemma_bytes_of_halves(value as u64);
}

/// Two heads of one major type that are the same hold the same argument.
pub proof fn lemma_head_argument(major: int, left: int, right: int)
    requires
        0 <= major < 8,
        is_argument(left),
        is_argument(right),
        head(major, left) == head(major, right),
    ensures
        left == right,
{
    let a = head(major, left);
    let b = head(major, right);
    lemma_head_len(major, left);
    lemma_head_len(major, right);
    assert(a[0] == b[0]);
    if a.len() == 1 {
    } else if a.len() == 2 {
        assert(a[1] == b[1]);
    } else if a.len() == 3 {
        assert(a[1] == b[1] && a[2] == b[2]);
    } else if a.len() == 5 {
        assert(a[1] == b[1] && a[2] == b[2] && a[3] == b[3] && a[4] == b[4]);
        lemma_four_bytes(left);
        lemma_four_bytes(right);
    } else {
        assert(a[1] == b[1] && a[2] == b[2] && a[3] == b[3] && a[4] == b[4]);
        assert(a[5] == b[5] && a[6] == b[6] && a[7] == b[7] && a[8] == b[8]);
        lemma_two_halves(left);
        lemma_two_halves(right);
        lemma_four_bytes(left / 0x1_0000_0000);
        lemma_four_bytes(right / 0x1_0000_0000);
        lemma_four_bytes(left % 0x1_0000_0000);
        lemma_four_bytes(right % 0x1_0000_0000);
    }
}

/// A head tells its argument: two heads of one major type that begin
/// two equal sequences hold the same argument, and what follows them is
/// the same.
pub proof fn lemma_head_injective(
    major: int,
    left: int,
    after_left: Seq<u8>,
    right: int,
    after_right: Seq<u8>,
)
    requires
        0 <= major < 8,
        is_argument(left),
        is_argument(right),
        head(major, left) + after_left == head(major, right) + after_right,
    ensures
        left == right,
        after_left == after_right,
{
    let a = head(major, left);
    let b = head(major, right);
    let whole = a + after_left;
    lemma_head_len(major, left);
    lemma_head_len(major, right);
    assert(whole[0] == a[0]);
    assert(whole[0] == b[0]) by {
        assert((b + after_right)[0] == b[0]);
    }
    assert(a.len() == b.len());
    assert(a =~= whole.take(a.len() as int));
    assert(b =~= (b + after_right).take(b.len() as int));
    lemma_head_argument(major, left, right);
    lemma_cancel_prefix(a, after_left, after_right);
}

/// A byte string tells its content: two byte strings that begin two
/// equal sequences hold the same bytes, and what follows them is the
/// same.
pub proof fn lemma_bytes_injective(
    left: Seq<u8>,
    after_left: Seq<u8>,
    right: Seq<u8>,
    after_right: Seq<u8>,
)
    requires
        is_argument(left.len() as int),
        is_argument(right.len() as int),
        bytes(left) + after_left == bytes(right) + after_right,
    ensures
        left == right,
        after_left == after_right,
{
    let a = head(MAJOR_BYTES as int, left.len() as int);
    let b = head(MAJOR_BYTES as int, right.len() as int);
    assert(bytes(left) + after_left =~= a + (left + after_left));
    assert(bytes(right) + after_right =~= b + (right + after_right));
    lemma_head_injective(
        MAJOR_BYTES as int,
        left.len() as int,
        left + after_left,
        right.len() as int,
        right + after_right,
    );
    assert(left =~= (left + after_left).take(left.len() as int));
    assert(right =~= (right + after_right).take(right.len() as int));
    lemma_cancel_prefix(left, after_left, after_right);
}

/// An encoded item tells its content, as a byte string does.
pub proof fn lemma_encoded_item_injective(
    left: Seq<u8>,
    after_left: Seq<u8>,
    right: Seq<u8>,
    after_right: Seq<u8>,
)
    requires
        is_argument(left.len() as int),
        is_argument(right.len() as int),
        encoded_item(left) + after_left == encoded_item(right) + after_right,
    ensures
        left == right,
        after_left == after_right,
{
    let tag = head(MAJOR_TAG as int, TAG_ENCODED_ITEM as int);
    assert(encoded_item(left) + after_left =~= tag + (bytes(left) + after_left));
    assert(encoded_item(right) + after_right =~= tag + (bytes(right) + after_right));
    lemma_cancel_prefix(tag, bytes(left) + after_left, bytes(right) + after_right);
    lemma_bytes_injective(left, after_left, right, after_right);
}

} // verus!
