//! UTF-8 facts and byte-range slicing of string slices.

use vstd::prelude::*;
use vstd::string::StringSliceAdditionalSpecFns;
use vstd::utf8::*;

verus! {

broadcast use vstd::utf8::encode_utf8_valid_utf8;

/// Every byte of a sequence is an ASCII byte.
pub open spec fn all_ascii(bytes: Seq<u8>) -> bool {
    forall|i: int| 0 <= i < bytes.len() ==> #[trigger] bytes[i] < 0x80
}

/// The UTF-8 encoding of a concatenation is the concatenation of encodings.
pub proof fn lemma_encode_utf8_concat(a: Seq<char>, b: Seq<char>)
    ensures
        encode_utf8(a + b) == encode_utf8(a) + encode_utf8(b),
    decreases a.len(),
{
    if a.len() == 0 {
        assert(a + b =~= b);
        assert(encode_utf8(a) =~= Seq::<u8>::empty());
        assert(encode_utf8(a) + encode_utf8(b) =~= encode_utf8(b));
    } else {
        lemma_encode_utf8_concat(a.drop_first(), b);
        assert((a + b).drop_first() =~= a.drop_first() + b);
        assert((a + b)[0] == a[0]);
        assert(encode_utf8(a + b) == encode_scalar(a[0] as u32) + encode_utf8((a + b).drop_first()));
        assert(encode_utf8(a) == encode_scalar(a[0] as u32) + encode_utf8(a.drop_first()));
        assert(encode_utf8(a + b) =~= encode_utf8(a) + encode_utf8(b));
    }
}

/// The UTF-8 encoding of ASCII characters maps each character to its code.
pub proof fn lemma_encode_ascii(cs: Seq<char>)
    requires
        forall|i: int| 0 <= i < cs.len() ==> (#[trigger] cs[i] as u32) < 0x80,
    ensures
        encode_utf8(cs) == Seq::new(cs.len(), |i: int| (cs[i] as u32) as u8),
    decreases cs.len(),
{
    if cs.len() == 0 {
        assert(encode_utf8(cs) =~= Seq::new(cs.len(), |i: int| (cs[i] as u32) as u8));
    } else {
        let rest = cs.drop_first();
        assert forall|i: int| 0 <= i < rest.len() implies (#[trigger] rest[i] as u32) < 0x80 by {
            assert(rest[i] == cs[i + 1]);
        }
        lemma_encode_ascii(rest);
        let c = cs[0] as u32;
        assert(c < 0x80);
        assert((c & 0x7f) == c && ((c & 0x7f) as u8) == c as u8) by (bit_vector)
            requires
                c < 0x80,
        ;
        assert(encode_scalar(c) == seq![leading_byte_width_1(c)]);
        assert(leading_byte_width_1(c) == c as u8);
        let whole = encode_utf8(cs);
        assert(whole == seq![leading_byte_width_1(c)] + encode_utf8(rest));
        assert forall|i: int| 0 <= i < cs.len() implies whole[i] == (cs[i] as u32) as u8 by {
            if i > 0 {
                assert(whole[i] == encode_utf8(rest)[i - 1]);
                assert(rest[i - 1] == cs[i]);
            }
        }
        assert(encode_utf8(cs) =~= Seq::new(cs.len(), |i: int| (cs[i] as u32) as u8));
    }
}

/// In valid UTF-8 the positions just before and just after an ASCII byte are
/// character boundaries.
pub proof fn lemma_ascii_boundaries(bytes: Seq<u8>, i: int)
    requires
        valid_utf8(bytes),
        0 <= i < bytes.len(),
        bytes[i] < 0x80,
    ensures
        is_char_boundary(bytes, i),
        is_char_boundary(bytes, i + 1),
    decreases bytes.len(),
{
    reveal_with_fuel(is_char_boundary, 2);
    if i == 0 {
        assert(is_leading_byte_width_1(bytes[0]));
        assert(length_of_first_scalar(bytes) == 1);
    } else {
        let k = length_of_first_scalar(bytes);
        let rest = pop_first_scalar(bytes);
        assert(valid_first_scalar(bytes));
        if i < k {
            // an ASCII byte cannot be a continuation byte of a longer scalar
            assert(!is_leading_byte_width_1(bytes[0]));
            assert(is_continuation_byte(bytes[i]));
            assert(false);
        } else {
            assert(rest.len() == bytes.len() - k);
            assert(rest[i - k] == bytes[i]);
            lemma_ascii_boundaries(rest, i - k);
        }
    }
}

/// Returns the bytes of `s` in the byte range `[from, to)` as a string slice.
pub(crate) fn slice_text<'a>(s: &'a str, from: usize, to: usize) -> (r: &'a str)
    requires
        from <= to <= s.spec_bytes().len(),
        is_char_boundary(s.spec_bytes(), from as int),
        is_char_boundary(s.spec_bytes(), to as int),
    ensures
        r.spec_bytes() == s.spec_bytes().subrange(from as int, to as int),
{
    proof {
        broadcast use vstd::utf8::valid_utf8_split;
    }
    let (head, _) = s.split_at(to);
    proof {
        assert(head.spec_bytes() =~= s.spec_bytes().subrange(0, to as int));
        is_char_boundary_prefix(s.spec_bytes(), from as int, to as int);
    }
    let (_, middle) = head.split_at(from);
    assert(middle.spec_bytes() =~= s.spec_bytes().subrange(from as int, to as int));
    middle
}

/// A character boundary of a valid sequence is also a character boundary of
/// any prefix that ends at a later character boundary.
pub proof fn is_char_boundary_prefix(bytes: Seq<u8>, from: int, to: int)
    requires
        valid_utf8(bytes),
        0 <= from <= to <= bytes.len(),
        is_char_boundary(bytes, from),
        is_char_boundary(bytes, to),
    ensures
        valid_utf8(bytes.subrange(0, to)),
        is_char_boundary(bytes.subrange(0, to), from),
    decreases bytes.len(),
{
    broadcast use vstd::utf8::valid_utf8_split;
    let prefix = bytes.subrange(0, to);
    if from == 0 {
    } else {
        reveal_with_fuel(is_char_boundary, 2);
        let k = length_of_first_scalar(bytes);
        assert(prefix.len() > 0);
        assert(valid_first_scalar(bytes));
        assert(prefix.subrange(0, 1) == bytes.subrange(0, 1));
        is_char_boundary_at_least_first(bytes, from);
        is_char_boundary_at_least_first(bytes, to);
        assert(k <= from);
        assert forall|j: int| 0 <= j < k implies prefix[j] == bytes[j] by {}
        assert(valid_first_scalar(prefix));
        assert(length_of_first_scalar(prefix) == k);
        assert(pop_first_scalar(prefix) =~= pop_first_scalar(bytes).subrange(0, to - k));
        is_char_boundary_prefix(pop_first_scalar(bytes), from - k, to - k);
    }
}

/// A positive character boundary lies at or after the end of the first scalar.
pub proof fn is_char_boundary_at_least_first(bytes: Seq<u8>, index: int)
    requires
        valid_utf8(bytes),
        is_char_boundary(bytes, index),
        index > 0,
    ensures
        index >= length_of_first_scalar(bytes),
        is_char_boundary(pop_first_scalar(bytes), index - length_of_first_scalar(bytes)),
{
    reveal_with_fuel(is_char_boundary, 2);
    if index < length_of_first_scalar(bytes) {
        let rest = pop_first_scalar(bytes);
        assert(index - length_of_first_scalar(bytes) < 0);
        assert(!is_char_boundary(rest, index - length_of_first_scalar(bytes)));
    }
}

/// Creates an empty string with room for `capacity` bytes through
/// `String::with_capacity`, which panics for a capacity above `isize::MAX`
/// bytes.
#[verifier::external_body]
pub(crate) fn string_with_capacity(capacity: usize) -> (s: String)
    requires
        capacity <= isize::MAX,
    ensures
        s@ == Seq::<char>::empty(),
{
    String::with_capacity(capacity)
}

/// A capacity hint no larger than the most bytes a string can hold.
pub(crate) fn bounded_capacity(capacity: usize) -> (bounded: usize)
    ensures
        bounded <= isize::MAX,
        bounded == capacity || bounded == isize::MAX,
{
    let most: usize = isize::MAX as usize;
    if capacity <= most {
        capacity
    } else {
        most
    }
}

} // verus!
