//! Eight-byte word classification used to skip ordinary JSON text quickly.

use vstd::prelude::*;

verus! {

/// High bit of every byte in a word.
pub const HIGH_BITS: u64 = 0x8080_8080_8080_8080;

/// Low bit of every byte in a word.
pub const LOW_BITS: u64 = 0x0101_0101_0101_0101;

/// Per-byte offset used to classify bytes below `0x20`.
pub const CONTROL_OFFSET: u64 = 0x2020_2020_2020_2020;

/// Subtraction modulo 2^64.
pub open spec fn sub_mod(x: u64, y: u64) -> u64 {
    if x >= y {
        (x - y) as u64
    } else {
        (x - y + 0x1_0000_0000_0000_0000) as u64
    }
}

/// Byte `k` (counting from the least significant) of `w`.
pub open spec fn byte_of(w: u64, k: u64) -> u8 {
    ((w >> (8 * k)) & 0xff) as u8
}

/// The word whose byte `k` is `bytes[at + k]` for `k < 8`.
pub open spec fn word_at(bytes: Seq<u8>, at: int) -> u64 {
    (bytes[at] as u64) | ((bytes[at + 1] as u64) << 8u64) | ((bytes[at + 2] as u64) << 16u64)
        | ((bytes[at + 3] as u64) << 24u64) | ((bytes[at + 4] as u64) << 32u64)
        | ((bytes[at + 5] as u64) << 40u64) | ((bytes[at + 6] as u64) << 48u64)
        | ((bytes[at + 7] as u64) << 56u64)
}

/// The mask with the high bit of byte `k` set exactly when byte `k` of `w`
/// is an ASCII C0 control byte.
pub open spec fn control_mask(w: u64) -> u64 {
    !((sub_mod(w | HIGH_BITS, CONTROL_OFFSET) | w) & HIGH_BITS) & HIGH_BITS
}

/// Whether the word holds `byte` in some byte position.
pub open spec fn zero_byte_flag(candidate: u64) -> bool {
    (sub_mod(candidate, LOW_BITS) & !candidate & HIGH_BITS) != 0
}

proof fn lemma_word_of_bytes(b0: u8, b1: u8, b2: u8, b3: u8, b4: u8, b5: u8, b6: u8, b7: u8, w: u64)
    by (bit_vector)
    requires
        w == (b0 as u64) | ((b1 as u64) << 8u64) | ((b2 as u64) << 16u64) | ((b3 as u64) << 24u64)
            | ((b4 as u64) << 32u64) | ((b5 as u64) << 40u64) | ((b6 as u64) << 48u64)
            | ((b7 as u64) << 56u64),
    ensures
        ((w >> 0u64) & 0xff) as u8 == b0,
        ((w >> 8u64) & 0xff) as u8 == b1,
        ((w >> 16u64) & 0xff) as u8 == b2,
        ((w >> 24u64) & 0xff) as u8 == b3,
        ((w >> 32u64) & 0xff) as u8 == b4,
        ((w >> 40u64) & 0xff) as u8 == b5,
        ((w >> 48u64) & 0xff) as u8 == b6,
        ((w >> 56u64) & 0xff) as u8 == b7,
{
}

/// Byte `k` of the word assembled at `at` is `bytes[at + k]`.
pub proof fn lemma_word_at_bytes(bytes: Seq<u8>, at: int)
    requires
        0 <= at,
        at + 8 <= bytes.len(),
    ensures
        forall|k: u64| k < 8 ==> #[trigger] byte_of(word_at(bytes, at), k) == bytes[at + k],
{
    let w = word_at(bytes, at);
    lemma_word_of_bytes(
        bytes[at],
        bytes[at + 1],
        bytes[at + 2],
        bytes[at + 3],
        bytes[at + 4],
        bytes[at + 5],
        bytes[at + 6],
        bytes[at + 7],
        w,
    );
    assert forall|k: u64| k < 8 implies #[trigger] byte_of(w, k) == bytes[at + k] by {
        if k == 0 {
        } else if k == 1 {
        } else if k == 2 {
        } else if k == 3 {
        } else if k == 4 {
        } else if k == 5 {
        } else if k == 6 {
        } else {
        }
    }
}

proof fn lemma_control_mask_bit(w: u64, k: u64)
    by (bit_vector)
    requires
        k < 8,
    ensures
        ((control_mask(w) >> (8 * k + 7)) & 1 == 1) <==> (((w >> (8 * k)) & 0xff) < 0x20),
{
}

/// The control mask has a set bit exactly for the control bytes of `w`.
pub proof fn lemma_control_mask(w: u64)
    ensures
        forall|k: u64| k < 8 ==> (((control_mask(w) >> (8 * k + 7)) & 1 == 1) <==> #[trigger] byte_of(w, k) < 0x20),
        (control_mask(w) != 0) <==> exists|k: u64| k < 8 && #[trigger] byte_of(w, k) < 0x20,
{
    assert forall|k: u64| k < 8 implies (((control_mask(w) >> (8 * k + 7)) & 1 == 1) <==> #[trigger] byte_of(w, k) < 0x20) by {
        lemma_control_mask_bit(w, k);
        assert((((w >> (8 * k)) & 0xff) < 0x20) <==> (((w >> (8 * k)) & 0xff) as u8) < 0x20) by (bit_vector);
    }
    lemma_control_mask_nonzero(w);
    if control_mask(w) != 0 {
        let m = control_mask(w);
        if (m >> 7u64) & 1 == 1 { assert(byte_of(w, 0) < 0x20); }
        else if (m >> 15u64) & 1 == 1 { assert(byte_of(w, 1) < 0x20); }
        else if (m >> 23u64) & 1 == 1 { assert(byte_of(w, 2) < 0x20); }
        else if (m >> 31u64) & 1 == 1 { assert(byte_of(w, 3) < 0x20); }
        else if (m >> 39u64) & 1 == 1 { assert(byte_of(w, 4) < 0x20); }
        else if (m >> 47u64) & 1 == 1 { assert(byte_of(w, 5) < 0x20); }
        else if (m >> 55u64) & 1 == 1 { assert(byte_of(w, 6) < 0x20); }
        else { assert(byte_of(w, 7) < 0x20); }
    }
}

proof fn lemma_control_mask_nonzero(w: u64)
    by (bit_vector)
    ensures
        control_mask(w) != 0 <==> (
            (control_mask(w) >> 7u64) & 1 == 1 || (control_mask(w) >> 15u64) & 1 == 1
            || (control_mask(w) >> 23u64) & 1 == 1 || (control_mask(w) >> 31u64) & 1 == 1
            || (control_mask(w) >> 39u64) & 1 == 1 || (control_mask(w) >> 47u64) & 1 == 1
            || (control_mask(w) >> 55u64) & 1 == 1 || (control_mask(w) >> 63u64) & 1 == 1),
{
}

proof fn lemma_contains_byte_bv(w: u64, b: u8)
    by (bit_vector)
    ensures
        zero_byte_flag(w ^ (((b as u64) * LOW_BITS) as u64)) <==> (
            byte_of(w, 0u64) == b || byte_of(w, 1u64) == b || byte_of(w, 2u64) == b
            || byte_of(w, 3u64) == b || byte_of(w, 4u64) == b || byte_of(w, 5u64) == b
            || byte_of(w, 6u64) == b || byte_of(w, 7u64) == b),
{
}

/// The repeated-byte comparison finds `b` in `w` exactly when some byte of
/// `w` equals `b`.
pub proof fn lemma_contains_byte(w: u64, b: u8)
    ensures
        zero_byte_flag(w ^ (((b as u64) * LOW_BITS) as u64)) <==> exists|k: u64| k < 8 && #[trigger] byte_of(w, k) == b,
{
    lemma_contains_byte_bv(w, b);
    if exists|k: u64| k < 8 && #[trigger] byte_of(w, k) == b {
        let k = choose|k: u64| k < 8 && #[trigger] byte_of(w, k) == b;
        assert(k == 0 || k == 1 || k == 2 || k == 3 || k == 4 || k == 5 || k == 6 || k == 7);
    }
}

/// One when byte `k` of `w` is an ASCII control byte, zero otherwise.
pub open spec fn control_indicator(w: u64, k: u64) -> u64 {
    if byte_of(w, k) < 0x20 { 1 } else { 0 }
}

/// The number of ASCII control bytes in `w`.
pub open spec fn control_count(w: u64) -> u64 {
    (control_indicator(w, 0) + control_indicator(w, 1) + control_indicator(w, 2)
        + control_indicator(w, 3) + control_indicator(w, 4) + control_indicator(w, 5)
        + control_indicator(w, 6) + control_indicator(w, 7)) as u64
}

/// Clearing the lowest set bit of the control mask leaves a bit set exactly
/// when the word holds at least two control bytes.
pub proof fn lemma_two_controls(w: u64)
    by (bit_vector)
    ensures
        ((control_mask(w) & sub_mod(control_mask(w), 1)) != 0) <==> control_count(w) >= 2,
{
}

} // verus!
