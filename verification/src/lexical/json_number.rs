//! JSON number tokens: their grammar and the numeric range they must fit.

use vstd::prelude::*;

use super::json_float_range::float_is_finite;
use super::json_grammar::{is_value_delimiter_at, Scan};
use super::json_lexical_error_reason::JsonLexicalErrorReason;

verus! {

/// An ASCII decimal digit.
pub open spec fn is_digit(b: u8) -> bool {
    0x30 <= b <= 0x39
}

/// The end of the run of digits starting at `p`.
pub open spec fn digits_end(s: Seq<u8>, p: int) -> int
    decreases s.len() - p,
{
    if 0 <= p < s.len() && is_digit(s[p]) {
        digits_end(s, p + 1)
    } else {
        p
    }
}

/// The end of the mandatory digits of a fraction or exponent at `p`.
pub open spec fn required_digits_end(s: Seq<u8>, p: int) -> Scan {
    if p < s.len() && is_digit(s[p]) {
        Ok(digits_end(s, p))
    } else {
        Err((p, JsonLexicalErrorReason::InvalidNumber))
    }
}

/// The end of the integer part of a number whose optional sign ends at `a`.
pub open spec fn integer_part_end(s: Seq<u8>, a: int) -> Scan {
    if a >= s.len() {
        Err((a, JsonLexicalErrorReason::UnexpectedEnd))
    } else if s[a] == 0x30 {
        Ok(a + 1)
    } else if 0x31 <= s[a] <= 0x39 {
        Ok(digits_end(s, a + 1))
    } else {
        Err((a, JsonLexicalErrorReason::InvalidNumber))
    }
}

/// The end of an optional fraction starting at `b`.
pub open spec fn fraction_end(s: Seq<u8>, b: int) -> Scan {
    if b < s.len() && s[b] == 0x2E {
        required_digits_end(s, b + 1)
    } else {
        Ok(b)
    }
}

/// The end of an optional exponent starting at `c`.
pub open spec fn exponent_end(s: Seq<u8>, c: int) -> Scan {
    if c < s.len() && (s[c] == 0x65 || s[c] == 0x45) {
        let d = if c + 1 < s.len() && (s[c + 1] == 0x2B || s[c + 1] == 0x2D) {
            c + 2
        } else {
            c + 1
        };
        required_digits_end(s, d)
    } else {
        Ok(c)
    }
}

/// The end of the number token starting at `q`, following the JSON number
/// grammar `-? (0 | [1-9][0-9]*) (. [0-9]+)? ([eE] [+-]? [0-9]+)?`; the token
/// must be followed by a value delimiter.
pub open spec fn number_token_end(s: Seq<u8>, q: int) -> Scan {
    let a = if q < s.len() && s[q] == 0x2D {
        q + 1
    } else {
        q
    };
    match integer_part_end(s, a) {
        Err(e) => Err(e),
        Ok(b) => match fraction_end(s, b) {
            Err(e) => Err(e),
            Ok(c) => match exponent_end(s, c) {
                Err(e) => Err(e),
                Ok(e) => if is_value_delimiter_at(s, e) {
                    Ok(e)
                } else {
                    Err((e, JsonLexicalErrorReason::InvalidNumber))
                },
            },
        },
    }
}

/// The value of a sequence of ASCII decimal digits.
pub open spec fn digits_value(ds: Seq<u8>) -> nat
    decreases ds.len(),
{
    if ds.len() == 0 {
        0
    } else {
        digits_value(ds.drop_last()) * 10 + (ds.last() - 0x30) as nat
    }
}

/// A token holds a fraction or an exponent.
pub open spec fn is_fractional(token: Seq<u8>) -> bool {
    exists|i: int| 0 <= i < token.len() && (token[i] == 0x2E || token[i] == 0x65 || token[i] == 0x45)
}

/// An integer token fits `i64` (when negative) or `u64`.
pub open spec fn integer_token_in_range(token: Seq<u8>) -> bool {
    if token.len() > 0 && token[0] == 0x2D {
        digits_value(token.subrange(1, token.len() as int)) <= 0x8000_0000_0000_0000
    } else {
        digits_value(token) <= 0xFFFF_FFFF_FFFF_FFFF
    }
}

/// The number token between `q` and `e` has a representable value.
pub open spec fn number_in_range(s: Seq<u8>, q: int, e: int) -> bool {
    let token = s.subrange(q, e);
    if is_fractional(token) {
        float_is_finite(s, q)
    } else {
        integer_token_in_range(token)
    }
}

/// The reason reported for an out-of-range number token.
pub open spec fn range_failure(s: Seq<u8>, q: int, e: int) -> JsonLexicalErrorReason {
    if is_fractional(s.subrange(q, e)) {
        JsonLexicalErrorReason::FloatOutOfRange
    } else {
        JsonLexicalErrorReason::IntegerOutOfRange
    }
}

/// The outcome of scanning one number token at `q`.
pub open spec fn number_at(s: Seq<u8>, q: int) -> Scan {
    match number_token_end(s, q) {
        Err(e) => Err(e),
        Ok(e) => if number_in_range(s, q, e) {
            Ok(e)
        } else {
            Err((q, range_failure(s, q, e)))
        },
    }
}

/// A digit run never ends before it starts, nor past the input.
pub proof fn lemma_digits_end(s: Seq<u8>, p: int)
    ensures
        p <= digits_end(s, p),
        0 <= p <= s.len() ==> digits_end(s, p) <= s.len(),
        forall|i: int| p <= i < digits_end(s, p) ==> is_digit(#[trigger] s[i]),
        0 <= p ==> !(digits_end(s, p) < s.len() && is_digit(s[digits_end(s, p)])),
    decreases s.len() - p,
{
    if 0 <= p < s.len() && is_digit(s[p]) {
        lemma_digits_end(s, p + 1);
    }
}

/// A number token that scans successfully lies strictly after its start
/// and within the input.
pub proof fn lemma_number_at_advances(s: Seq<u8>, q: int)
    requires
        0 <= q < s.len(),
    ensures
        number_at(s, q) matches Ok(e) ==> q < e <= s.len(),
{
    let a = if q < s.len() && s[q] == 0x2D {
        q + 1
    } else {
        q
    };
    lemma_digits_end(s, a + 1);
    if let Ok(b) = integer_part_end(s, a) {
        lemma_digits_end(s, b + 1);
        if let Ok(c) = fraction_end(s, b) {
            lemma_digits_end(s, c + 1);
            lemma_digits_end(s, c + 2);
        }
    }
}

/// Changing a byte that is not a digit into another non-digit leaves every
/// digit run where it was.
proof fn lemma_digits_end_update(s: Seq<u8>, c: int, x: u8, p: int)
    requires
        0 <= c < s.len(),
        !is_digit(s[c]),
        !is_digit(x),
    ensures
        digits_end(s.update(c, x), p) == digits_end(s, p),
    decreases s.len() - p,
{
    if 0 <= p < s.len() && is_digit(s[p]) {
        lemma_digits_end_update(s, c, x, p + 1);
    }
}

/// The exponent of a number may be introduced by `e` or by `E`: writing the
/// marker in the other case changes nothing in how the token scans, neither
/// where it ends nor where and why it is rejected.
pub proof fn lemma_exponent_marker_case_is_irrelevant(s: Seq<u8>, q: int, c: int)
    requires
        0 <= q,
        0 <= c < s.len(),
        s[c] == 0x65,
    ensures
        number_token_end(s.update(c, 0x45), q) == number_token_end(s, q),
{
    let t = s.update(c, 0x45);
    assert forall|p: int| #[trigger] digits_end(t, p) == digits_end(s, p) by {
        lemma_digits_end_update(s, c, 0x45, p);
    }
    assert forall|p: int| 0 <= p implies #[trigger] integer_part_end(t, p) == integer_part_end(s, p) by {
        lemma_digits_end_update(s, c, 0x45, p + 1);
        if 0 <= p < s.len() && p != c {
            assert(t[p] == s[p]);
        }
    }
    assert forall|p: int| 0 <= p implies #[trigger] required_digits_end(t, p) == required_digits_end(s, p) by {
        lemma_digits_end_update(s, c, 0x45, p);
        if 0 <= p < s.len() && p != c {
            assert(t[p] == s[p]);
        }
    }
    assert forall|p: int| 0 <= p implies #[trigger] fraction_end(t, p) == fraction_end(s, p) by {
        assert(required_digits_end(t, p + 1) == required_digits_end(s, p + 1));
    }
    assert forall|p: int| 0 <= p implies #[trigger] exponent_end(t, p) == exponent_end(s, p) by {
        assert(required_digits_end(t, p + 1) == required_digits_end(s, p + 1));
        assert(required_digits_end(t, p + 2) == required_digits_end(s, p + 2));
    }
    assert forall|p: int| 0 <= p implies #[trigger] is_value_delimiter_at(t, p) == is_value_delimiter_at(s, p) by {}
    let a = if q < s.len() && s[q] == 0x2D {
        q + 1
    } else {
        q
    };
    assert(a == if q < t.len() && t[q] == 0x2D {
        q + 1
    } else {
        q
    });
    assert(integer_part_end(t, a) == integer_part_end(s, a));
    lemma_digits_end(s, a + 1);
    if let Ok(b) = integer_part_end(s, a) {
        assert(fraction_end(t, b) == fraction_end(s, b));
        lemma_digits_end(s, b + 1);
        if let Ok(c2) = fraction_end(s, b) {
            lemma_digits_end(s, c2 + 1);
            lemma_digits_end(s, c2 + 2);
            assert(exponent_end(t, c2) == exponent_end(s, c2));
            if let Ok(e) = exponent_end(s, c2) {
                assert(is_value_delimiter_at(t, e) == is_value_delimiter_at(s, e));
            }
        }
    }
}

/// A token whose exponent marker is written in either case counts as
/// fractional either way, so its range is checked as a float both times.
pub proof fn lemma_exponent_marker_case_keeps_token_fractional(s: Seq<u8>, q: int, e: int, c: int)
    requires
        0 <= q <= e <= s.len(),
        0 <= c < s.len(),
        s[c] == 0x65,
    ensures
        is_fractional(s.update(c, 0x45).subrange(q, e)) == is_fractional(s.subrange(q, e)),
{
    let t = s.update(c, 0x45).subrange(q, e);
    let u = s.subrange(q, e);
    if is_fractional(u) {
        let i = choose|i: int| 0 <= i < u.len() && (u[i] == 0x2E || u[i] == 0x65 || u[i] == 0x45);
        assert(t[i] == 0x2E || t[i] == 0x65 || t[i] == 0x45);
    }
    if is_fractional(t) {
        let i = choose|i: int| 0 <= i < t.len() && (t[i] == 0x2E || t[i] == 0x65 || t[i] == 0x45);
        assert(u[i] == 0x2E || u[i] == 0x65 || u[i] == 0x45);
    }
}

/// A leading minus sign only marks the number negative: the token scans
/// from the sign exactly as it does from the digit after it.
pub proof fn lemma_minus_sign_prefixes_number(s: Seq<u8>, q: int)
    requires
        0 <= q,
        q + 1 < s.len(),
        s[q] == 0x2D,
        s[q + 1] != 0x2D,
    ensures
        number_token_end(s, q) == number_token_end(s, q + 1),
{
}

/// A zero that starts the integer part cannot be followed by another
/// digit: such a token is rejected at that digit.
pub proof fn lemma_leading_zero_rejects_more_digits(s: Seq<u8>, q: int)
    requires
        0 <= q,
        q + 1 < s.len(),
        s[q] == 0x30,
        0x30 <= s[q + 1] <= 0x39,
    ensures
        number_token_end(s, q) == Err::<int, (int, JsonLexicalErrorReason)>(
            (q + 1, JsonLexicalErrorReason::InvalidNumber),
        ),
{
}

} // verus!
