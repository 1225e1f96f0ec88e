//! Range checks of JSON number tokens.

use vstd::prelude::*;

use super::json_grammar::Scan;

use super::json_float_range::float_token_within_f64;
use super::json_lexical_error_reason::JsonLexicalErrorReason;
use super::json_number::{
    digits_end, digits_value, integer_token_in_range, is_digit, is_fractional, lemma_digits_end,
    number_in_range, number_token_end, range_failure,
};

verus! {

/// A longer digit prefix has at least the value of a shorter one.
pub proof fn lemma_digits_value_monotonic(s: Seq<u8>, from: int, i: int, j: int)
    requires
        0 <= from <= i <= j <= s.len(),
    ensures
        digits_value(s.subrange(from, i)) <= digits_value(s.subrange(from, j)),
    decreases j - i,
{
    if i < j {
        lemma_digits_value_monotonic(s, from, i, j - 1);
        assert(s.subrange(from, j).drop_last() =~= s.subrange(from, j - 1));
    }
}

/// Without a fraction or an exponent, a number token is its optional sign
/// followed by digits.
pub proof fn lemma_integer_token_digits(s: Seq<u8>, start: int, end: int)
    requires
        number_token_end(s, start) == Scan::Ok(end),
        0 <= start < end <= s.len(),
        !is_fractional(s.subrange(start, end)),
    ensures
        forall|i: int|
            (if s[start] == 0x2D {
                start + 1
            } else {
                start
            }) <= i < end ==> is_digit(#[trigger] s[i]),
{
    let token = s.subrange(start, end);
    let a = if s[start] == 0x2D {
        start + 1
    } else {
        start
    };
    lemma_digits_end(s, a + 1);
    let b = if s[a] == 0x30 {
        a + 1
    } else {
        digits_end(s, a + 1)
    };
    lemma_digits_end(s, b + 1);
    lemma_digits_end(s, b + 2);
    if b < s.len() && s[b] == 0x2E {
        assert(token[b - start] == 0x2E);
    }
    if b < s.len() && (s[b] == 0x65 || s[b] == 0x45) {
        assert(token[b - start] == s[b]);
    }
    assert(end == b);
}

/// Tests whether the digits `input[from..to]` denote at most `limit`.
fn digits_at_most(input: &[u8], from: usize, to: usize, limit: u128) -> (within: bool)
    requires
        from <= to <= input@.len(),
        limit <= 0x1_0000_0000_0000_0000,
        forall|i: int| from <= i < to ==> is_digit(#[trigger] input@[i]),
    ensures
        within == (digits_value(input@.subrange(from as int, to as int)) <= limit),
{
    let mut value: u128 = 0;
    let mut i = from;
    assert(input@.subrange(from as int, from as int) =~= Seq::<u8>::empty());
    while i < to
        invariant
            from <= i <= to <= input@.len(),
            limit <= 0x1_0000_0000_0000_0000,
            forall|k: int| from <= k < to ==> is_digit(#[trigger] input@[k]),
            value == digits_value(input@.subrange(from as int, i as int)),
            value <= limit,
        decreases to - i,
    {
        let digit = input[i] - 0x30;
        assert(input@.subrange(from as int, i + 1).drop_last() =~= input@.subrange(
            from as int,
            i as int,
        ));
        let next = value * 10 + digit as u128;
        if next > limit {
            proof {
                lemma_digits_value_monotonic(input@, from as int, i + 1, to as int);
            }
            return false;
        }
        value = next;
        i = i + 1;
    }
    true
}

/// Tests whether the token `input[start..end]` holds a fraction or an
/// exponent.
fn token_is_fractional(input: &[u8], start: usize, end: usize) -> (fractional: bool)
    requires
        start <= end <= input@.len(),
    ensures
        fractional == is_fractional(input@.subrange(start as int, end as int)),
{
    let ghost token = input@.subrange(start as int, end as int);
    let mut i = start;
    while i < end
        invariant
            start <= i <= end <= input@.len(),
            token == input@.subrange(start as int, end as int),
            forall|k: int|
                0 <= k < i - start ==> !(token[k] == 0x2E || token[k] == 0x65 || token[k] == 0x45),
        decreases end - i,
    {
        let b = input[i];
        if b == 0x2E || b == 0x65 || b == 0x45 {
            assert(token[i - start] == b);
            return true;
        }
        assert(token[i - start] == b);
        i = i + 1;
    }
    false
}

/// Checks that the number token `input[start..end]` is representable: an
/// integer must fit `i64` (when negative) or `u64`, and a fractional number
/// must parse to a finite `f64`.
pub fn check_number_range(input: &[u8], start: usize, end: usize) -> (result: Result<
    (),
    JsonLexicalErrorReason,
>)
    requires
        number_token_end(input@, start as int) == Scan::Ok(end as int),
        start < end <= input@.len() < usize::MAX,
    ensures
        result is Ok <==> number_in_range(input@, start as int, end as int),
        result matches Err(reason) ==> reason == range_failure(input@, start as int, end as int),
{
    let ghost s = input@;
    let ghost token = s.subrange(start as int, end as int);
    if token_is_fractional(input, start, end) {
        if float_token_within_f64(input, start, end) {
            Ok(())
        } else {
            Err(JsonLexicalErrorReason::FloatOutOfRange)
        }
    } else {
        let a: usize = if input[start] == 0x2D {
            start + 1
        } else {
            start
        };
        proof {
            lemma_integer_token_digits(s, start as int, end as int);
        }
        let within = if input[start] == 0x2D {
            assert(token.subrange(1, token.len() as int) =~= s.subrange(a as int, end as int));
            digits_at_most(input, a, end, 0x8000_0000_0000_0000)
        } else {
            assert(token =~= s.subrange(a as int, end as int));
            digits_at_most(input, a, end, 0xFFFF_FFFF_FFFF_FFFF)
        };
        if within {
            Ok(())
        } else {
            Err(JsonLexicalErrorReason::IntegerOutOfRange)
        }
    }
}

} // verus!
