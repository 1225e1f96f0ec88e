//! Byte lengths of JSON number lexemes and rendered map keys.

use vstd::prelude::*;

use crate::lexical::json_float_range::{lemma_chunk_powers, pow10};
use crate::text::{decimal_chars, decimal_string, signed_decimal_chars, signed_decimal_string};

verus! {

/// The decimal rendering of `n` has one more digit than that of `n / 10`.
proof fn lemma_decimal_len(n: nat)
    ensures
        decimal_chars(n).len() >= 1,
        n >= 10 ==> decimal_chars(n).len() == decimal_chars(n / 10).len() + 1,
    decreases n,
{
    if n >= 10 {
        lemma_decimal_len(n / 10);
    }
}

/// A number below ten to the `k` has at most `k` decimal digits.
proof fn lemma_decimal_len_bound(n: nat, k: nat)
    requires
        k >= 1,
        n < pow10(k),
    ensures
        decimal_chars(n).len() <= k,
    decreases k,
{
    lemma_decimal_len(n);
    if n >= 10 {
        if k == 1 {
            assert(pow10(1) == 10 * pow10(0));
        } else {
            let p = pow10((k - 1) as nat);
            assert(pow10(k) == 10 * p);
            assert(n / 10 < p) by (nonlinear_arith)
                requires
                    n < 10 * p,
            ;
            lemma_decimal_len_bound(n / 10, (k - 1) as nat);
        }
    }
}

/// Every `u128` has at most 39 decimal digits.
proof fn lemma_u128_decimal_len(n: u128)
    ensures
        decimal_chars(n as nat).len() <= 39,
{
    lemma_chunk_powers();
    assert(pow10(39) == 10 * pow10(38));
    lemma_decimal_len_bound(n as nat, 39);
}

/// Byte lengths of JSON integer lexemes.
pub struct JsonLexemeLength;

impl JsonLexemeLength {
    /// The length of the decimal rendering of an unsigned integer.
    pub fn unsigned_integer(value: u128) -> (len: usize)
        ensures
            len == decimal_chars(value as nat).len(),
            len <= 39,
    {
        let mut rest = value;
        let mut len: usize = 1;
        proof {
            lemma_decimal_len(value as nat);
            lemma_u128_decimal_len(value);
        }
        while rest >= 10
            invariant
                1 <= len,
                decimal_chars(value as nat).len() <= 39,
                decimal_chars(value as nat).len() == decimal_chars(rest as nat).len() + len - 1,
                decimal_chars(rest as nat).len() >= 1,
            decreases rest,
        {
            proof {
                lemma_decimal_len(rest as nat);
                lemma_decimal_len((rest / 10) as nat);
            }
            rest = rest / 10;
            len = len + 1;
        }
        len
    }

    /// The length of the decimal rendering of a signed integer, sign
    /// included.
    pub fn signed_integer(value: i128) -> (len: usize)
        ensures
            len == signed_decimal_chars(value as int).len(),
    {
        let magnitude: u128 = if value < 0 {
            if value == i128::MIN {
                0x8000_0000_0000_0000_0000_0000_0000_0000
            } else {
                (0 - value) as u128
            }
        } else {
            value as u128
        };
        let digits = Self::unsigned_integer(magnitude);
        if value < 0 {
            1 + digits
        } else {
            digits
        }
    }

    /// The length of the decimal rendering of a byte.
    pub fn byte(value: u8) -> (len: usize)
        ensures
            len == decimal_chars(value as nat).len(),
            1 <= len <= 3,
    {
        proof {
            lemma_decimal_len(value as nat);
            lemma_decimal_len((value / 10) as nat);
            lemma_decimal_len((value / 100) as nat);
        }
        if value < 10 {
            1
        } else if value < 100 {
            2
        } else {
            3
        }
    }
}

/// Counts the bytes written by a JSON number formatter.
pub struct JsonLexemeLengthWriter {
    /// Bytes accepted so far.
    len: usize,
}

impl JsonLexemeLengthWriter {
    /// The number of bytes accepted so far.
    pub closed spec fn spec_len(self) -> usize {
        self.len
    }

    /// Creates a writer that has accepted nothing.
    pub fn new() -> (writer: Self)
        ensures
            writer.spec_len() == 0,
    {
        JsonLexemeLengthWriter { len: 0 }
    }

    /// Returns the number of bytes accepted so far.
    pub fn len(&self) -> (len: usize)
        ensures
            len == self.spec_len(),
    {
        self.len
    }

    /// Accepts `count` more bytes, or refuses them when the total would not
    /// fit `usize`; returns the accepted count.
    pub fn record(&mut self, count: usize) -> (accepted: Option<usize>)
        ensures
            old(self).spec_len() + count <= usize::MAX ==> accepted == Some(count)
                && final(self).spec_len() == old(self).spec_len() + count,
            old(self).spec_len() + count > usize::MAX ==> accepted is None && final(self).spec_len()
                == old(self).spec_len(),
    {
        match self.len.checked_add(count) {
            Some(total) => {
                self.len = total;
                Some(count)
            },
            None => None,
        }
    }
}

/// Renders wide integers as JSON object keys.
pub struct JsonMapKey;

impl JsonMapKey {
    /// Renders a signed integer in decimal.
    pub fn signed_wide(value: i128) -> (key: String)
        ensures
            key@ == signed_decimal_chars(value as int),
    {
        signed_decimal_string(value)
    }

    /// Renders an unsigned integer in decimal.
    pub fn unsigned_wide(value: u128) -> (key: String)
        ensures
            key@ == decimal_chars(value as nat),
    {
        decimal_string(value)
    }
}

} // verus!
