//! Whether a fractional JSON number parses to a finite `f64`.
//!
//! A decimal number parses to infinity exactly when its magnitude reaches
//! `(2^54 - 1) * 2^970`, the midpoint between `f64::MAX` and `2^1024`:
//! round-half-to-even sends that midpoint up. The check below compares the
//! exact decimal value with that threshold, using integers only.

use vstd::arithmetic::div_mod::{lemma_div_denominator, lemma_fundamental_div_mod};
use vstd::prelude::*;

use super::json_grammar::Scan;
use super::json_number::{digits_end, digits_value, is_digit, lemma_digits_end, number_token_end};
use super::json_number_range::lemma_digits_value_monotonic;

verus! {

/// Ten to the power `k`.
pub open spec fn pow10(k: nat) -> nat
    decreases k,
{
    if k == 0 {
        1
    } else {
        10 * pow10((k - 1) as nat)
    }
}

/// The smallest magnitude that parsing rounds to an infinite `f64`:
/// `(2^54 - 1) * 2^970`.
pub open spec fn f64_overflow_threshold() -> nat {
    179769313486231580793728971405303415079934132710037826936173778980444968292764750946649017977587207096330286416692887910946555547851940402630657488671505820681908902000708383676273854845817711531764475730270069855571366959622842914819860834936475292719074168444365510704342711559699508093042880177904174497792nat
}

/// The threshold's 309 decimal digits in chunks: eight of 38 digits, then
/// one of 5 digits.
pub open spec fn threshold_chunk(k: int) -> nat {
    if k == 0 {
        17976931348623158079372897140530341507
    } else if k == 1 {
        99341327100378269361737789804449682927
    } else if k == 2 {
        64750946649017977587207096330286416692
    } else if k == 3 {
        88791094655554785194040263065748867150
    } else if k == 4 {
        58206819089020007083836762738548458177
    } else if k == 5 {
        11531764475730270069855571366959622842
    } else if k == 6 {
        91481986083493647529271907416844436551
    } else if k == 7 {
        7043427115596995080930428801779041744
    } else {
        97792
    }
}

/// The number of decimal digits in chunk `k`.
pub open spec fn chunk_width(k: int) -> nat {
    if k < 8 {
        38
    } else {
        5
    }
}

/// The `k`-digit ASCII decimal expansion of `c`, with leading zeros.
pub open spec fn decimal_digits(c: nat, k: nat) -> Seq<u8>
    decreases k,
{
    if k == 0 {
        Seq::empty()
    } else {
        decimal_digits(c / 10, (k - 1) as nat).push((0x30 + c % 10) as u8)
    }
}

/// The threshold's decimal digits, most significant first.
pub open spec fn threshold_digits() -> Seq<u8> {
    decimal_digits(threshold_chunk(0), 38) + decimal_digits(threshold_chunk(1), 38)
        + decimal_digits(threshold_chunk(2), 38) + decimal_digits(threshold_chunk(3), 38)
        + decimal_digits(threshold_chunk(4), 38) + decimal_digits(threshold_chunk(5), 38)
        + decimal_digits(threshold_chunk(6), 38) + decimal_digits(threshold_chunk(7), 38)
        + decimal_digits(threshold_chunk(8), 5)
}

/// The position after the optional minus sign of the number at `q`.
pub open spec fn sign_end(s: Seq<u8>, q: int) -> int {
    if 0 <= q < s.len() && s[q] == 0x2D {
        q + 1
    } else {
        q
    }
}

/// The positions of the fraction digits of the number at `q` (empty when
/// there is no fraction).
pub open spec fn fraction_span(s: Seq<u8>, q: int) -> (int, int) {
    let ie = digits_end(s, sign_end(s, q));
    if 0 <= ie < s.len() && s[ie] == 0x2E {
        (ie + 1, digits_end(s, ie + 1))
    } else {
        (ie, ie)
    }
}

/// Whether the exponent of the number at `q` is negative, and the positions
/// of its digits (empty when there is no exponent).
pub open spec fn exponent_span(s: Seq<u8>, q: int) -> (bool, int, int) {
    let fe = fraction_span(s, q).1;
    if 0 <= fe < s.len() && (s[fe] == 0x65 || s[fe] == 0x45) {
        let signed = fe + 1 < s.len() && (s[fe + 1] == 0x2B || s[fe + 1] == 0x2D);
        let d = if signed {
            fe + 2
        } else {
            fe + 1
        };
        (signed && s[fe + 1] == 0x2D, d, digits_end(s, d))
    } else {
        (false, fe, fe)
    }
}

/// The integer and fraction digits of the number at `q`.
pub open spec fn significand(s: Seq<u8>, q: int) -> Seq<u8> {
    let a = sign_end(s, q);
    s.subrange(a, digits_end(s, a)) + s.subrange(fraction_span(s, q).0, fraction_span(s, q).1)
}

/// The power of ten that scales the significand of the number at `q`.
pub open spec fn decimal_scale(s: Seq<u8>, q: int) -> int {
    let (negative, d, e) = exponent_span(s, q);
    let magnitude = digits_value(s.subrange(d, e)) as int;
    (if negative {
        -magnitude
    } else {
        magnitude
    }) - (fraction_span(s, q).1 - fraction_span(s, q).0)
}

/// The magnitude `m * 10^x` stays below the overflow threshold.
pub open spec fn below_threshold(m: nat, x: int) -> bool {
    if x >= 0 {
        m * pow10(x as nat) < f64_overflow_threshold()
    } else {
        m < f64_overflow_threshold() * pow10((-x) as nat)
    }
}

/// The number at `q` parses to a finite `f64`: its exact magnitude stays
/// below the overflow threshold.
pub open spec fn float_is_finite(s: Seq<u8>, q: int) -> bool {
    below_threshold(digits_value(significand(s, q)), decimal_scale(s, q))
}

/// The common length to which a significand of `n` digits and the
/// threshold's digits are padded for comparison.
pub open spec fn padded_length(n: int) -> int {
    if n > 309 {
        n
    } else {
        309
    }
}

/// Significant digits padded with zeros to the common length.
pub open spec fn padded_digits(digits: Seq<u8>) -> Seq<u8> {
    digits + zeros((padded_length(digits.len() as int) - digits.len()) as nat)
}

/// The threshold's digits padded with zeros to the common length.
pub open spec fn padded_threshold(n: int) -> Seq<u8> {
    threshold_digits() + zeros((padded_length(n) - 309) as nat)
}

/// Every byte is an ASCII digit.
pub open spec fn all_digits(ds: Seq<u8>) -> bool {
    forall|i: int| 0 <= i < ds.len() ==> is_digit(#[trigger] ds[i])
}

/// `k` ASCII zeros.
pub open spec fn zeros(k: nat) -> Seq<u8> {
    Seq::new(k, |i: int| 0x30u8)
}

/// Powers of ten are positive.
pub proof fn lemma_pow10_positive(k: nat)
    ensures
        pow10(k) >= 1,
    decreases k,
{
    if k > 0 {
        lemma_pow10_positive((k - 1) as nat);
    }
}

/// One more power of ten is ten times more.
pub proof fn lemma_pow10_succ(k: nat)
    ensures
        pow10(k + 1) == 10 * pow10(k),
{
}

/// Powers of ten add exponents.
pub proof fn lemma_pow10_add(a: nat, b: nat)
    ensures
        pow10(a + b) == pow10(a) * pow10(b),
    decreases a,
{
    if a > 0 {
        let k = (a - 1) as nat;
        lemma_pow10_add(k, b);
        lemma_pow10_succ(k + b);
        lemma_pow10_succ(k);
        assert(a + b == (k + b) + 1);
        assert(a == k + 1);
        let p = pow10(k);
        let q = pow10(b);
        assert(pow10(k + b) == p * q);
        assert(pow10((k + b) + 1) == 10 * (p * q));
        assert(pow10(a + b) == 10 * (p * q));
        assert(pow10(a) == 10 * p);
        let pa = pow10(a);
        assert(pa * q == 10 * (p * q)) by (nonlinear_arith)
            requires
                pa == 10 * p,
        ;
        assert(pow10(a + b) == pa * q);
    } else {
        assert(pow10(a) == 1);
        assert(a + b == b);
        assert(pow10(a + b) == pow10(b));
        assert(pow10(a) * pow10(b) == pow10(b));
    }
}

/// Powers of ten grow with the exponent.
pub proof fn lemma_pow10_monotone(a: nat, b: nat)
    requires
        a <= b,
    ensures
        pow10(a) <= pow10(b),
        a < b ==> pow10(a) < pow10(b),
{
    lemma_pow10_add(a, (b - a) as nat);
    lemma_pow10_positive(a);
    lemma_pow10_positive((b - a) as nat);
    let p = pow10(a);
    let q = pow10((b - a) as nat);
    assert(p <= p * q) by (nonlinear_arith)
        requires
            p >= 1,
            q >= 1,
    ;
    if a < b {
        assert(pow10((b - a) as nat) == 10 * pow10((b - a - 1) as nat));
        lemma_pow10_positive((b - a - 1) as nat);
        assert(p < p * q) by (nonlinear_arith)
            requires
                p >= 1,
                q >= 10,
        ;
    }
}

/// The value of a concatenation of digit strings.
pub proof fn lemma_digits_value_concat(a: Seq<u8>, b: Seq<u8>)
    ensures
        digits_value(a + b) == digits_value(a) * pow10(b.len()) + digits_value(b),
    decreases b.len(),
{
    if b.len() == 0 {
        assert(a + b =~= a);
        assert(pow10(0) == 1);
        assert(digits_value(b) == 0);
        let va = digits_value(a);
        let pb = pow10(b.len());
        assert(va * pb == va) by (nonlinear_arith)
            requires
                pb == 1,
        ;
    } else {
        let b1 = b.drop_last();
        lemma_digits_value_concat(a, b1);
        assert((a + b).drop_last() =~= a + b1);
        assert((a + b).last() == b.last());
        let va = digits_value(a);
        let p = pow10(b1.len());
        let v1 = digits_value(b1);
        let d = (b.last() - 0x30) as nat;
        lemma_pow10_succ(b1.len());
        assert(b.len() == b1.len() + 1);
        assert(pow10(b.len()) == 10 * p);
        assert(digits_value(a + b1) == va * p + v1);
        assert(digits_value(a + b) == digits_value(a + b1) * 10 + d);
        assert(digits_value(b) == v1 * 10 + d);
        let pb = pow10(b.len());
        assert((va * p + v1) * 10 + d == va * pb + (v1 * 10 + d)) by (nonlinear_arith)
            requires
                pb == 10 * p,
        ;
    }
}

/// A string of zeros has value zero.
pub proof fn lemma_zeros_value(k: nat)
    ensures
        digits_value(zeros(k)) == 0,
        zeros(k).len() == k,
    decreases k,
{
    if k > 0 {
        lemma_zeros_value((k - 1) as nat);
        assert(zeros(k).drop_last() =~= zeros((k - 1) as nat));
    }
}

/// A digit string is below ten to its length.
pub proof fn lemma_digits_value_upper(a: Seq<u8>)
    requires
        all_digits(a),
    ensures
        digits_value(a) < pow10(a.len()),
    decreases a.len(),
{
    if a.len() > 0 {
        let a1 = a.drop_last();
        lemma_digits_value_upper(a1);
        assert(is_digit(a[a.len() - 1]));
        let v = digits_value(a1);
        let p = pow10(a1.len());
        let d = (a.last() - 0x30) as nat;
        assert(v * 10 + d < 10 * p) by (nonlinear_arith)
            requires
                v < p,
                d <= 9,
        ;
    }
}

/// A digit string without a leading zero is at least ten to its length
/// less one.
pub proof fn lemma_digits_value_lower(a: Seq<u8>)
    requires
        all_digits(a),
        a.len() >= 1,
        a[0] != 0x30,
    ensures
        digits_value(a) >= pow10((a.len() - 1) as nat),
{
    let head = a.subrange(0, 1);
    let rest = a.subrange(1, a.len() as int);
    assert(a =~= head + rest);
    lemma_digits_value_concat(head, rest);
    assert(head.drop_last() =~= Seq::<u8>::empty());
    assert(digits_value(head.drop_last()) == 0);
    assert(head.last() == a[0]);
    assert(is_digit(a[0]));
    assert(digits_value(head) == (a[0] - 0x30) as nat);
    lemma_pow10_positive(rest.len());
    let h = digits_value(head);
    let p = pow10(rest.len());
    assert(h * p >= p) by (nonlinear_arith)
        requires
            h >= 1,
    ;
}

/// Of two digit strings of one length, the one that is smaller at the first
/// place where they differ has the smaller value.
pub proof fn lemma_digits_value_lex(a: Seq<u8>, b: Seq<u8>, i: int)
    requires
        a.len() == b.len(),
        all_digits(a),
        all_digits(b),
        0 <= i < a.len(),
        forall|j: int| 0 <= j < i ==> a[j] == b[j],
        a[i] < b[i],
    ensures
        digits_value(a) < digits_value(b),
{
    let n = a.len() as int;
    let ha = a.subrange(0, i + 1);
    let hb = b.subrange(0, i + 1);
    let ta = a.subrange(i + 1, n);
    let tb = b.subrange(i + 1, n);
    assert(a =~= ha + ta);
    assert(b =~= hb + tb);
    lemma_digits_value_concat(ha, ta);
    lemma_digits_value_concat(hb, tb);
    assert(ha.drop_last() =~= hb.drop_last());
    assert(all_digits(ta));
    lemma_digits_value_upper(ta);
    let p = pow10(ta.len());
    let va = digits_value(ha);
    let vb = digits_value(hb);
    assert(va + 1 <= vb);
    let ra = digits_value(ta);
    let rb = digits_value(tb);
    assert(va * p + ra < vb * p + rb) by (nonlinear_arith)
        requires
            va + 1 <= vb,
            ra < p,
            rb >= 0,
    ;
}

/// The decimal expansion of a number below ten to `k` spells it.
pub proof fn lemma_decimal_digits(c: nat, k: nat)
    requires
        c < pow10(k),
    ensures
        decimal_digits(c, k).len() == k,
        all_digits(decimal_digits(c, k)),
        digits_value(decimal_digits(c, k)) == c,
        forall|i: int|
            0 <= i < k ==> #[trigger] decimal_digits(c, k)[i] == (0x30 + (c / pow10(
                (k - 1 - i) as nat,
            )) % 10) as u8,
    decreases k,
{
    if k == 0 {
        assert(c == 0);
    } else {
        let c1 = c / 10;
        assert(pow10(k) == 10 * pow10((k - 1) as nat));
        assert(c1 < pow10((k - 1) as nat)) by (nonlinear_arith)
            requires
                c < 10 * pow10((k - 1) as nat),
                c1 == c / 10,
        ;
        lemma_decimal_digits(c1, (k - 1) as nat);
        let ds = decimal_digits(c, k);
        assert(ds.drop_last() =~= decimal_digits(c1, (k - 1) as nat));
        assert(c == c1 * 10 + c % 10) by (nonlinear_arith)
            requires
                c1 == c / 10,
        ;
        assert forall|i: int| 0 <= i < k implies #[trigger] ds[i] == (0x30 + (c / pow10(
            (k - 1 - i) as nat,
        )) % 10) as u8 by {
            if i < k - 1 {
                let e = (k - 2 - i) as nat;
                assert(ds[i] == decimal_digits(c1, (k - 1) as nat)[i]);
                assert(decimal_digits(c1, (k - 1) as nat)[i] == (0x30 + (c1 / pow10(e)) % 10) as u8);
                lemma_pow10_positive(e);
                let pe = pow10(e);
                lemma_div_denominator(c as int, 10, pe as int);
                lemma_pow10_succ(e);
                assert((k - 1 - i) as nat == e + 1);
                let d = pow10((k - 1 - i) as nat);
                assert(d == 10 * pe);
                assert(c / d == (c / 10) / pe) by (nonlinear_arith)
                    requires
                        d == 10 * pe,
                        (c / 10) / pe == c / (10 * pe),
                ;
            } else {
                assert(pow10(0) == 1);
                assert(ds[i] == (0x30 + c % 10) as u8);
                let d = pow10((k - 1 - i) as nat);
                assert(c / d == c) by (nonlinear_arith)
                    requires
                        d == 1,
                ;
            }
        }
    }
}

/// Ten to the 37th, 38th and 5th.
pub proof fn lemma_chunk_powers()
    ensures
        pow10(37) == 10000000000000000000000000000000000000,
        pow10(38) == 100000000000000000000000000000000000000,
        pow10(5) == 100000,
{
    reveal_with_fuel(pow10, 39);
}

/// Concatenated digit strings are digit strings.
pub proof fn lemma_all_digits_concat(a: Seq<u8>, b: Seq<u8>)
    requires
        all_digits(a),
        all_digits(b),
    ensures
        all_digits(a + b),
{
    assert forall|i: int| 0 <= i < (a + b).len() implies is_digit(#[trigger] (a + b)[i]) by {
        if i >= a.len() {
            assert((a + b)[i] == b[i - a.len()]);
        }
    }
}

/// The threshold's digits spell the threshold.
pub proof fn lemma_threshold_digits()
    ensures
        threshold_digits().len() == 309,
        all_digits(threshold_digits()),
        digits_value(threshold_digits()) == f64_overflow_threshold(),
        threshold_digits()[0] == 0x31,
{
    lemma_chunk_powers();
    let e0 = decimal_digits(threshold_chunk(0), 38);
    let e1 = decimal_digits(threshold_chunk(1), 38);
    let e2 = decimal_digits(threshold_chunk(2), 38);
    let e3 = decimal_digits(threshold_chunk(3), 38);
    let e4 = decimal_digits(threshold_chunk(4), 38);
    let e5 = decimal_digits(threshold_chunk(5), 38);
    let e6 = decimal_digits(threshold_chunk(6), 38);
    let e7 = decimal_digits(threshold_chunk(7), 38);
    let e8 = decimal_digits(threshold_chunk(8), 5);
    lemma_decimal_digits(threshold_chunk(0), 38);
    lemma_decimal_digits(threshold_chunk(1), 38);
    lemma_decimal_digits(threshold_chunk(2), 38);
    lemma_decimal_digits(threshold_chunk(3), 38);
    lemma_decimal_digits(threshold_chunk(4), 38);
    lemma_decimal_digits(threshold_chunk(5), 38);
    lemma_decimal_digits(threshold_chunk(6), 38);
    lemma_decimal_digits(threshold_chunk(7), 38);
    lemma_decimal_digits(threshold_chunk(8), 5);
    let p2 = e0 + e1;
    let p3 = p2 + e2;
    let p4 = p3 + e3;
    let p5 = p4 + e4;
    let p6 = p5 + e5;
    let p7 = p6 + e6;
    let p8 = p7 + e7;
    let p9 = p8 + e8;
    lemma_digits_value_concat(e0, e1);
    lemma_digits_value_concat(p2, e2);
    lemma_digits_value_concat(p3, e3);
    lemma_digits_value_concat(p4, e4);
    lemma_digits_value_concat(p5, e5);
    lemma_digits_value_concat(p6, e6);
    lemma_digits_value_concat(p7, e7);
    lemma_digits_value_concat(p8, e8);
    lemma_all_digits_concat(e0, e1);
    lemma_all_digits_concat(p2, e2);
    lemma_all_digits_concat(p3, e3);
    lemma_all_digits_concat(p4, e4);
    lemma_all_digits_concat(p5, e5);
    lemma_all_digits_concat(p6, e6);
    lemma_all_digits_concat(p7, e7);
    lemma_all_digits_concat(p8, e8);
    assert(digits_value(e0) == threshold_chunk(0));
    assert(digits_value(p2) == 1797693134862315807937289714053034150799341327100378269361737789804449682927) by (nonlinear_arith)
        requires
            digits_value(p2) == digits_value(e0) * pow10(38) + digits_value(e1),
            digits_value(e0) == 17976931348623158079372897140530341507,
            pow10(38) == 100000000000000000000000000000000000000,
            digits_value(e1) == 99341327100378269361737789804449682927,
    ;
    assert(digits_value(p3) == 179769313486231580793728971405303415079934132710037826936173778980444968292764750946649017977587207096330286416692) by (nonlinear_arith)
        requires
            digits_value(p3) == digits_value(p2) * pow10(38) + digits_value(e2),
            digits_value(p2) == 1797693134862315807937289714053034150799341327100378269361737789804449682927,
            pow10(38) == 100000000000000000000000000000000000000,
            digits_value(e2) == 64750946649017977587207096330286416692,
    ;
    assert(digits_value(p4) == 17976931348623158079372897140530341507993413271003782693617377898044496829276475094664901797758720709633028641669288791094655554785194040263065748867150) by (nonlinear_arith)
        requires
            digits_value(p4) == digits_value(p3) * pow10(38) + digits_value(e3),
            digits_value(p3) == 179769313486231580793728971405303415079934132710037826936173778980444968292764750946649017977587207096330286416692,
            pow10(38) == 100000000000000000000000000000000000000,
            digits_value(e3) == 88791094655554785194040263065748867150,
    ;
    assert(digits_value(p5) == 1797693134862315807937289714053034150799341327100378269361737789804449682927647509466490179775872070963302864166928879109465555478519404026306574886715058206819089020007083836762738548458177) by (nonlinear_arith)
        requires
            digits_value(p5) == digits_value(p4) * pow10(38) + digits_value(e4),
            digits_value(p4) == 17976931348623158079372897140530341507993413271003782693617377898044496829276475094664901797758720709633028641669288791094655554785194040263065748867150,
            pow10(38) == 100000000000000000000000000000000000000,
            digits_value(e4) == 58206819089020007083836762738548458177,
    ;
    assert(digits_value(p6) == 179769313486231580793728971405303415079934132710037826936173778980444968292764750946649017977587207096330286416692887910946555547851940402630657488671505820681908902000708383676273854845817711531764475730270069855571366959622842) by (nonlinear_arith)
        requires
            digits_value(p6) == digits_value(p5) * pow10(38) + digits_value(e5),
            digits_value(p5) == 1797693134862315807937289714053034150799341327100378269361737789804449682927647509466490179775872070963302864166928879109465555478519404026306574886715058206819089020007083836762738548458177,
            pow10(38) == 100000000000000000000000000000000000000,
            digits_value(e5) == 11531764475730270069855571366959622842,
    ;
    assert(digits_value(p7) == 17976931348623158079372897140530341507993413271003782693617377898044496829276475094664901797758720709633028641669288791094655554785194040263065748867150582068190890200070838367627385484581771153176447573027006985557136695962284291481986083493647529271907416844436551) by (nonlinear_arith)
        requires
            digits_value(p7) == digits_value(p6) * pow10(38) + digits_value(e6),
            digits_value(p6) == 179769313486231580793728971405303415079934132710037826936173778980444968292764750946649017977587207096330286416692887910946555547851940402630657488671505820681908902000708383676273854845817711531764475730270069855571366959622842,
            pow10(38) == 100000000000000000000000000000000000000,
            digits_value(e6) == 91481986083493647529271907416844436551,
    ;
    assert(digits_value(p8) == 1797693134862315807937289714053034150799341327100378269361737789804449682927647509466490179775872070963302864166928879109465555478519404026306574886715058206819089020007083836762738548458177115317644757302700698555713669596228429148198608349364752927190741684443655107043427115596995080930428801779041744) by (nonlinear_arith)
        requires
            digits_value(p8) == digits_value(p7) * pow10(38) + digits_value(e7),
            digits_value(p7) == 17976931348623158079372897140530341507993413271003782693617377898044496829276475094664901797758720709633028641669288791094655554785194040263065748867150582068190890200070838367627385484581771153176447573027006985557136695962284291481986083493647529271907416844436551,
            pow10(38) == 100000000000000000000000000000000000000,
            digits_value(e7) == 7043427115596995080930428801779041744,
    ;
    assert(digits_value(p9) == 179769313486231580793728971405303415079934132710037826936173778980444968292764750946649017977587207096330286416692887910946555547851940402630657488671505820681908902000708383676273854845817711531764475730270069855571366959622842914819860834936475292719074168444365510704342711559699508093042880177904174497792) by (nonlinear_arith)
        requires
            digits_value(p9) == digits_value(p8) * pow10(5) + digits_value(e8),
            digits_value(p8) == 1797693134862315807937289714053034150799341327100378269361737789804449682927647509466490179775872070963302864166928879109465555478519404026306574886715058206819089020007083836762738548458177115317644757302700698555713669596228429148198608349364752927190741684443655107043427115596995080930428801779041744,
            pow10(5) == 100000,
            digits_value(e8) == 97792,
    ;
    assert(p9 == threshold_digits());
    assert((threshold_chunk(0) / pow10(37)) % 10 == 1) by (nonlinear_arith)
        requires
            pow10(37) == 10000000000000000000000000000000000000,
            threshold_chunk(0) == 17976931348623158079372897140530341507,
    ;
    assert(e0[0] == 0x31);
    assert(p9[0] == e0[0]);
}

/// The digit at index `i` of the threshold's chunk `k`, for the exponent
/// arithmetic of the lookup below.
pub proof fn lemma_threshold_index(i: int)
    requires
        0 <= i < 309,
    ensures
        threshold_digits()[i] == decimal_digits(
            threshold_chunk(i / 38),
            chunk_width(i / 38),
        )[i % 38],
        threshold_chunk(i / 38) < pow10(chunk_width(i / 38)),
        i % 38 < chunk_width(i / 38),
{
    lemma_chunk_powers();
    let k = i / 38;
    let j = i % 38;
    assert(0 <= k <= 8);
    assert(i == 38 * k + j);
    let e0 = decimal_digits(threshold_chunk(0), 38);
    let e1 = decimal_digits(threshold_chunk(1), 38);
    let e2 = decimal_digits(threshold_chunk(2), 38);
    let e3 = decimal_digits(threshold_chunk(3), 38);
    let e4 = decimal_digits(threshold_chunk(4), 38);
    let e5 = decimal_digits(threshold_chunk(5), 38);
    let e6 = decimal_digits(threshold_chunk(6), 38);
    let e7 = decimal_digits(threshold_chunk(7), 38);
    let e8 = decimal_digits(threshold_chunk(8), 5);
    lemma_decimal_digits(threshold_chunk(0), 38);
    lemma_decimal_digits(threshold_chunk(1), 38);
    lemma_decimal_digits(threshold_chunk(2), 38);
    lemma_decimal_digits(threshold_chunk(3), 38);
    lemma_decimal_digits(threshold_chunk(4), 38);
    lemma_decimal_digits(threshold_chunk(5), 38);
    lemma_decimal_digits(threshold_chunk(6), 38);
    lemma_decimal_digits(threshold_chunk(7), 38);
    lemma_decimal_digits(threshold_chunk(8), 5);
    let p2 = e0 + e1;
    let p3 = p2 + e2;
    let p4 = p3 + e3;
    let p5 = p4 + e4;
    let p6 = p5 + e5;
    let p7 = p6 + e6;
    let p8 = p7 + e7;
    let p9 = p8 + e8;
    assert(p9 == threshold_digits());
    if k == 8 {
        assert(p9[i] == e8[j]);
    } else {
        assert(p9[i] == p8[i]);
        if k == 7 {
            assert(p8[i] == e7[j]);
        } else {
            assert(p8[i] == p7[i]);
            if k == 6 {
                assert(p7[i] == e6[j]);
            } else {
                assert(p7[i] == p6[i]);
                if k == 5 {
                    assert(p6[i] == e5[j]);
                } else {
                    assert(p6[i] == p5[i]);
                    if k == 4 {
                        assert(p5[i] == e4[j]);
                    } else {
                        assert(p5[i] == p4[i]);
                        if k == 3 {
                            assert(p4[i] == e3[j]);
                        } else {
                            assert(p4[i] == p3[i]);
                            if k == 2 {
                                assert(p3[i] == e2[j]);
                            } else {
                                assert(p3[i] == p2[i]);
                            }
                        }
                    }
                }
            }
        }
    }
}

/// Returns ten to the power `k`.
fn pow10_u128(k: usize) -> (p: u128)
    requires
        k <= 38,
    ensures
        p == pow10(k as nat),
        p >= 1,
{
    proof {
        lemma_pow10_positive(k as nat);
        lemma_chunk_powers();
        lemma_pow10_monotone(k as nat, 38);
    }
    let mut p: u128 = 1;
    let mut i: usize = 0;
    while i < k
        invariant
            i <= k <= 38,
            p == pow10(i as nat),
            pow10(k as nat) <= 100000000000000000000000000000000000000,
        decreases k - i,
    {
        proof {
            lemma_pow10_monotone((i + 1) as nat, k as nat);
        }
        p = p * 10;
        i = i + 1;
    }
    p
}

/// Returns the ASCII digit at index `i` of the threshold.
fn threshold_digit(i: usize) -> (digit: u8)
    requires
        i < 309,
    ensures
        digit == threshold_digits()[i as int],
{
    proof {
        lemma_threshold_index(i as int);
    }
    let k = i / 38;
    let j = i % 38;
    let chunk: u128 = if k == 0 {
        17976931348623158079372897140530341507
    } else if k == 1 {
        99341327100378269361737789804449682927
    } else if k == 2 {
        64750946649017977587207096330286416692
    } else if k == 3 {
        88791094655554785194040263065748867150
    } else if k == 4 {
        58206819089020007083836762738548458177
    } else if k == 5 {
        11531764475730270069855571366959622842
    } else if k == 6 {
        91481986083493647529271907416844436551
    } else if k == 7 {
        7043427115596995080930428801779041744
    } else {
        97792
    };
    let width: usize = if k < 8 {
        38
    } else {
        5
    };
    let scale = pow10_u128(width - 1 - j);
    proof {
        lemma_decimal_digits(threshold_chunk(k as int), chunk_width(k as int));
    }
    0x30 + ((chunk / scale) % 10) as u8
}

/// Returns the end of the run of digits at `p`.
fn digits_run_end(input: &[u8], p: usize) -> (end: usize)
    requires
        p <= input@.len(),
    ensures
        end == digits_end(input@, p as int),
{
    proof {
        lemma_digits_end(input@, p as int);
    }
    let mut i = p;
    while i < input.len() && 0x30 <= input[i] && input[i] <= 0x39
        invariant
            p <= i <= input@.len(),
            digits_end(input@, i as int) == digits_end(input@, p as int),
        decreases input@.len() - i,
    {
        i = i + 1;
    }
    i
}

/// Returns the value of the digits `input[from..to]`, or `cap` when that
/// value reaches `cap`.
fn saturating_digits_value(input: &[u8], from: usize, to: usize, cap: u128) -> (value: u128)
    requires
        from <= to <= input@.len(),
        0 < cap <= 0x1_0000_0000_0000_0000_0000,
        all_digits(input@.subrange(from as int, to as int)),
    ensures
        value == if digits_value(input@.subrange(from as int, to as int)) < cap {
            digits_value(input@.subrange(from as int, to as int))
        } else {
            cap as nat
        },
{
    let ghost s = input@;
    let mut value: u128 = 0;
    let mut i = from;
    assert(s.subrange(from as int, from as int) =~= Seq::<u8>::empty());
    while i < to
        invariant
            from <= i <= to <= s.len(),
            s == input@,
            cap <= 0x1_0000_0000_0000_0000_0000,
            all_digits(s.subrange(from as int, to as int)),
            value == digits_value(s.subrange(from as int, i as int)),
            value < cap,
        decreases to - i,
    {
        assert(s.subrange(from as int, to as int)[i - from] == s[i as int]);
        let digit = input[i] - 0x30;
        assert(s.subrange(from as int, i + 1).drop_last() =~= s.subrange(from as int, i as int));
        let next = value * 10 + digit as u128;
        if next >= cap {
            proof {
                lemma_digits_value_monotonic(s, from as int, i + 1, to as int);
            }
            return cap;
        }
        value = next;
        i = i + 1;
    }
    value
}

/// The threshold lies between ten to the 308th and ten to the 309th.
pub proof fn lemma_threshold_bounds()
    ensures
        pow10(308) <= f64_overflow_threshold() < pow10(309),
{
    lemma_threshold_digits();
    lemma_digits_value_lower(threshold_digits());
    lemma_digits_value_upper(threshold_digits());
}

/// Padding with zeros scales by a power of ten.
pub proof fn lemma_zero_padding(a: Seq<u8>, k: nat)
    ensures
        digits_value(a + zeros(k)) == digits_value(a) * pow10(k),
        (a + zeros(k)).len() == a.len() + k,
{
    lemma_digits_value_concat(a, zeros(k));
    lemma_zeros_value(k);
}

/// A magnitude whose leading digit sits at or above the 309th decimal
/// place reaches the threshold.
pub proof fn lemma_large_magnitude(m: nat, n: nat, x: int)
    requires
        n >= 1,
        m >= pow10((n - 1) as nat),
        n - 1 + x >= 309,
    ensures
        !below_threshold(m, x),
{
    lemma_threshold_bounds();
    let t = f64_overflow_threshold();
    if x >= 0 {
        lemma_pow10_add((n - 1) as nat, x as nat);
        lemma_pow10_monotone(309, (n - 1 + x) as nat);
        let px = pow10(x as nat);
        let pn = pow10((n - 1) as nat);
        lemma_pow10_positive(x as nat);
        assert(m * px >= pn * px) by (nonlinear_arith)
            requires
                m >= pn,
                px >= 1,
        ;
    } else {
        let y = (-x) as nat;
        lemma_pow10_add(309, y);
        lemma_pow10_monotone(309 + y, (n - 1) as nat);
        lemma_pow10_positive(y);
        let py = pow10(y);
        let p309 = pow10(309);
        assert(t * py < p309 * py) by (nonlinear_arith)
            requires
                t < p309,
                py >= 1,
        ;
    }
}

/// A magnitude below the 309th decimal place stays below the threshold.
pub proof fn lemma_small_magnitude(m: nat, n: nat, x: int)
    requires
        m < pow10(n),
        n + x <= 308,
    ensures
        below_threshold(m, x),
{
    lemma_threshold_bounds();
    let t = f64_overflow_threshold();
    if x >= 0 {
        lemma_pow10_add(n, x as nat);
        lemma_pow10_monotone((n + x) as nat, 308);
        let px = pow10(x as nat);
        let pn = pow10(n);
        lemma_pow10_positive(x as nat);
        assert(m * px < pn * px) by (nonlinear_arith)
            requires
                m < pn,
                px >= 1,
        ;
    } else {
        let y = (-x) as nat;
        lemma_pow10_positive(y);
        let py = pow10(y);
        if n <= y {
            lemma_pow10_monotone(n, y);
            assert(py <= t * py) by (nonlinear_arith)
                requires
                    t >= 1,
                    py >= 1,
            ;
        } else {
            lemma_pow10_add((n - y) as nat, y);
            lemma_pow10_monotone((n - y) as nat, 308);
            let pr = pow10((n - y) as nat);
            assert(pr * py <= t * py) by (nonlinear_arith)
                requires
                    pr <= t,
                    py >= 1,
            ;
        }
    }
}

/// The significand digit at index `k`: integer digits, then fraction
/// digits.
fn significand_digit(input: &[u8], a: usize, ie: usize, fs: usize, fe: usize, k: usize) -> (digit: u8)
    requires
        a <= ie <= input@.len(),
        fs <= fe <= input@.len(),
        k < (ie - a) + (fe - fs),
    ensures
        digit == (input@.subrange(a as int, ie as int) + input@.subrange(fs as int, fe as int))[k as int],
{
    if k < ie - a {
        input[a + k]
    } else {
        input[fs + (k - (ie - a))]
    }
}

/// A significand of zeros stays below the threshold whatever its scale.
pub proof fn lemma_zero_significand(sig: Seq<u8>, x: int)
    requires
        forall|j: int| 0 <= j < sig.len() ==> sig[j] == 0x30,
    ensures
        below_threshold(digits_value(sig), x),
{
    assert(sig =~= zeros(sig.len()));
    lemma_zeros_value(sig.len());
    lemma_threshold_bounds();
    lemma_pow10_positive(0);
    if x < 0 {
        lemma_pow10_positive((-x) as nat);
        let t = f64_overflow_threshold();
        let py = pow10((-x) as nat);
        assert(t * py >= 1) by (nonlinear_arith)
            requires
                t >= 1,
                py >= 1,
        ;
    }
}

/// Leading zeros do not change the value of a digit string.
pub proof fn lemma_leading_zeros(sig: Seq<u8>, z: int)
    requires
        0 <= z <= sig.len(),
        forall|j: int| 0 <= j < z ==> sig[j] == 0x30,
    ensures
        digits_value(sig) == digits_value(sig.subrange(z, sig.len() as int)),
{
    let head = sig.subrange(0, z);
    let tail = sig.subrange(z, sig.len() as int);
    assert(sig =~= head + tail);
    assert(head =~= zeros(z as nat));
    lemma_digits_value_concat(head, tail);
    lemma_zeros_value(z as nat);
}

/// With its leading digit on the 309th decimal place, a magnitude is below
/// the threshold exactly when its digits, padded to a common length, are
/// below the threshold's digits padded alike.
pub proof fn lemma_tie(digits: Seq<u8>, x: int)
    requires
        digits.len() >= 1,
        digits.len() - 1 + x == 308,
    ensures
        below_threshold(digits_value(digits), x) == (digits_value(padded_digits(digits))
            < digits_value(padded_threshold(digits.len() as int))),
{
    let n = digits.len() as int;
    let l = if n > 309 {
        n
    } else {
        309
    };
    lemma_threshold_digits();
    lemma_zero_padding(digits, (l - n) as nat);
    lemma_zero_padding(threshold_digits(), (l - 309) as nat);
    let m = digits_value(digits);
    let t = f64_overflow_threshold();
    assert(pow10(0) == 1);
    if n <= 309 {
        assert(m * pow10(0) == m);
        assert(t * pow10(0) == t);
    } else {
        assert(m * pow10(0) == m);
    }
}

/// The positions that make up the number token at `start`: the end of its
/// sign and of its integer digits, the span of its fraction digits, and the
/// sign and span of its exponent digits.
fn number_layout(input: &[u8], start: usize, end: usize) -> (layout: (
    usize,
    usize,
    usize,
    usize,
    bool,
    usize,
    usize,
))
    requires
        number_token_end(input@, start as int) == Scan::Ok(end as int),
        start < end <= input@.len() < usize::MAX,
    ensures
        layout.0 == sign_end(input@, start as int),
        layout.1 == digits_end(input@, layout.0 as int),
        (layout.2 as int, layout.3 as int) == fraction_span(input@, start as int),
        (layout.4, layout.5 as int, layout.6 as int) == exponent_span(input@, start as int),
        layout.0 <= layout.1 <= layout.2 <= layout.3 <= input@.len(),
        layout.5 <= layout.6 <= input@.len(),
        significand(input@, start as int) == input@.subrange(layout.0 as int, layout.1 as int)
            + input@.subrange(layout.2 as int, layout.3 as int),
        all_digits(significand(input@, start as int)),
        all_digits(input@.subrange(layout.5 as int, layout.6 as int)),
{
    let ghost s = input@;
    let a = if input[start] == 0x2D {
        start + 1
    } else {
        start
    };
    proof {
        lemma_digits_end(s, a as int);
    }
    let ie = digits_run_end(input, a);
    let has_fraction = ie < input.len() && input[ie] == 0x2E;
    let fs = if has_fraction {
        ie + 1
    } else {
        ie
    };
    proof {
        lemma_digits_end(s, fs as int);
    }
    let fe = if has_fraction {
        digits_run_end(input, fs)
    } else {
        ie
    };
    let has_exponent = fe < input.len() && (input[fe] == 0x65 || input[fe] == 0x45);
    let signed = has_exponent && fe + 1 < input.len() && (input[fe + 1] == 0x2B || input[fe + 1]
        == 0x2D);
    let negative = signed && input[fe + 1] == 0x2D;
    let ds = if !has_exponent {
        fe
    } else if signed {
        fe + 2
    } else {
        fe + 1
    };
    proof {
        lemma_digits_end(s, ds as int);
    }
    let de = if has_exponent {
        digits_run_end(input, ds)
    } else {
        fe
    };
    let ghost sig = s.subrange(a as int, ie as int) + s.subrange(fs as int, fe as int);
    assert forall|i: int| 0 <= i < sig.len() implies is_digit(#[trigger] sig[i]) by {
        if i < ie - a {
            assert(sig[i] == s[a + i]);
        } else {
            assert(sig[i] == s[fs + i - (ie - a)]);
        }
    }
    assert forall|i: int| 0 <= i < de - ds implies is_digit(
        #[trigger] s.subrange(ds as int, de as int)[i],
    ) by {
        assert(s.subrange(ds as int, de as int)[i] == s[ds + i]);
    }
    (a, ie, fs, fe, negative, ds, de)
}

/// The number of leading zeros of the significand.
fn leading_zeros(input: &[u8], a: usize, ie: usize, fs: usize, fe: usize) -> (z: usize)
    requires
        a <= ie <= fs <= fe <= input@.len(),
    ensures
        ({
            let sig = input@.subrange(a as int, ie as int) + input@.subrange(fs as int, fe as int);
            &&& z <= sig.len()
            &&& forall|j: int| 0 <= j < z ==> sig[j] == 0x30
            &&& z < sig.len() ==> sig[z as int] != 0x30
        }),
{
    let ghost sig = input@.subrange(a as int, ie as int) + input@.subrange(fs as int, fe as int);
    let dlen = (ie - a) + (fe - fs);
    let mut z: usize = 0;
    while z < dlen && significand_digit(input, a, ie, fs, fe, z) == 0x30
        invariant
            z <= dlen,
            dlen == sig.len(),
            a <= ie <= input@.len(),
            fs <= fe <= input@.len(),
            dlen == (ie - a) + (fe - fs),
            sig == input@.subrange(a as int, ie as int) + input@.subrange(fs as int, fe as int),
            forall|j: int| 0 <= j < z ==> sig[j] == 0x30,
        decreases dlen - z,
    {
        z = z + 1;
    }
    z
}

/// Compares the significant digits `sig[z..]` with the threshold's digits,
/// both padded with zeros to a common length.
fn digits_below_threshold(input: &[u8], a: usize, ie: usize, fs: usize, fe: usize, z: usize) -> (below: bool)
    requires
        a <= ie <= fs <= fe <= input@.len(),
        z < (ie - a) + (fe - fs),
        all_digits(input@.subrange(a as int, ie as int) + input@.subrange(fs as int, fe as int)),
    ensures
        ({
            let sig = input@.subrange(a as int, ie as int) + input@.subrange(fs as int, fe as int);
            let digits = sig.subrange(z as int, sig.len() as int);
            below == (digits_value(padded_digits(digits)) < digits_value(
                padded_threshold(digits.len() as int),
            ))
        }),
{
    let ghost sig = input@.subrange(a as int, ie as int) + input@.subrange(fs as int, fe as int);
    let dlen = (ie - a) + (fe - fs);
    let n = dlen - z;
    let ghost digits = sig.subrange(z as int, dlen as int);
    let l = if n > 309 {
        n
    } else {
        309
    };
    let ghost lhs = digits + zeros((l - n) as nat);
    let ghost rhs = threshold_digits() + zeros((l - 309) as nat);
    assert(lhs == padded_digits(digits));
    assert(rhs == padded_threshold(n as int));
    proof {
        lemma_threshold_digits();
        lemma_zeros_value((l - n) as nat);
        lemma_zeros_value((l - 309) as nat);
        assert(all_digits(digits));
        assert(all_digits(zeros((l - n) as nat)));
        assert(all_digits(zeros((l - 309) as nat)));
        lemma_all_digits_concat(digits, zeros((l - n) as nat));
        lemma_all_digits_concat(threshold_digits(), zeros((l - 309) as nat));
    }
    let mut i: usize = 0;
    while i < l
        invariant
            i <= l,
            n == digits.len(),
            lhs.len() == l,
            rhs.len() == l,
            n <= l,
            309 <= l,
            z + n == dlen,
            dlen == sig.len(),
            dlen == (ie - a) + (fe - fs),
            a <= ie <= input@.len(),
            fs <= fe <= input@.len(),
            sig == input@.subrange(a as int, ie as int) + input@.subrange(fs as int, fe as int),
            digits == sig.subrange(z as int, dlen as int),
            lhs == digits + zeros((l - n) as nat),
            rhs == threshold_digits() + zeros((l - 309) as nat),
            lhs == padded_digits(digits),
            rhs == padded_threshold(n as int),
            threshold_digits().len() == 309,
            all_digits(lhs),
            all_digits(rhs),
            forall|j: int| 0 <= j < i ==> lhs[j] == rhs[j],
        decreases l - i,
    {
        let left = if i < n {
            significand_digit(input, a, ie, fs, fe, z + i)
        } else {
            0x30
        };
        let right = if i < 309 {
            threshold_digit(i)
        } else {
            0x30
        };
        assert(left == lhs[i as int]);
        assert(right == rhs[i as int]);
        if left < right {
            proof {
                lemma_digits_value_lex(lhs, rhs, i as int);
            }
            return true;
        }
        if left > right {
            proof {
                lemma_digits_value_lex(rhs, lhs, i as int);
            }
            return false;
        }
        i = i + 1;
    }
    assert(lhs =~= rhs);
    false
}

/// Tests whether the fractional number token at `start` parses to a
/// finite `f64`.
pub fn float_token_within_f64(input: &[u8], start: usize, end: usize) -> (finite: bool)
    requires
        number_token_end(input@, start as int) == Scan::Ok(end as int),
        start < end <= input@.len() < usize::MAX,
    ensures
        finite == float_is_finite(input@, start as int),
{
    let ghost s = input@;
    let (a, ie, fs, fe, negative, ds, de) = number_layout(input, start, end);
    let ghost sig = significand(s, start as int);
    let ghost x = decimal_scale(s, start as int);
    let z = leading_zeros(input, a, ie, fs, fe);
    let dlen = (ie - a) + (fe - fs);
    if z == dlen {
        proof {
            lemma_zero_significand(sig, x);
        }
        return true;
    }
    let n = dlen - z;
    let ghost digits = sig.subrange(z as int, dlen as int);
    let ghost m = digits_value(sig);
    proof {
        lemma_leading_zeros(sig, z as int);
        assert(all_digits(digits));
        lemma_digits_value_lower(digits);
        lemma_digits_value_upper(digits);
    }
    let cap: u128 = 0x40_0000_0000_0000_0000;
    let magnitude = saturating_digits_value(input, ds, de, cap);
    if magnitude == cap {
        proof {
            if negative {
                lemma_small_magnitude(m, n as nat, x);
            } else {
                lemma_large_magnitude(m, n as nat, x);
            }
        }
        return negative;
    }
    let f = fe - fs;
    let signed_magnitude: i128 = if negative {
        0 - (magnitude as i128)
    } else {
        magnitude as i128
    };
    let scale: i128 = signed_magnitude - (f as i128);
    assert(scale == x);
    let decade: i128 = (n as i128) - 1 + scale;
    if decade >= 309 {
        proof {
            lemma_large_magnitude(m, n as nat, x);
        }
        return false;
    }
    if decade <= 307 {
        proof {
            lemma_small_magnitude(m, n as nat, x);
        }
        return true;
    }
    proof {
        lemma_tie(digits, x);
    }
    digits_below_threshold(input, a, ie, fs, fe, z)
}
} // verus!

