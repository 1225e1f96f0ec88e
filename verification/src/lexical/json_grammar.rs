//! The JSON text grammar as accepted by the lexical scanner, with the place
//! and reason of the first rejection.
//!
//! Every function below takes the input bytes and a position, and says where
//! the construct starting there ends (`Ok`) or where and why the input is
//! first rejected (`Err`).

use vstd::prelude::*;

use super::json_lexical_error_reason::JsonLexicalErrorReason;
use super::json_number::{lemma_number_at_advances, number_at};
use super::source_coordinates::{lead_width, scalar_at};

verus! {

/// Where a construct ends, or where and why it is rejected.
pub type Scan = Result<int, (int, JsonLexicalErrorReason)>;

/// A continuation for one JSON container being scanned.
#[derive(Clone, Copy, Debug, PartialEq, Eq, Structural)]
pub enum JsonLexicalContainerFrame {
    /// An array ready for its first or next value.
    ArrayValue {
        /// Root-inclusive depth of the array.
        depth: usize,
        /// Items already admitted in this array.
        items: usize,
    },
    /// An array waiting for a comma or closing bracket.
    ArrayDelimiter {
        /// Root-inclusive depth of the array.
        depth: usize,
        /// Items already admitted in this array.
        items: usize,
    },
    /// An object ready for its first or next key.
    ObjectKey {
        /// Root-inclusive depth of the object.
        depth: usize,
        /// Entries already admitted in this object.
        entries: usize,
    },
    /// An object waiting for a comma or closing brace.
    ObjectDelimiter {
        /// Root-inclusive depth of the object.
        depth: usize,
        /// Entries already admitted in this object.
        entries: usize,
    },
}

/// JSON insignificant whitespace.
pub open spec fn is_json_ws(b: u8) -> bool {
    b == 0x20 || b == 0x0A || b == 0x0D || b == 0x09
}

/// The first position at or after `p` that is not whitespace.
pub open spec fn skip_ws(s: Seq<u8>, p: int) -> int
    decreases s.len() - p,
{
    if 0 <= p < s.len() && is_json_ws(s[p]) {
        skip_ws(s, p + 1)
    } else {
        p
    }
}

/// The byte at `p` may follow a complete scalar value.
pub open spec fn is_value_delimiter_at(s: Seq<u8>, p: int) -> bool {
    p >= s.len() || is_json_ws(s[p]) || s[p] == 0x2C || s[p] == 0x5D || s[p] == 0x7D
}

/// The reason for a byte that cannot stand at `p`.
pub open spec fn unexpected_at(s: Seq<u8>, p: int) -> JsonLexicalErrorReason {
    if 0 <= p < s.len() {
        JsonLexicalErrorReason::UnexpectedByte { byte: s[p] }
    } else {
        JsonLexicalErrorReason::UnexpectedEnd
    }
}

/// A hexadecimal digit.
pub open spec fn is_hex(b: u8) -> bool {
    (0x30 <= b <= 0x39) || (0x61 <= b <= 0x66) || (0x41 <= b <= 0x46)
}

/// The value of a hexadecimal digit.
pub open spec fn hex_value(b: u8) -> int {
    if 0x30 <= b <= 0x39 {
        b - 0x30
    } else if 0x61 <= b <= 0x66 {
        b - 0x61 + 10
    } else {
        b - 0x41 + 10
    }
}

/// The first of the four positions from `p` that does not hold a
/// hexadecimal digit, with the reason, if any.
pub open spec fn hex_quad_error(s: Seq<u8>, p: int) -> Option<(int, JsonLexicalErrorReason)> {
    if !(p < s.len() && is_hex(s[p])) {
        Some((p, hex_failure(s, p)))
    } else if !(p + 1 < s.len() && is_hex(s[p + 1])) {
        Some((p + 1, hex_failure(s, p + 1)))
    } else if !(p + 2 < s.len() && is_hex(s[p + 2])) {
        Some((p + 2, hex_failure(s, p + 2)))
    } else if !(p + 3 < s.len() && is_hex(s[p + 3])) {
        Some((p + 3, hex_failure(s, p + 3)))
    } else {
        None
    }
}

/// The reason for a missing hexadecimal digit at `p`.
pub open spec fn hex_failure(s: Seq<u8>, p: int) -> JsonLexicalErrorReason {
    if p < s.len() {
        JsonLexicalErrorReason::InvalidUnicodeEscape
    } else {
        JsonLexicalErrorReason::UnexpectedEnd
    }
}

/// The value of the four hexadecimal digits from `p`.
pub open spec fn hex_quad_value(s: Seq<u8>, p: int) -> int {
    ((hex_value(s[p]) * 16 + hex_value(s[p + 1])) * 16 + hex_value(s[p + 2])) * 16 + hex_value(
        s[p + 3],
    )
}

/// The end of a Unicode escape whose `u` stands at `u`: four hexadecimal
/// digits naming a scalar, or a high surrogate followed by `\u` and a low
/// surrogate.
pub open spec fn unicode_escape_end(s: Seq<u8>, u: int) -> Scan {
    let p = u + 1;
    if let Some(e) = hex_quad_error(s, p) {
        Err(e)
    } else {
        let first = hex_quad_value(s, p);
        let r = p + 4;
        if 0xD800 <= first <= 0xDBFF {
            if !(r + 2 <= s.len() && s[r] == 0x5C && s[r + 1] == 0x75) {
                Err(
                    (
                        r,
                        if r < s.len() {
                            JsonLexicalErrorReason::UnpairedSurrogate
                        } else {
                            JsonLexicalErrorReason::UnexpectedEnd
                        },
                    ),
                )
            } else if let Some(e) = hex_quad_error(s, r + 2) {
                Err(e)
            } else if 0xDC00 <= hex_quad_value(s, r + 2) <= 0xDFFF {
                Ok(r + 6)
            } else {
                Err((r + 6, JsonLexicalErrorReason::UnpairedSurrogate))
            }
        } else if 0xDC00 <= first <= 0xDFFF {
            Err((r, JsonLexicalErrorReason::UnpairedSurrogate))
        } else {
            Ok(r)
        }
    }
}

/// A character that may follow a backslash, other than `u`.
pub open spec fn is_simple_escape(b: u8) -> bool {
    b == 0x22 || b == 0x5C || b == 0x2F || b == 0x62 || b == 0x66 || b == 0x6E || b == 0x72 || b
        == 0x74
}

/// The end of the string body from `q` through its closing quote.
pub open spec fn string_body_end(s: Seq<u8>, q: int) -> Scan
    decreases s.len() - q,
{
    if q < 0 || q >= s.len() {
        Err((q, JsonLexicalErrorReason::UnexpectedEnd))
    } else {
        let b = s[q];
        if b == 0x22 {
            Ok(q + 1)
        } else if b == 0x5C {
            if q + 1 >= s.len() {
                Err((q + 1, JsonLexicalErrorReason::UnexpectedEnd))
            } else if is_simple_escape(s[q + 1]) {
                string_body_end(s, q + 2)
            } else if s[q + 1] == 0x75 {
                match unicode_escape_end(s, q + 1) {
                    Err(e) => Err(e),
                    Ok(r) => {
                        proof {
                            lemma_unicode_escape_end(s, q + 1);
                        }
                        string_body_end(s, r)
                    },
                }
            } else {
                Err((q + 1, JsonLexicalErrorReason::InvalidEscape))
            }
        } else if 0x20 <= b <= 0x7F {
            string_body_end(s, q + 1)
        } else if b >= 0x80 {
            let w = lead_width(b);
            if w == 0 {
                Err((q, JsonLexicalErrorReason::InvalidUtf8))
            } else if q + w > s.len() {
                Err((q, JsonLexicalErrorReason::UnexpectedEnd))
            } else if !scalar_at(s, q, w) {
                Err((q, JsonLexicalErrorReason::InvalidUtf8))
            } else {
                string_body_end(s, q + w)
            }
        } else {
            Err((q, JsonLexicalErrorReason::UnexpectedByte { byte: b }))
        }
    }
}

/// The end of the string whose opening quote stands at `q`.
pub open spec fn string_end(s: Seq<u8>, q: int) -> Scan {
    string_body_end(s, q + 1)
}

/// The end of the literal `lit` at `q`, which must be followed by a value
/// delimiter.
pub open spec fn literal_end(s: Seq<u8>, q: int, lit: Seq<u8>) -> Scan {
    if !(0 <= q && q + lit.len() <= s.len() && s.subrange(q, q + lit.len()) == lit) {
        Err((q, unexpected_at(s, q)))
    } else if !is_value_delimiter_at(s, q + lit.len()) {
        Err((q + lit.len(), unexpected_at(s, q + lit.len())))
    } else {
        Ok(q + lit.len())
    }
}

/// The bytes of `true`.
pub open spec fn true_text() -> Seq<u8> {
    seq![0x74u8, 0x72, 0x75, 0x65]
}

/// The bytes of `false`.
pub open spec fn false_text() -> Seq<u8> {
    seq![0x66u8, 0x61, 0x6C, 0x73, 0x65]
}

/// The bytes of `null`.
pub open spec fn null_text() -> Seq<u8> {
    seq![0x6Eu8, 0x75, 0x6C, 0x6C]
}

/// The end of the JSON value at or after `p` (leading whitespace skipped),
/// at root-inclusive nesting `depth`.
pub open spec fn value_end(s: Seq<u8>, p: int, depth: int) -> Scan
    decreases s.len() - p, 0int,
{
    let q = skip_ws(s, p);
    proof {
        lemma_skip_ws(s, p);
    }
    if q < 0 || q >= s.len() {
        Err((q, JsonLexicalErrorReason::UnexpectedEnd))
    } else {
        let b = s[q];
        if b == 0x7B {
            object_key_end(s, q + 1, depth, 0)
        } else if b == 0x5B {
            array_value_end(s, q + 1, depth, 0)
        } else if b == 0x22 {
            string_end(s, q)
        } else if b == 0x2D || (0x30 <= b <= 0x39) {
            number_at(s, q)
        } else if b == 0x74 {
            literal_end(s, q, true_text())
        } else if b == 0x66 {
            literal_end(s, q, false_text())
        } else if b == 0x6E {
            literal_end(s, q, null_text())
        } else {
            Err((q, JsonLexicalErrorReason::UnexpectedByte { byte: b }))
        }
    }
}

/// The end of an array at `p`, ready for its first or next value, with
/// `items` values already read.
pub open spec fn array_value_end(s: Seq<u8>, p: int, depth: int, items: int) -> Scan
    decreases s.len() - p, 2int,
{
    let q = skip_ws(s, p);
    proof {
        lemma_skip_ws(s, p);
    }
    if 0 <= q < s.len() && s[q] == 0x5D {
        if items == 0 {
            Ok(q + 1)
        } else {
            Err((q, JsonLexicalErrorReason::UnexpectedByte { byte: 0x5D }))
        }
    } else if items + 1 > usize::MAX {
        Err((q, JsonLexicalErrorReason::NestingOverflow))
    } else {
        array_item_end(s, q, depth, items + 1)
    }
}

/// The end of an array whose next value, its `items`-th, starts at `q`.
pub open spec fn array_item_end(s: Seq<u8>, q: int, depth: int, items: int) -> Scan
    decreases s.len() - q, 1int,
{
    if depth + 1 > usize::MAX {
        Err((q, JsonLexicalErrorReason::NestingOverflow))
    } else {
        match value_end(s, q, depth + 1) {
            Err(e) => Err(e),
            Ok(r) => if q < r <= s.len() {
                array_delimiter_end(s, r, depth, items)
            } else {
                Err((q, JsonLexicalErrorReason::NestingOverflow))
            },
        }
    }
}

/// The end of an array at `p`, waiting for a comma or its closing bracket.
pub open spec fn array_delimiter_end(s: Seq<u8>, p: int, depth: int, items: int) -> Scan
    decreases s.len() - p, 2int,
{
    let q = skip_ws(s, p);
    proof {
        lemma_skip_ws(s, p);
    }
    if q < 0 || q >= s.len() {
        Err((q, JsonLexicalErrorReason::UnexpectedEnd))
    } else if s[q] == 0x2C {
        array_value_end(s, q + 1, depth, items)
    } else if s[q] == 0x5D {
        Ok(q + 1)
    } else {
        Err((q, JsonLexicalErrorReason::ExpectedCommaOrArrayEnd))
    }
}

/// The end of an object at `p`, ready for its first or next key, with
/// `entries` entries already read.
pub open spec fn object_key_end(s: Seq<u8>, p: int, depth: int, entries: int) -> Scan
    decreases s.len() - p, 2int,
{
    let q = skip_ws(s, p);
    proof {
        lemma_skip_ws(s, p);
    }
    if 0 <= q < s.len() && s[q] == 0x7D {
        if entries == 0 {
            Ok(q + 1)
        } else {
            Err((q, JsonLexicalErrorReason::UnexpectedByte { byte: 0x7D }))
        }
    } else if !(0 <= q < s.len() && s[q] == 0x22) {
        Err((q, JsonLexicalErrorReason::ExpectedObjectKey))
    } else if entries + 1 > usize::MAX {
        Err((q, JsonLexicalErrorReason::NestingOverflow))
    } else {
        object_entry_end(s, q, depth, entries + 1)
    }
}

/// The end of an object whose `entries`-th entry has its key at `q`.
pub open spec fn object_entry_end(s: Seq<u8>, q: int, depth: int, entries: int) -> Scan
    decreases s.len() - q, 1int,
{
    match string_end(s, q) {
        Err(e) => Err(e),
        Ok(r) => {
            proof {
                lemma_string_end(s, q);
            }
            if q < r <= s.len() {
                object_colon_end(s, r, depth, entries)
            } else {
                Err((q, JsonLexicalErrorReason::NestingOverflow))
            }
        },
    }
}

/// The end of an object whose current key ended at `r`: a colon, the
/// entry's value, then the rest of the object.
pub open spec fn object_colon_end(s: Seq<u8>, r: int, depth: int, entries: int) -> Scan
    decreases s.len() - r, 0int,
{
    let c = skip_ws(s, r);
    proof {
        lemma_skip_ws(s, r);
    }
    if !(0 <= c < s.len() && s[c] == 0x3A) {
        Err(
            (
                c,
                if 0 <= c < s.len() {
                    JsonLexicalErrorReason::ExpectedColon
                } else {
                    JsonLexicalErrorReason::UnexpectedEnd
                },
            ),
        )
    } else if depth + 1 > usize::MAX {
        Err((c + 1, JsonLexicalErrorReason::NestingOverflow))
    } else {
        match value_end(s, c + 1, depth + 1) {
            Err(e) => Err(e),
            Ok(v) => if c + 1 < v <= s.len() {
                object_delimiter_end(s, v, depth, entries)
            } else {
                Err((c, JsonLexicalErrorReason::NestingOverflow))
            },
        }
    }
}

/// The end of an object at `p`, waiting for a comma or its closing brace.
pub open spec fn object_delimiter_end(s: Seq<u8>, p: int, depth: int, entries: int) -> Scan
    decreases s.len() - p, 2int,
{
    let q = skip_ws(s, p);
    proof {
        lemma_skip_ws(s, p);
    }
    if q < 0 || q >= s.len() {
        Err((q, JsonLexicalErrorReason::UnexpectedEnd))
    } else if s[q] == 0x2C {
        object_key_end(s, q + 1, depth, entries)
    } else if s[q] == 0x7D {
        Ok(q + 1)
    } else {
        Err((q, JsonLexicalErrorReason::ExpectedCommaOrObjectEnd))
    }
}

/// The outcome after the root value ends at `p`: only whitespace may follow.
pub open spec fn trailing_end(s: Seq<u8>, p: int) -> Scan {
    let q = skip_ws(s, p);
    if q == s.len() {
        Ok(q)
    } else {
        Err((q, JsonLexicalErrorReason::TrailingCharacters))
    }
}

/// The outcome of a complete document: one value at `root_depth`,
/// surrounded by optional whitespace.
pub open spec fn document_scan(s: Seq<u8>, root_depth: int) -> Scan {
    match value_end(s, 0, root_depth) {
        Err(e) => Err(e),
        Ok(r) => trailing_end(s, r),
    }
}

/// The rest of the container that `frame` describes, from `p`.
pub open spec fn frame_end(s: Seq<u8>, p: int, frame: JsonLexicalContainerFrame) -> Scan {
    match frame {
        JsonLexicalContainerFrame::ArrayValue { depth, items } => array_value_end(
            s,
            p,
            depth as int,
            items as int,
        ),
        JsonLexicalContainerFrame::ArrayDelimiter { depth, items } => array_delimiter_end(
            s,
            p,
            depth as int,
            items as int,
        ),
        JsonLexicalContainerFrame::ObjectKey { depth, entries } => object_key_end(
            s,
            p,
            depth as int,
            entries as int,
        ),
        JsonLexicalContainerFrame::ObjectDelimiter { depth, entries } => object_delimiter_end(
            s,
            p,
            depth as int,
            entries as int,
        ),
    }
}

/// The outcome of the document once the containers on `stack` (innermost
/// last) are completed from `p`.
pub open spec fn continue_scan(s: Seq<u8>, p: int, stack: Seq<JsonLexicalContainerFrame>) -> Scan
    decreases stack.len(),
{
    if stack.len() == 0 {
        trailing_end(s, p)
    } else {
        match frame_end(s, p, stack.last()) {
            Err(e) => Err(e),
            Ok(r) => continue_scan(s, r, stack.drop_last()),
        }
    }
}

/// The document outcome after a construct that scans as `outcome`, with
/// `stack` still open.
pub open spec fn scan_after(s: Seq<u8>, outcome: Scan, stack: Seq<JsonLexicalContainerFrame>) -> Scan {
    match outcome {
        Err(e) => Err(e),
        Ok(r) => continue_scan(s, r, stack),
    }
}

/// Skipping whitespace stays within the input and lands on a non-blank.
pub proof fn lemma_skip_ws(s: Seq<u8>, p: int)
    ensures
        p <= skip_ws(s, p),
        0 <= p <= s.len() ==> skip_ws(s, p) <= s.len(),
        0 <= p ==> !(skip_ws(s, p) < s.len() && is_json_ws(s[skip_ws(s, p)])),
        forall|i: int| p <= i < skip_ws(s, p) ==> is_json_ws(#[trigger] s[i]),
    decreases s.len() - p,
{
    if 0 <= p < s.len() && is_json_ws(s[p]) {
        lemma_skip_ws(s, p + 1);
    }
}

/// Skipping whitespace twice is skipping it once.
pub proof fn lemma_skip_ws_idempotent(s: Seq<u8>, p: int)
    requires
        0 <= p,
    ensures
        skip_ws(s, skip_ws(s, p)) == skip_ws(s, p),
{
    lemma_skip_ws(s, p);
}

/// A Unicode escape that scans successfully ends after its four digits.
pub proof fn lemma_unicode_escape_end(s: Seq<u8>, u: int)
    ensures
        unicode_escape_end(s, u) matches Ok(r) ==> u + 5 <= r <= s.len(),
{
}

/// A string that scans successfully ends after its opening quote.
pub proof fn lemma_string_body_end(s: Seq<u8>, q: int)
    ensures
        string_body_end(s, q) matches Ok(r) ==> q < r <= s.len(),
    decreases s.len() - q,
{
    if 0 <= q < s.len() {
        let b = s[q];
        if b == 0x5C && q + 1 < s.len() {
            if is_simple_escape(s[q + 1]) {
                lemma_string_body_end(s, q + 2);
            } else if s[q + 1] == 0x75 {
                lemma_unicode_escape_end(s, q + 1);
                if let Ok(r) = unicode_escape_end(s, q + 1) {
                    lemma_string_body_end(s, r);
                }
            }
        } else if b != 0x22 && 0x20 <= b <= 0x7F {
            lemma_string_body_end(s, q + 1);
        } else if b >= 0x80 && lead_width(b) > 0 && q + lead_width(b) <= s.len() {
            lemma_string_body_end(s, q + lead_width(b));
        }
    }
}

/// A string that scans successfully ends after its opening quote.
pub proof fn lemma_string_end(s: Seq<u8>, q: int)
    ensures
        string_end(s, q) matches Ok(r) ==> q + 1 < r <= s.len(),
{
    lemma_string_body_end(s, q + 1);
}

/// A literal that scans successfully ends after its start.
pub proof fn lemma_literal_end(s: Seq<u8>, q: int, lit: Seq<u8>)
    requires
        lit.len() > 0,
    ensures
        literal_end(s, q, lit) matches Ok(r) ==> q < r <= s.len(),
{
}


/// A value that scans successfully ends after `p` and within the input.
pub proof fn lemma_value_end(s: Seq<u8>, p: int, depth: int)
    requires
        0 <= p <= s.len(),
    ensures
        value_end(s, p, depth) matches Ok(r) ==> p < r <= s.len(),
    decreases s.len() - p, 0int,
{
    let q = skip_ws(s, p);
    lemma_skip_ws(s, p);
    if 0 <= q < s.len() {
        let b = s[q];
        if b == 0x7B {
            lemma_object_key_end(s, q + 1, depth, 0);
        } else if b == 0x5B {
            lemma_array_value_end(s, q + 1, depth, 0);
        } else if b == 0x22 {
            lemma_string_end(s, q);
        } else if b == 0x2D || (0x30 <= b <= 0x39) {
            lemma_number_at_advances(s, q);
        } else {
            lemma_literal_end(s, q, true_text());
            lemma_literal_end(s, q, false_text());
            lemma_literal_end(s, q, null_text());
        }
    }
}

/// An array remainder that scans successfully ends after `p`.
pub proof fn lemma_array_value_end(s: Seq<u8>, p: int, depth: int, items: int)
    requires
        0 <= p <= s.len(),
    ensures
        array_value_end(s, p, depth, items) matches Ok(r) ==> p < r <= s.len(),
    decreases s.len() - p, 2int,
{
    let q = skip_ws(s, p);
    lemma_skip_ws(s, p);
    if !(0 <= q < s.len() && s[q] == 0x5D) && items + 1 <= usize::MAX {
        lemma_array_item_end(s, q, depth, items + 1);
    }
}

/// An array remainder that scans successfully ends after `q`.
pub proof fn lemma_array_item_end(s: Seq<u8>, q: int, depth: int, items: int)
    requires
        0 <= q <= s.len(),
    ensures
        array_item_end(s, q, depth, items) matches Ok(r) ==> q < r <= s.len(),
    decreases s.len() - q, 1int,
{
    if depth + 1 <= usize::MAX {
        lemma_value_end(s, q, depth + 1);
        if let Ok(r) = value_end(s, q, depth + 1) {
            if q < r <= s.len() {
                lemma_array_delimiter_end(s, r, depth, items);
            }
        }
    }
}

/// An array remainder that scans successfully ends after `p`.
pub proof fn lemma_array_delimiter_end(s: Seq<u8>, p: int, depth: int, items: int)
    requires
        0 <= p <= s.len(),
    ensures
        array_delimiter_end(s, p, depth, items) matches Ok(r) ==> p < r <= s.len(),
    decreases s.len() - p, 2int,
{
    let q = skip_ws(s, p);
    lemma_skip_ws(s, p);
    if 0 <= q < s.len() && s[q] == 0x2C {
        lemma_array_value_end(s, q + 1, depth, items);
    }
}

/// An object remainder that scans successfully ends after `p`.
pub proof fn lemma_object_key_end(s: Seq<u8>, p: int, depth: int, entries: int)
    requires
        0 <= p <= s.len(),
    ensures
        object_key_end(s, p, depth, entries) matches Ok(r) ==> p < r <= s.len(),
    decreases s.len() - p, 2int,
{
    let q = skip_ws(s, p);
    lemma_skip_ws(s, p);
    if 0 <= q < s.len() && s[q] == 0x22 && entries + 1 <= usize::MAX {
        lemma_object_entry_end(s, q, depth, entries + 1);
    }
}

/// An object remainder that scans successfully ends after `q`.
pub proof fn lemma_object_entry_end(s: Seq<u8>, q: int, depth: int, entries: int)
    requires
        0 <= q <= s.len(),
    ensures
        object_entry_end(s, q, depth, entries) matches Ok(r) ==> q < r <= s.len(),
    decreases s.len() - q, 1int,
{
    lemma_string_end(s, q);
    if let Ok(r) = string_end(s, q) {
        if q < r <= s.len() {
            lemma_object_colon_end(s, r, depth, entries);
        }
    }
}

/// An object remainder that scans successfully ends after `r`.
pub proof fn lemma_object_colon_end(s: Seq<u8>, r: int, depth: int, entries: int)
    requires
        0 <= r <= s.len(),
    ensures
        object_colon_end(s, r, depth, entries) matches Ok(x) ==> r < x <= s.len(),
    decreases s.len() - r, 0int,
{
    let c = skip_ws(s, r);
    lemma_skip_ws(s, r);
    if 0 <= c < s.len() && s[c] == 0x3A && depth + 1 <= usize::MAX {
        lemma_value_end(s, c + 1, depth + 1);
        if let Ok(v) = value_end(s, c + 1, depth + 1) {
            if c + 1 < v <= s.len() {
                lemma_object_delimiter_end(s, v, depth, entries);
            }
        }
    }
}

/// An object remainder that scans successfully ends after `p`.
pub proof fn lemma_object_delimiter_end(s: Seq<u8>, p: int, depth: int, entries: int)
    requires
        0 <= p <= s.len(),
    ensures
        object_delimiter_end(s, p, depth, entries) matches Ok(r) ==> p < r <= s.len(),
    decreases s.len() - p, 2int,
{
    let q = skip_ws(s, p);
    lemma_skip_ws(s, p);
    if 0 <= q < s.len() && s[q] == 0x2C {
        lemma_object_key_end(s, q + 1, depth, entries);
    }
}

/// Every short escape that JSON allows inside a string, `\"`, `\\`, `\/`,
/// `\b`, `\f`, `\n`, `\r` and `\t`, is accepted: the string goes on after
/// the two bytes of the escape exactly as it would from there.
pub proof fn lemma_short_escapes_are_accepted(s: Seq<u8>, q: int)
    requires
        0 <= q,
        q + 1 < s.len(),
        s[q] == 0x5C,
        s[q + 1] == 0x22 || s[q + 1] == 0x5C || s[q + 1] == 0x2F || s[q + 1] == 0x62 || s[q + 1] == 0x66
            || s[q + 1] == 0x6E || s[q + 1] == 0x72 || s[q + 1] == 0x74,
    ensures
        string_body_end(s, q) == string_body_end(s, q + 2),
{
}

/// A `\uXXXX` escape with four hexadecimal digits naming a character
/// outside the surrogate range (its first digit is not `d` or `D`) is
/// accepted: the string goes on after the six bytes of the escape.
pub proof fn lemma_unicode_escapes_are_accepted(s: Seq<u8>, q: int)
    requires
        0 <= q,
        q + 5 < s.len(),
        s[q] == 0x5C,
        s[q + 1] == 0x75,
        forall|i: int|
            q + 2 <= i < q + 6 ==> (0x30 <= #[trigger] s[i] <= 0x39) || (0x61 <= s[i] <= 0x66) || (0x41 <= s[i]
                <= 0x46),
        s[q + 2] != 0x64 && s[q + 2] != 0x44,
    ensures
        string_body_end(s, q) == string_body_end(s, q + 6),
{
    assert(is_hex(s[q + 2]) && is_hex(s[q + 3]) && is_hex(s[q + 4]) && is_hex(s[q + 5]));
    let v = hex_quad_value(s, q + 2);
    assert(hex_value(s[q + 2]) != 13);
    assert(v < 0xD000 || v >= 0xE000);
    assert(unicode_escape_end(s, q + 1) == Ok::<int, (int, JsonLexicalErrorReason)>(q + 6));
}

/// A string holding only the two quotes around one allowed short escape is
/// one complete string: for instance `"\/"`.
pub proof fn lemma_escape_only_string_is_accepted(s: Seq<u8>, q: int)
    requires
        0 <= q,
        q + 3 < s.len(),
        s[q] == 0x22,
        s[q + 3] == 0x22,
        s[q + 1] == 0x5C,
        s[q + 2] == 0x22 || s[q + 2] == 0x5C || s[q + 2] == 0x2F || s[q + 2] == 0x62 || s[q + 2] == 0x66
            || s[q + 2] == 0x6E || s[q + 2] == 0x72 || s[q + 2] == 0x74,
    ensures
        string_end(s, q) == Ok::<int, (int, JsonLexicalErrorReason)>(q + 4),
{
    lemma_short_escapes_are_accepted(s, q + 1);
}

/// A hexadecimal digit, written out.
pub open spec fn hex_digit_byte_at(s: Seq<u8>, i: int) -> bool {
    (0x30 <= s[i] <= 0x39) || (0x61 <= s[i] <= 0x66) || (0x41 <= s[i] <= 0x46)
}

/// A surrogate pair written as two escapes, a high surrogate `\uD800` to
/// `\uDBFF` followed by a low surrogate `\uDC00` to `\uDFFF`, is accepted:
/// the string goes on after the twelve bytes of the pair.
pub proof fn lemma_surrogate_pairs_are_accepted(s: Seq<u8>, q: int)
    requires
        0 <= q,
        q + 11 < s.len(),
        s[q] == 0x5C && s[q + 1] == 0x75 && s[q + 6] == 0x5C && s[q + 7] == 0x75,
        s[q + 2] == 0x64 || s[q + 2] == 0x44,
        s[q + 3] == 0x38 || s[q + 3] == 0x39 || s[q + 3] == 0x61 || s[q + 3] == 0x62 || s[q + 3] == 0x41
            || s[q + 3] == 0x42,
        hex_digit_byte_at(s, q + 4) && hex_digit_byte_at(s, q + 5),
        s[q + 8] == 0x64 || s[q + 8] == 0x44,
        (0x63 <= s[q + 9] <= 0x66) || (0x43 <= s[q + 9] <= 0x46),
        hex_digit_byte_at(s, q + 10) && hex_digit_byte_at(s, q + 11),
    ensures
        string_body_end(s, q) == string_body_end(s, q + 12),
{
    assert(hex_quad_error(s, q + 2) is None);
    assert(hex_quad_error(s, q + 8) is None);
    assert(0xD800 <= hex_quad_value(s, q + 2) <= 0xDBFF);
    assert(0xDC00 <= hex_quad_value(s, q + 8) <= 0xDFFF);
    assert(unicode_escape_end(s, q + 1) == Ok::<int, (int, JsonLexicalErrorReason)>(q + 12));
}

/// A raw control byte (below `0x20`) inside a string is rejected right
/// where it stands, as an unexpected byte.
pub proof fn lemma_raw_controls_are_rejected_in_strings(s: Seq<u8>, q: int)
    requires
        0 <= q < s.len(),
        s[q] < 0x20,
    ensures
        string_body_end(s, q) == Err::<int, (int, JsonLexicalErrorReason)>(
            (q, JsonLexicalErrorReason::UnexpectedByte { byte: s[q] }),
        ),
{
}

} // verus!
