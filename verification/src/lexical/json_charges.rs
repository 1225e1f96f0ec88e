//! The value-budget charges of a JSON document, in the order the scanner
//! requests them.
//!
//! Each function below follows the grammar function of the same construct
//! and lists the charges made from a position until the construct ends or
//! is first rejected: containers are charged when they open, each item or
//! entry count before the item or entry is read, scalars and keys once
//! their token has been read, and a number before its range is checked.

use vstd::prelude::*;
use vstd::utf8::{encode_scalar, has_width_4_encoding};

use super::json_grammar::{
    false_text, frame_end, hex_quad_value, hex_value, is_simple_escape, lemma_skip_ws, lemma_string_end,
    lemma_unicode_escape_end, literal_end, null_text, skip_ws, string_end, true_text, unicode_escape_end,
    lemma_string_body_end, string_body_end, value_end, JsonLexicalContainerFrame, Scan,
};
use super::json_number::{number_in_range, number_token_end};
use super::json_value_budget::{JsonBudgetRequest, JsonValueContainerKind, JsonValueMeasurement};
use super::source_coordinates::{lead_width, scalar_at};

verus! {

/// The UTF-8 length of the text that the Unicode escape whose `u` stands at
/// `u` denotes: four bytes for a surrogate pair, otherwise the width of the
/// scalar.
pub open spec fn unicode_escape_width(s: Seq<u8>, u: int) -> int {
    let first = hex_quad_value(s, u + 1);
    if 0xD800 <= first <= 0xDBFF {
        4
    } else if first < 0x80 {
        1
    } else if first < 0x800 {
        2
    } else {
        3
    }
}

/// The decoded UTF-8 length of the string body from `q` to its closing
/// quote.
pub open spec fn string_body_bytes(s: Seq<u8>, q: int) -> int
    decreases s.len() - q,
{
    if q < 0 || q >= s.len() {
        0
    } else {
        let b = s[q];
        if b == 0x22 {
            0
        } else if b == 0x5C {
            if q + 1 >= s.len() {
                0
            } else if is_simple_escape(s[q + 1]) {
                1 + string_body_bytes(s, q + 2)
            } else if s[q + 1] == 0x75 {
                match unicode_escape_end(s, q + 1) {
                    Err(e) => 0,
                    Ok(r) => {
                        proof {
                            lemma_unicode_escape_end(s, q + 1);
                        }
                        unicode_escape_width(s, q + 1) + string_body_bytes(s, r)
                    },
                }
            } else {
                0
            }
        } else if 0x20 <= b <= 0x7F {
            1 + string_body_bytes(s, q + 1)
        } else if b >= 0x80 {
            let w = lead_width(b);
            if w == 0 || q + w > s.len() || !scalar_at(s, q, w) {
                0
            } else {
                w + string_body_bytes(s, q + w)
            }
        } else {
            0
        }
    }
}

/// The decoded UTF-8 length of the string whose opening quote is at `q`.
pub open spec fn string_bytes_at(s: Seq<u8>, q: int) -> usize {
    string_body_bytes(s, q + 1) as usize
}

/// The charges of the value at `p`, at `depth`.
pub open spec fn value_charges(s: Seq<u8>, p: int, depth: int) -> Seq<JsonBudgetRequest>
    decreases s.len() - p, 0int,
{
    let q = skip_ws(s, p);
    proof {
        lemma_skip_ws(s, p);
    }
    if q < 0 || q >= s.len() {
        Seq::empty()
    } else {
        let b = s[q];
        if b == 0x7B {
            seq![JsonBudgetRequest::EnterContainer { kind: JsonValueContainerKind::Object, depth: depth as usize }]
                + object_key_charges(s, q + 1, depth, 0)
        } else if b == 0x5B {
            seq![JsonBudgetRequest::EnterContainer { kind: JsonValueContainerKind::Array, depth: depth as usize }]
                + array_value_charges(s, q + 1, depth, 0)
        } else if b == 0x22 {
            if string_end(s, q) is Ok {
                seq![
                    JsonBudgetRequest::Admit(
                        JsonValueMeasurement::String { depth: depth as usize, bytes: string_bytes_at(s, q) },
                    ),
                ]
            } else {
                Seq::empty()
            }
        } else if b == 0x2D || (0x30 <= b <= 0x39) {
            match number_token_end(s, q) {
                Ok(e) => seq![
                    JsonBudgetRequest::Admit(
                        JsonValueMeasurement::Number { depth: depth as usize, bytes: (e - q) as usize },
                    ),
                ],
                Err(_) => Seq::empty(),
            }
        } else if b == 0x74 {
            if literal_end(s, q, true_text()) is Ok {
                seq![JsonBudgetRequest::Admit(JsonValueMeasurement::Boolean { depth: depth as usize })]
            } else {
                Seq::empty()
            }
        } else if b == 0x66 {
            if literal_end(s, q, false_text()) is Ok {
                seq![JsonBudgetRequest::Admit(JsonValueMeasurement::Boolean { depth: depth as usize })]
            } else {
                Seq::empty()
            }
        } else if b == 0x6E {
            if literal_end(s, q, null_text()) is Ok {
                seq![JsonBudgetRequest::Admit(JsonValueMeasurement::Null { depth: depth as usize })]
            } else {
                Seq::empty()
            }
        } else {
            Seq::empty()
        }
    }
}

/// The charges of an array at `p`, ready for its first or next value.
pub open spec fn array_value_charges(s: Seq<u8>, p: int, depth: int, items: int) -> Seq<JsonBudgetRequest>
    decreases s.len() - p, 2int,
{
    let q = skip_ws(s, p);
    proof {
        lemma_skip_ws(s, p);
    }
    if 0 <= q < s.len() && s[q] == 0x5D {
        Seq::empty()
    } else if items + 1 > usize::MAX {
        Seq::empty()
    } else {
        seq![
            JsonBudgetRequest::CheckContainerCount {
                kind: JsonValueContainerKind::Array,
                count: (items + 1) as usize,
            },
        ] + array_item_charges(s, q, depth, items + 1)
    }
}

/// The charges of an array whose next value starts at `q`.
pub open spec fn array_item_charges(s: Seq<u8>, q: int, depth: int, items: int) -> Seq<JsonBudgetRequest>
    decreases s.len() - q, 1int,
{
    if depth + 1 > usize::MAX {
        Seq::empty()
    } else {
        value_charges(s, q, depth + 1) + match value_end(s, q, depth + 1) {
            Err(_) => Seq::empty(),
            Ok(r) => if q < r <= s.len() {
                array_delimiter_charges(s, r, depth, items)
            } else {
                Seq::empty()
            },
        }
    }
}

/// The charges of an array at `p`, waiting for a comma or its bracket.
pub open spec fn array_delimiter_charges(s: Seq<u8>, p: int, depth: int, items: int) -> Seq<
    JsonBudgetRequest,
>
    decreases s.len() - p, 2int,
{
    let q = skip_ws(s, p);
    proof {
        lemma_skip_ws(s, p);
    }
    if 0 <= q < s.len() && s[q] == 0x2C {
        array_value_charges(s, q + 1, depth, items)
    } else {
        Seq::empty()
    }
}

/// The charges of an object at `p`, ready for its first or next key.
pub open spec fn object_key_charges(s: Seq<u8>, p: int, depth: int, entries: int) -> Seq<JsonBudgetRequest>
    decreases s.len() - p, 2int,
{
    let q = skip_ws(s, p);
    proof {
        lemma_skip_ws(s, p);
    }
    if 0 <= q < s.len() && s[q] == 0x7D {
        Seq::empty()
    } else if !(0 <= q < s.len() && s[q] == 0x22) {
        Seq::empty()
    } else if entries + 1 > usize::MAX {
        Seq::empty()
    } else {
        seq![
            JsonBudgetRequest::CheckContainerCount {
                kind: JsonValueContainerKind::Object,
                count: (entries + 1) as usize,
            },
        ] + object_entry_charges(s, q, depth, entries + 1)
    }
}

/// The charges of an object whose next key is at `q`.
pub open spec fn object_entry_charges(s: Seq<u8>, q: int, depth: int, entries: int) -> Seq<
    JsonBudgetRequest,
>
    decreases s.len() - q, 1int,
{
    match string_end(s, q) {
        Err(_) => Seq::empty(),
        Ok(r) => {
            proof {
                lemma_string_end(s, q);
            }
            if q < r <= s.len() {
                seq![JsonBudgetRequest::Admit(JsonValueMeasurement::Key { bytes: string_bytes_at(s, q) })]
                    + object_colon_charges(s, r, depth, entries)
            } else {
                Seq::empty()
            }
        },
    }
}

/// The charges of an object whose current key ended at `r`.
pub open spec fn object_colon_charges(s: Seq<u8>, r: int, depth: int, entries: int) -> Seq<
    JsonBudgetRequest,
>
    decreases s.len() - r, 0int,
{
    let c = skip_ws(s, r);
    proof {
        lemma_skip_ws(s, r);
    }
    if !(0 <= c < s.len() && s[c] == 0x3A) {
        Seq::empty()
    } else if depth + 1 > usize::MAX {
        Seq::empty()
    } else {
        value_charges(s, c + 1, depth + 1) + match value_end(s, c + 1, depth + 1) {
            Err(_) => Seq::empty(),
            Ok(v) => if c + 1 < v <= s.len() {
                object_delimiter_charges(s, v, depth, entries)
            } else {
                Seq::empty()
            },
        }
    }
}

/// The charges of an object at `p`, waiting for a comma or its brace.
pub open spec fn object_delimiter_charges(s: Seq<u8>, p: int, depth: int, entries: int) -> Seq<
    JsonBudgetRequest,
>
    decreases s.len() - p, 2int,
{
    let q = skip_ws(s, p);
    proof {
        lemma_skip_ws(s, p);
    }
    if 0 <= q < s.len() && s[q] == 0x2C {
        object_key_charges(s, q + 1, depth, entries)
    } else {
        Seq::empty()
    }
}

/// The charges of the rest of the container that `frame` describes.
pub open spec fn frame_charges(s: Seq<u8>, p: int, frame: JsonLexicalContainerFrame) -> Seq<JsonBudgetRequest> {
    match frame {
        JsonLexicalContainerFrame::ArrayValue { depth, items } => array_value_charges(
            s,
            p,
            depth as int,
            items as int,
        ),
        JsonLexicalContainerFrame::ArrayDelimiter { depth, items } => array_delimiter_charges(
            s,
            p,
            depth as int,
            items as int,
        ),
        JsonLexicalContainerFrame::ObjectKey { depth, entries } => object_key_charges(
            s,
            p,
            depth as int,
            entries as int,
        ),
        JsonLexicalContainerFrame::ObjectDelimiter { depth, entries } => object_delimiter_charges(
            s,
            p,
            depth as int,
            entries as int,
        ),
    }
}

/// The charges of completing the containers on `stack` (innermost last)
/// from `p`.
pub open spec fn continue_charges(s: Seq<u8>, p: int, stack: Seq<JsonLexicalContainerFrame>) -> Seq<
    JsonBudgetRequest,
>
    decreases stack.len(),
{
    if stack.len() == 0 {
        Seq::empty()
    } else {
        frame_charges(s, p, stack.last()) + match frame_end(s, p, stack.last()) {
            Err(_) => Seq::empty(),
            Ok(r) => continue_charges(s, r, stack.drop_last()),
        }
    }
}

/// The charges after a construct that scans as `outcome`, with `stack`
/// still open.
pub open spec fn after_charges(s: Seq<u8>, outcome: Scan, stack: Seq<JsonLexicalContainerFrame>) -> Seq<
    JsonBudgetRequest,
> {
    match outcome {
        Err(_) => Seq::empty(),
        Ok(r) => continue_charges(s, r, stack),
    }
}

/// The charges of a complete document whose root value is at `root_depth`.
pub open spec fn document_charges(s: Seq<u8>, root_depth: int) -> Seq<JsonBudgetRequest> {
    value_charges(s, 0, root_depth)
}

/// Whether the number token from `start` to `end` is in range: the charges
/// after it go on only then.
pub open spec fn range_charges(
    s: Seq<u8>,
    start: int,
    end: int,
    stack: Seq<JsonLexicalContainerFrame>,
) -> Seq<JsonBudgetRequest> {
    if number_in_range(s, start, end) {
        continue_charges(s, end, stack)
    } else {
        Seq::empty()
    }
}

/// The bytes charged for a Unicode escape are the length of the UTF-8
/// encoding of the character it names: for `\uXXXX` outside the surrogate
/// range that character is the scalar XXXX, and for a surrogate pair it is
/// the supplementary scalar the pair encodes.
pub proof fn lemma_unicode_escape_width_is_utf8_length(s: Seq<u8>, u: int)
    requires
        unicode_escape_end(s, u) is Ok,
    ensures
        ({
            let v = hex_quad_value(s, u + 1);
            &&& !(0xD800 <= v <= 0xDFFF) ==> unicode_escape_width(s, u) == encode_scalar(v as u32).len()
            &&& 0xD800 <= v <= 0xDBFF ==> unicode_escape_width(s, u) == encode_scalar(
                (0x10000 + (v - 0xD800) * 0x400 + (hex_quad_value(s, u + 7) - 0xDC00)) as u32,
            ).len()
        }),
{
    let v = hex_quad_value(s, u + 1);
    assert(0 <= hex_value(s[u + 1]) <= 15);
    assert(0 <= hex_value(s[u + 2]) <= 15);
    assert(0 <= hex_value(s[u + 3]) <= 15);
    assert(0 <= hex_value(s[u + 4]) <= 15);
    assert(0 <= v <= 0xFFFF);
    if 0xD800 <= v <= 0xDBFF {
        let w = hex_quad_value(s, u + 7);
        let scalar = 0x10000 + (v - 0xD800) * 0x400 + (w - 0xDC00);
        assert(0x10000 <= scalar <= 0x10FFFF);
        assert(has_width_4_encoding(scalar as u32));
    }
}

/// A string without escapes is charged exactly its raw bytes: the number of
/// bytes between its quotes.
pub proof fn lemma_unescaped_string_charges_its_bytes(s: Seq<u8>, q: int, end: int)
    requires
        0 <= q,
        string_body_end(s, q) == Ok::<int, (int, super::json_lexical_error_reason::JsonLexicalErrorReason)>(end),
        forall|j: int| q <= j < end ==> s[j] != 0x5C,
    ensures
        string_body_bytes(s, q) == end - q - 1,
    decreases s.len() - q,
{
    lemma_string_body_end(s, q);
    let b = s[q];
    assert(b != 0x5C);
    if b == 0x22 {
    } else if 0x20 <= b <= 0x7F {
        lemma_unescaped_string_charges_its_bytes(s, q + 1, end);
    } else {
        lemma_unescaped_string_charges_its_bytes(s, q + lead_width(b), end);
    }
}

} // verus!
