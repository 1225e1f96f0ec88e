//! Stable reasons for rejecting lexical JSON input.

use vstd::prelude::*;

use crate::text::{hex_digit, hex_digit_char, push_char, push_str};

verus! {

/// A stable lexical rejection reason.
#[derive(Clone, Copy, Debug, Eq, PartialEq, Structural)]
pub enum JsonLexicalErrorReason {
    /// The document ended before a complete token or container was found.
    UnexpectedEnd,
    /// A byte is not valid at the current JSON position.
    UnexpectedByte {
        /// The unexpected byte.
        byte: u8,
    },
    /// An object key was not followed by a colon.
    ExpectedColon,
    /// An array value was not followed by a comma or closing bracket.
    ExpectedCommaOrArrayEnd,
    /// An object value was not followed by a comma or closing brace.
    ExpectedCommaOrObjectEnd,
    /// An object key was expected at the current position.
    ExpectedObjectKey,
    /// A string escape sequence is invalid.
    InvalidEscape,
    /// A Unicode escape does not contain four hexadecimal digits.
    InvalidUnicodeEscape,
    /// A Unicode surrogate pair is malformed.
    UnpairedSurrogate,
    /// The input contains invalid UTF-8.
    InvalidUtf8,
    /// A number does not follow JSON number grammar.
    InvalidNumber,
    /// An integer is outside the supported `i64`/`u64` range.
    IntegerOutOfRange,
    /// A fractional or exponential number is outside finite `f64` range.
    FloatOutOfRange,
    /// Non-whitespace bytes follow the complete root value.
    TrailingCharacters,
    /// A nesting or position counter overflowed.
    NestingOverflow,
}

/// The stable human-readable description of a reason; it holds no
/// input-derived text beyond the value of an unexpected byte.
pub open spec fn lexical_reason_text(reason: JsonLexicalErrorReason) -> Seq<char> {
    match reason {
        JsonLexicalErrorReason::UnexpectedEnd => "unexpected end of input"@,
        JsonLexicalErrorReason::UnexpectedByte { byte } => "unexpected byte 0x"@ + seq![
            hex_digit_char((byte / 16) as nat),
            hex_digit_char((byte % 16) as nat),
        ],
        JsonLexicalErrorReason::ExpectedColon => "expected ':'"@,
        JsonLexicalErrorReason::ExpectedCommaOrArrayEnd => "expected ',' or ']' in array"@,
        JsonLexicalErrorReason::ExpectedCommaOrObjectEnd => "expected ',' or '}' in object"@,
        JsonLexicalErrorReason::ExpectedObjectKey => "expected object key"@,
        JsonLexicalErrorReason::InvalidEscape => "invalid string escape"@,
        JsonLexicalErrorReason::InvalidUnicodeEscape => "invalid Unicode escape"@,
        JsonLexicalErrorReason::UnpairedSurrogate => "unpaired Unicode surrogate"@,
        JsonLexicalErrorReason::InvalidUtf8 => "invalid UTF-8"@,
        JsonLexicalErrorReason::InvalidNumber => "invalid JSON number"@,
        JsonLexicalErrorReason::IntegerOutOfRange => "JSON integer is outside the supported 64-bit range"@,
        JsonLexicalErrorReason::FloatOutOfRange => "JSON number is outside the finite f64 range"@,
        JsonLexicalErrorReason::TrailingCharacters => "trailing characters"@,
        JsonLexicalErrorReason::NestingOverflow => "JSON nesting overflow"@,
    }
}

/// Appends the description of `reason` to `out`.
pub(crate) fn push_reason_text(out: &mut String, reason: JsonLexicalErrorReason)
    ensures
        final(out)@ == old(out)@ + lexical_reason_text(reason),
{
    match reason {
        JsonLexicalErrorReason::UnexpectedEnd => push_str(out, "unexpected end of input"),
        JsonLexicalErrorReason::UnexpectedByte { byte } => {
            let ghost before = out@;
            push_str(out, "unexpected byte 0x");
            push_char(out, hex_digit(byte / 16));
            push_char(out, hex_digit(byte % 16));
            assert(out@ =~= before + lexical_reason_text(reason));
        },
        JsonLexicalErrorReason::ExpectedColon => push_str(out, "expected ':'"),
        JsonLexicalErrorReason::ExpectedCommaOrArrayEnd => push_str(out, "expected ',' or ']' in array"),
        JsonLexicalErrorReason::ExpectedCommaOrObjectEnd => push_str(out, "expected ',' or '}' in object"),
        JsonLexicalErrorReason::ExpectedObjectKey => push_str(out, "expected object key"),
        JsonLexicalErrorReason::InvalidEscape => push_str(out, "invalid string escape"),
        JsonLexicalErrorReason::InvalidUnicodeEscape => push_str(out, "invalid Unicode escape"),
        JsonLexicalErrorReason::UnpairedSurrogate => push_str(out, "unpaired Unicode surrogate"),
        JsonLexicalErrorReason::InvalidUtf8 => push_str(out, "invalid UTF-8"),
        JsonLexicalErrorReason::InvalidNumber => push_str(out, "invalid JSON number"),
        JsonLexicalErrorReason::IntegerOutOfRange => push_str(
            out,
            "JSON integer is outside the supported 64-bit range",
        ),
        JsonLexicalErrorReason::FloatOutOfRange => push_str(out, "JSON number is outside the finite f64 range"),
        JsonLexicalErrorReason::TrailingCharacters => push_str(out, "trailing characters"),
        JsonLexicalErrorReason::NestingOverflow => push_str(out, "JSON nesting overflow"),
    }
}

impl JsonLexicalErrorReason {
    /// Returns the stable human-readable description of this reason.
    pub fn to_text(&self) -> (text: String)
        ensures
            text@ == lexical_reason_text(*self),
    {
        let mut text = String::new();
        push_reason_text(&mut text, *self);
        assert(text@ =~= lexical_reason_text(*self));
        text
    }
}

} // verus!
