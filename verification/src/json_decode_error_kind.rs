//! Stable categories of JSON decoding failures.

use vstd::prelude::*;
use vstd::string::StringSliceAdditionalSpecFns;

use crate::ascii::{
    ascii_case_eq, ascii_lower, ascii_upper_text, lemma_upper_case_keeps_case_eq, str_eq_ignore_ascii_case,
};
use crate::utf8_text::lemma_encode_ascii;

verus! {

/// Stable category of a JSON decoding failure.
#[non_exhaustive]
#[derive(Debug, Clone, Copy, PartialEq, Eq, Hash, Structural)]
pub enum JsonDecodeErrorKind {
    /// Raw or normalized input size exceeds a configured maximum.
    InputTooLarge,
    /// The input became empty after normalization.
    EmptyInput,
    /// The raw byte input is not valid UTF-8 text.
    InvalidUtf8,
    /// The normalized text is not valid JSON syntax.
    InvalidJson,
    /// The parsed top-level JSON kind is not the one required by the
    /// decoding method.
    UnexpectedTopLevel,
    /// The JSON syntax is valid but the value cannot be deserialized into the
    /// requested Rust type.
    Deserialize,
}

impl JsonDecodeErrorKind {
    /// The stable snake-case name of a category.
    pub open spec fn spec_name(self) -> Seq<char> {
        match self {
            JsonDecodeErrorKind::InputTooLarge => "input_too_large"@,
            JsonDecodeErrorKind::EmptyInput => "empty_input"@,
            JsonDecodeErrorKind::InvalidUtf8 => "invalid_utf8"@,
            JsonDecodeErrorKind::InvalidJson => "invalid_json"@,
            JsonDecodeErrorKind::UnexpectedTopLevel => "unexpected_top_level"@,
            JsonDecodeErrorKind::Deserialize => "deserialize"@,
        }
    }

    /// Returns the stable snake-case name of this error category.
    pub fn name(&self) -> (name: &'static str)
        ensures
            name@ == self.spec_name(),
    {
        match self {
            JsonDecodeErrorKind::InputTooLarge => "input_too_large",
            JsonDecodeErrorKind::EmptyInput => "empty_input",
            JsonDecodeErrorKind::InvalidUtf8 => "invalid_utf8",
            JsonDecodeErrorKind::InvalidJson => "invalid_json",
            JsonDecodeErrorKind::UnexpectedTopLevel => "unexpected_top_level",
            JsonDecodeErrorKind::Deserialize => "deserialize",
        }
    }

    /// Parses a stable snake-case category name without ASCII case
    /// sensitivity.
    pub fn parse_name(value: &str) -> (parsed: Result<Self, &'static str>)
        ensures
            parsed matches Ok(kind) ==> ascii_case_eq(
                value.spec_bytes(),
                vstd::utf8::encode_utf8(kind.spec_name()),
            ),
            parsed is Err ==> forall|kind: Self|
                !ascii_case_eq(value.spec_bytes(), #[trigger] vstd::utf8::encode_utf8(kind.spec_name())),
            parsed matches Err(message) ==> message@ == "unknown JsonDecodeErrorKind"@,
    {
        if str_eq_ignore_ascii_case(value, JsonDecodeErrorKind::InputTooLarge.name()) {
            Ok(JsonDecodeErrorKind::InputTooLarge)
        } else if str_eq_ignore_ascii_case(value, JsonDecodeErrorKind::EmptyInput.name()) {
            Ok(JsonDecodeErrorKind::EmptyInput)
        } else if str_eq_ignore_ascii_case(value, JsonDecodeErrorKind::InvalidUtf8.name()) {
            Ok(JsonDecodeErrorKind::InvalidUtf8)
        } else if str_eq_ignore_ascii_case(value, JsonDecodeErrorKind::InvalidJson.name()) {
            Ok(JsonDecodeErrorKind::InvalidJson)
        } else if str_eq_ignore_ascii_case(value, JsonDecodeErrorKind::UnexpectedTopLevel.name()) {
            Ok(JsonDecodeErrorKind::UnexpectedTopLevel)
        } else if str_eq_ignore_ascii_case(value, JsonDecodeErrorKind::Deserialize.name()) {
            Ok(JsonDecodeErrorKind::Deserialize)
        } else {
            proof {
                assert forall|kind: Self|
                    !ascii_case_eq(value.spec_bytes(), #[trigger] vstd::utf8::encode_utf8(kind.spec_name())) by {
                    match kind {
                        JsonDecodeErrorKind::InputTooLarge => {},
                        JsonDecodeErrorKind::EmptyInput => {},
                        JsonDecodeErrorKind::InvalidUtf8 => {},
                        JsonDecodeErrorKind::InvalidJson => {},
                        JsonDecodeErrorKind::UnexpectedTopLevel => {},
                        JsonDecodeErrorKind::Deserialize => {},
                    }
                }
            }
            Err("unknown JsonDecodeErrorKind")
        }
    }
}

impl std::str::FromStr for JsonDecodeErrorKind {
    type Err = &'static str;

    /// Parses a category name without ASCII case sensitivity.
    fn from_str(value: &str) -> (parsed: Result<Self, Self::Err>)
        ensures
            parsed matches Ok(kind) ==> ascii_case_eq(
                value.spec_bytes(),
                vstd::utf8::encode_utf8(kind.spec_name()),
            ),
            parsed is Err ==> forall|kind: Self|
                !ascii_case_eq(value.spec_bytes(), #[trigger] vstd::utf8::encode_utf8(kind.spec_name())),
            parsed matches Err(message) ==> message@ == "unknown JsonDecodeErrorKind"@,
    {
        Self::parse_name(value)
    }
}

/// Every category's name parses back to that category: a name equals itself
/// up to ASCII case, and no two categories have names that are equal up to
/// ASCII case.
pub proof fn lemma_decode_error_kind_name_round_trip(kind: JsonDecodeErrorKind, other: JsonDecodeErrorKind)
    ensures
        ascii_case_eq(vstd::utf8::encode_utf8(kind.spec_name()), vstd::utf8::encode_utf8(kind.spec_name())),
        ascii_case_eq(vstd::utf8::encode_utf8(kind.spec_name()), vstd::utf8::encode_utf8(other.spec_name()))
            ==> kind == other,
{
    reveal_strlit("input_too_large");
    reveal_strlit("empty_input");
    reveal_strlit("invalid_utf8");
    reveal_strlit("invalid_json");
    reveal_strlit("unexpected_top_level");
    reveal_strlit("deserialize");
    lemma_encode_ascii("input_too_large"@);
    lemma_encode_ascii("empty_input"@);
    lemma_encode_ascii("invalid_utf8"@);
    lemma_encode_ascii("invalid_json"@);
    lemma_encode_ascii("unexpected_top_level"@);
    lemma_encode_ascii("deserialize"@);
    let a = vstd::utf8::encode_utf8(kind.spec_name());
    let b = vstd::utf8::encode_utf8(other.spec_name());
    if ascii_case_eq(a, b) && kind != other {
        assert(ascii_lower(a[0]) == ascii_lower(b[0]));
        assert(ascii_lower(a[8]) == ascii_lower(b[8]));
    }
}

/// A category's name in ASCII upper case parses back to that category: it
/// equals that category's name up to ASCII case, and no other's.
pub proof fn lemma_decode_error_kind_upper_case_round_trip(kind: JsonDecodeErrorKind, other: JsonDecodeErrorKind)
    ensures
        ascii_case_eq(
            ascii_upper_text(vstd::utf8::encode_utf8(kind.spec_name())),
            vstd::utf8::encode_utf8(other.spec_name()),
        ) <==> kind == other,
{
    lemma_decode_error_kind_name_round_trip(kind, other);
    lemma_upper_case_keeps_case_eq(
        vstd::utf8::encode_utf8(kind.spec_name()),
        vstd::utf8::encode_utf8(other.spec_name()),
    );
}

} // verus!
