//! Coarse classification of a top-level JSON value.

use vstd::prelude::*;
use vstd::string::StringSliceAdditionalSpecFns;

use crate::ascii::{
    ascii_case_eq, ascii_lower, ascii_upper_text, lemma_upper_case_keeps_case_eq, str_eq_ignore_ascii_case,
};
use crate::utf8_text::lemma_encode_ascii;

verus! {

/// Coarse top-level kind of a JSON value.
#[non_exhaustive]
#[derive(Debug, Clone, Copy, PartialEq, Eq, Hash, Structural)]
pub enum JsonTopLevelKind {
    /// The top-level value is a JSON object.
    Object,
    /// The top-level value is a JSON array.
    Array,
    /// The top-level value is neither an object nor an array.
    Other,
}

/// JSON insignificant whitespace: space, line feed, carriage return and tab.
pub open spec fn is_json_whitespace(b: u8) -> bool {
    b == 0x20 || b == 0x0a || b == 0x0d || b == 0x09
}

/// The first byte of `bytes` that is not JSON whitespace, if any.
pub open spec fn first_significant_byte(bytes: Seq<u8>) -> Option<u8>
    decreases bytes.len(),
{
    if bytes.len() == 0 {
        None
    } else if is_json_whitespace(bytes[0]) {
        first_significant_byte(bytes.drop_first())
    } else {
        Some(bytes[0])
    }
}

/// The kind that the first significant byte of JSON text announces.
pub open spec fn kind_of_json_text(bytes: Seq<u8>) -> JsonTopLevelKind {
    match first_significant_byte(bytes) {
        Some(b) => if b == 0x7b {
            JsonTopLevelKind::Object
        } else if b == 0x5b {
            JsonTopLevelKind::Array
        } else {
            JsonTopLevelKind::Other
        },
        None => JsonTopLevelKind::Other,
    }
}

impl JsonTopLevelKind {
    /// Classifies validated normalized JSON text by its first JSON token.
    ///
    /// Returns [`Self::Object`] when the first token is `{`, [`Self::Array`]
    /// when it is `[`, and [`Self::Other`] otherwise.
    pub fn of_normalized_json(value: &str) -> (kind: Self)
        ensures
            kind == kind_of_json_text(value.spec_bytes()),
    {
        let bytes = value.as_bytes();
        let mut i: usize = 0;
        assert(bytes@.subrange(0, bytes@.len() as int) =~= bytes@);
        while i < bytes.len()
            invariant
                0 <= i <= bytes@.len(),
                bytes@ == value.spec_bytes(),
                first_significant_byte(bytes@) == first_significant_byte(bytes@.subrange(i as int, bytes@.len() as int)),
            decreases bytes.len() - i,
        {
            let b = bytes[i];
            if b == 0x7b {
                return JsonTopLevelKind::Object;
            } else if b == 0x5b {
                return JsonTopLevelKind::Array;
            } else if !(b == 0x20 || b == 0x0a || b == 0x0d || b == 0x09) {
                return JsonTopLevelKind::Other;
            }
            assert(bytes@.subrange(i as int, bytes@.len() as int).drop_first()
                =~= bytes@.subrange(i + 1, bytes@.len() as int));
            i = i + 1;
        }
        JsonTopLevelKind::Other
    }

    /// The stable lowercase name of a kind.
    pub open spec fn spec_name(self) -> Seq<char> {
        match self {
            JsonTopLevelKind::Object => "object"@,
            JsonTopLevelKind::Array => "array"@,
            JsonTopLevelKind::Other => "other"@,
        }
    }

    /// Returns the stable lowercase name of this top-level kind.
    pub fn name(&self) -> (name: &'static str)
        ensures
            name@ == self.spec_name(),
    {
        match self {
            JsonTopLevelKind::Object => "object",
            JsonTopLevelKind::Array => "array",
            JsonTopLevelKind::Other => "other",
        }
    }

    /// Parses a top-level kind name without ASCII case sensitivity.
    pub fn parse_name(value: &str) -> (parsed: Result<Self, &'static str>)
        ensures
            parsed matches Ok(kind) ==> ascii_case_eq(
                value.spec_bytes(),
                vstd::utf8::encode_utf8(kind.spec_name()),
            ),
            parsed is Err ==> forall|kind: Self|
                !ascii_case_eq(value.spec_bytes(), #[trigger] vstd::utf8::encode_utf8(kind.spec_name())),
            parsed matches Err(message) ==> message@ == "unknown JsonTopLevelKind"@,
    {
        if str_eq_ignore_ascii_case(value, JsonTopLevelKind::Object.name()) {
            Ok(JsonTopLevelKind::Object)
        } else if str_eq_ignore_ascii_case(value, JsonTopLevelKind::Array.name()) {
            Ok(JsonTopLevelKind::Array)
        } else if str_eq_ignore_ascii_case(value, JsonTopLevelKind::Other.name()) {
            Ok(JsonTopLevelKind::Other)
        } else {
            proof {
                assert forall|kind: Self|
                    !ascii_case_eq(value.spec_bytes(), #[trigger] vstd::utf8::encode_utf8(kind.spec_name())) by {
                    match kind {
                        JsonTopLevelKind::Object => {},
                        JsonTopLevelKind::Array => {},
                        JsonTopLevelKind::Other => {},
                    }
                }
            }
            Err("unknown JsonTopLevelKind")
        }
    }
}

impl std::str::FromStr for JsonTopLevelKind {
    type Err = &'static str;

    /// Parses a kind name without ASCII case sensitivity.
    fn from_str(value: &str) -> (parsed: Result<Self, Self::Err>)
        ensures
            parsed matches Ok(kind) ==> ascii_case_eq(
                value.spec_bytes(),
                vstd::utf8::encode_utf8(kind.spec_name()),
            ),
            parsed is Err ==> forall|kind: Self|
                !ascii_case_eq(value.spec_bytes(), #[trigger] vstd::utf8::encode_utf8(kind.spec_name())),
            parsed matches Err(message) ==> message@ == "unknown JsonTopLevelKind"@,
    {
        Self::parse_name(value)
    }
}

/// Every kind's name parses back to that kind: a name equals itself up to
/// ASCII case, and no two kinds have names that are equal up to ASCII case.
pub proof fn lemma_top_level_kind_name_round_trip(kind: JsonTopLevelKind, other: JsonTopLevelKind)
    ensures
        ascii_case_eq(vstd::utf8::encode_utf8(kind.spec_name()), vstd::utf8::encode_utf8(kind.spec_name())),
        ascii_case_eq(vstd::utf8::encode_utf8(kind.spec_name()), vstd::utf8::encode_utf8(other.spec_name()))
            ==> kind == other,
{
    reveal_strlit("object");
    reveal_strlit("array");
    reveal_strlit("other");
    lemma_encode_ascii("object"@);
    lemma_encode_ascii("array"@);
    lemma_encode_ascii("other"@);
    let a = vstd::utf8::encode_utf8(kind.spec_name());
    let b = vstd::utf8::encode_utf8(other.spec_name());
    if ascii_case_eq(a, b) && kind != other {
        assert(ascii_lower(a[0]) == ascii_lower(b[0]));
        assert(ascii_lower(a[1]) == ascii_lower(b[1]));
    }
}

/// A category's name in ASCII upper case parses back to that category: it
/// equals that category's name up to ASCII case, and no other's.
pub proof fn lemma_top_level_kind_upper_case_round_trip(kind: JsonTopLevelKind, other: JsonTopLevelKind)
    ensures
        ascii_case_eq(
            ascii_upper_text(vstd::utf8::encode_utf8(kind.spec_name())),
            vstd::utf8::encode_utf8(other.spec_name()),
        ) <==> kind == other,
{
    lemma_top_level_kind_name_round_trip(kind, other);
    lemma_upper_case_keeps_case_eq(
        vstd::utf8::encode_utf8(kind.spec_name()),
        vstd::utf8::encode_utf8(other.spec_name()),
    );
}

} // verus!
