//! Stable, privacy-aware errors of the lenient JSON decoder.

use vstd::prelude::*;

use crate::error_privacy_policy::ErrorPrivacyPolicy;
use crate::json_decode_error_kind::JsonDecodeErrorKind;
use crate::json_decode_stage::JsonDecodeStage;
use crate::json_top_level_kind::JsonTopLevelKind;
use crate::text::{decimal_chars, push_decimal, push_str};

verus! {

/// The configured size limit that rejected an input.
#[derive(Debug, Clone, Copy, PartialEq, Eq, Structural)]
pub enum JsonInputSizeLimit {
    /// The configured raw input byte limit.
    Raw(usize),
    /// The configured normalized JSON byte limit.
    Normalized(usize),
}

/// The diagnostic of a raw input that exceeds its limit.
pub open spec fn input_too_large_message(raw: usize, max: usize) -> Seq<char> {
    "JSON input is too large: "@ + decimal_chars(raw as nat) + " bytes exceed configured limit "@
        + decimal_chars(max as nat) + " bytes"@
}

/// The diagnostic of a normalized input that exceeds its limit.
pub open spec fn normalized_input_too_large_message(normalized: usize, max: usize) -> Seq<char> {
    "Normalized JSON input is too large: "@ + decimal_chars(normalized as nat)
        + " bytes exceed configured limit "@ + decimal_chars(max as nat) + " bytes"@
}

/// The diagnostic of an input that is empty after normalization.
pub open spec fn empty_input_message() -> Seq<char> {
    "JSON input is empty after normalization"@
}

/// The diagnostic of raw bytes that are not UTF-8.
pub open spec fn invalid_utf8_message(policy: ErrorPrivacyPolicy, detail: Seq<char>) -> Seq<char> {
    match policy {
        ErrorPrivacyPolicy::Redacted => "Failed to decode JSON input as UTF-8"@,
        ErrorPrivacyPolicy::Detailed => "Failed to decode JSON input as UTF-8: "@ + detail,
    }
}

/// The diagnostic of a top-level kind mismatch.
pub open spec fn unexpected_top_level_message(expected: JsonTopLevelKind, actual: JsonTopLevelKind) -> Seq<char> {
    "Unexpected JSON top-level type: expected "@ + expected.spec_name() + ", got "@ + actual.spec_name()
}

/// A diagnostic that holds only a stable prefix and the available parser
/// location.
pub open spec fn redacted_message_chars(prefix: Seq<char>, line: usize, column: usize) -> Seq<char> {
    if line > 0 && column > 0 {
        prefix + " at normalized line "@ + decimal_chars(line as nat) + " column "@ + decimal_chars(column as nat)
    } else if line > 0 {
        prefix + " at normalized line "@ + decimal_chars(line as nat)
    } else if column > 0 {
        prefix + " at normalized column "@ + decimal_chars(column as nat)
    } else {
        prefix
    }
}

/// The diagnostic of a parser failure under a privacy policy.
pub open spec fn parser_failure_message(
    prefix: Seq<char>,
    line: usize,
    column: usize,
    detail: Seq<char>,
    policy: ErrorPrivacyPolicy,
) -> Seq<char> {
    match policy {
        ErrorPrivacyPolicy::Redacted => redacted_message_chars(prefix, line, column),
        ErrorPrivacyPolicy::Detailed => prefix + ": "@ + detail,
    }
}

/// The stable prefix of an invalid-JSON diagnostic.
pub open spec fn invalid_json_prefix() -> Seq<char> {
    "Failed to parse JSON"@
}

/// The stable prefix of a deserialization diagnostic.
pub open spec fn deserialize_prefix() -> Seq<char> {
    "Failed to deserialize JSON value"@
}

/// `Some(value)` for a positive parser coordinate, `None` for zero.
pub open spec fn positive(value: usize) -> Option<usize> {
    if value > 0 {
        Some(value)
    } else {
        None
    }
}

/// The decoding stage at which a failure of `kind` arises.
pub open spec fn stage_of_kind(kind: JsonDecodeErrorKind) -> JsonDecodeStage {
    match kind {
        JsonDecodeErrorKind::InputTooLarge => JsonDecodeStage::Normalize,
        JsonDecodeErrorKind::EmptyInput => JsonDecodeStage::Normalize,
        JsonDecodeErrorKind::InvalidUtf8 => JsonDecodeStage::DecodeText,
        JsonDecodeErrorKind::InvalidJson => JsonDecodeStage::Parse,
        JsonDecodeErrorKind::UnexpectedTopLevel => JsonDecodeStage::TopLevelCheck,
        JsonDecodeErrorKind::Deserialize => JsonDecodeStage::Deserialize,
    }
}

/// A lenient JSON decoding failure with stable, privacy-aware diagnostics.
///
/// Redacted errors retain only stable classifications, sizes and source
/// coordinates; detailed errors also retain the parser's own message.
#[derive(Debug)]
pub struct JsonDecodeError {
    kind: JsonDecodeErrorKind,
    stage: JsonDecodeStage,
    privacy_policy: ErrorPrivacyPolicy,
    message: String,
    expected_top_level: Option<JsonTopLevelKind>,
    actual_top_level: Option<JsonTopLevelKind>,
    raw_input_bytes: usize,
    normalized_input_bytes: Option<usize>,
    size_limit: Option<JsonInputSizeLimit>,
    normalized_line: Option<usize>,
    normalized_column: Option<usize>,
    utf8_valid_up_to: Option<usize>,
    utf8_error_len: Option<usize>,
}

impl JsonDecodeError {
    /// The error category.
    pub closed spec fn spec_kind(self) -> JsonDecodeErrorKind {
        self.kind
    }

    /// The failing stage.
    pub closed spec fn spec_stage(self) -> JsonDecodeStage {
        self.stage
    }

    /// The privacy policy.
    pub closed spec fn spec_privacy_policy(self) -> ErrorPrivacyPolicy {
        self.privacy_policy
    }

    /// The diagnostic message.
    pub closed spec fn spec_message(self) -> Seq<char> {
        self.message@
    }

    /// The required top-level kind.
    pub closed spec fn spec_expected_top_level(self) -> Option<JsonTopLevelKind> {
        self.expected_top_level
    }

    /// The observed top-level kind.
    pub closed spec fn spec_actual_top_level(self) -> Option<JsonTopLevelKind> {
        self.actual_top_level
    }

    /// The raw input length.
    pub closed spec fn spec_raw_input_bytes(self) -> usize {
        self.raw_input_bytes
    }

    /// The normalized input length.
    pub closed spec fn spec_normalized_input_bytes(self) -> Option<usize> {
        self.normalized_input_bytes
    }

    /// The limit that rejected the input.
    pub closed spec fn spec_size_limit(self) -> Option<JsonInputSizeLimit> {
        self.size_limit
    }

    /// The parser line.
    pub closed spec fn spec_normalized_line(self) -> Option<usize> {
        self.normalized_line
    }

    /// The parser column.
    pub closed spec fn spec_normalized_column(self) -> Option<usize> {
        self.normalized_column
    }

    /// The valid UTF-8 prefix length.
    pub closed spec fn spec_utf8_valid_up_to(self) -> Option<usize> {
        self.utf8_valid_up_to
    }

    /// The invalid UTF-8 sequence length.
    pub closed spec fn spec_utf8_error_len(self) -> Option<usize> {
        self.utf8_error_len
    }

    /// The fields that every error without parser or UTF-8 detail shares.
    pub open spec fn has_no_parser_detail(self) -> bool {
        &&& self.spec_expected_top_level() is None
        &&& self.spec_actual_top_level() is None
        &&& self.spec_normalized_line() is None
        &&& self.spec_normalized_column() is None
        &&& self.spec_utf8_valid_up_to() is None
        &&& self.spec_utf8_error_len() is None
    }

    /// The category, stage and metadata agree: the stage is the category's,
    /// a size limit is recorded exactly for oversized input, top-level kinds
    /// exactly for a top-level mismatch, UTF-8 offsets only for invalid
    /// UTF-8, and parser coordinates only for syntax and deserialization
    /// failures.
    pub open spec fn has_consistent_metadata(self) -> bool {
        let kind = self.spec_kind();
        &&& self.spec_stage() == stage_of_kind(kind)
        &&& (self.spec_size_limit() is Some <==> kind == JsonDecodeErrorKind::InputTooLarge)
        &&& (self.spec_expected_top_level() is Some <==> kind == JsonDecodeErrorKind::UnexpectedTopLevel)
        &&& (self.spec_actual_top_level() is Some <==> kind == JsonDecodeErrorKind::UnexpectedTopLevel)
        &&& (self.spec_utf8_valid_up_to() is Some <==> kind == JsonDecodeErrorKind::InvalidUtf8)
        &&& (self.spec_utf8_error_len() is Some ==> kind == JsonDecodeErrorKind::InvalidUtf8)
        &&& (self.spec_normalized_line() is Some || self.spec_normalized_column() is Some) ==> (kind
            == JsonDecodeErrorKind::InvalidJson || kind == JsonDecodeErrorKind::Deserialize)
    }

    /// Every error keeps its metadata consistent.
    #[verifier::type_invariant]
    spec fn metadata_invariant(self) -> bool {
        self.has_consistent_metadata()
    }

    /// The error built by [`Self::input_too_large`].
    pub open spec fn is_input_too_large(self, raw: usize, max: usize, policy: ErrorPrivacyPolicy) -> bool {
        &&& self.spec_kind() == JsonDecodeErrorKind::InputTooLarge
        &&& self.spec_stage() == JsonDecodeStage::Normalize
        &&& self.spec_privacy_policy() == policy
        &&& self.spec_message() == input_too_large_message(raw, max)
        &&& self.spec_raw_input_bytes() == raw
        &&& self.spec_normalized_input_bytes() is None
        &&& self.spec_size_limit() == Some(JsonInputSizeLimit::Raw(max))
        &&& self.has_no_parser_detail()
    }

    /// The error built by [`Self::normalized_input_too_large`].
    pub open spec fn is_normalized_input_too_large(
        self,
        raw: usize,
        normalized: usize,
        max: usize,
        policy: ErrorPrivacyPolicy,
    ) -> bool {
        &&& self.spec_kind() == JsonDecodeErrorKind::InputTooLarge
        &&& self.spec_stage() == JsonDecodeStage::Normalize
        &&& self.spec_privacy_policy() == policy
        &&& self.spec_message() == normalized_input_too_large_message(normalized, max)
        &&& self.spec_raw_input_bytes() == raw
        &&& self.spec_normalized_input_bytes() == Some(normalized)
        &&& self.spec_size_limit() == Some(JsonInputSizeLimit::Normalized(max))
        &&& self.has_no_parser_detail()
    }

    /// The error built by [`Self::empty_input`].
    pub open spec fn is_empty_input(self, raw: usize, normalized: Option<usize>, policy: ErrorPrivacyPolicy) -> bool {
        &&& self.spec_kind() == JsonDecodeErrorKind::EmptyInput
        &&& self.spec_stage() == JsonDecodeStage::Normalize
        &&& self.spec_privacy_policy() == policy
        &&& self.spec_message() == empty_input_message()
        &&& self.spec_raw_input_bytes() == raw
        &&& self.spec_normalized_input_bytes() == normalized
        &&& self.spec_size_limit() is None
        &&& self.has_no_parser_detail()
    }

    /// Creates an error for raw input that exceeds the configured size limit.
    pub fn input_too_large(
        raw_input_bytes: usize,
        max_input_bytes: usize,
        privacy_policy: ErrorPrivacyPolicy,
    ) -> (error: Self)
        ensures
            error.is_input_too_large(raw_input_bytes, max_input_bytes, privacy_policy),
    {
        let mut message = String::new();
        push_str(&mut message, "JSON input is too large: ");
        push_decimal(&mut message, raw_input_bytes as u128);
        push_str(&mut message, " bytes exceed configured limit ");
        push_decimal(&mut message, max_input_bytes as u128);
        push_str(&mut message, " bytes");
        assert(message@ =~= input_too_large_message(raw_input_bytes, max_input_bytes));
        JsonDecodeError {
            kind: JsonDecodeErrorKind::InputTooLarge,
            stage: JsonDecodeStage::Normalize,
            privacy_policy,
            message,
            expected_top_level: None,
            actual_top_level: None,
            raw_input_bytes,
            normalized_input_bytes: None,
            size_limit: Some(JsonInputSizeLimit::Raw(max_input_bytes)),
            normalized_line: None,
            normalized_column: None,
            utf8_valid_up_to: None,
            utf8_error_len: None,
        }
    }

    /// Creates an error for normalized input that exceeds its configured limit.
    pub fn normalized_input_too_large(
        raw_input_bytes: usize,
        normalized_input_bytes: usize,
        max_normalized_bytes: usize,
        privacy_policy: ErrorPrivacyPolicy,
    ) -> (error: Self)
        ensures
            error.is_normalized_input_too_large(
                raw_input_bytes,
                normalized_input_bytes,
                max_normalized_bytes,
                privacy_policy,
            ),
    {
        let mut message = String::new();
        push_str(&mut message, "Normalized JSON input is too large: ");
        push_decimal(&mut message, normalized_input_bytes as u128);
        push_str(&mut message, " bytes exceed configured limit ");
        push_decimal(&mut message, max_normalized_bytes as u128);
        push_str(&mut message, " bytes");
        assert(message@ =~= normalized_input_too_large_message(normalized_input_bytes, max_normalized_bytes));
        JsonDecodeError {
            kind: JsonDecodeErrorKind::InputTooLarge,
            stage: JsonDecodeStage::Normalize,
            privacy_policy,
            message,
            expected_top_level: None,
            actual_top_level: None,
            raw_input_bytes,
            normalized_input_bytes: Some(normalized_input_bytes),
            size_limit: Some(JsonInputSizeLimit::Normalized(max_normalized_bytes)),
            normalized_line: None,
            normalized_column: None,
            utf8_valid_up_to: None,
            utf8_error_len: None,
        }
    }

    /// Creates an error for input that is empty at a normalization boundary.
    pub fn empty_input(
        raw_input_bytes: usize,
        normalized_input_bytes: Option<usize>,
        privacy_policy: ErrorPrivacyPolicy,
    ) -> (error: Self)
        ensures
            error.is_empty_input(raw_input_bytes, normalized_input_bytes, privacy_policy),
    {
        let mut message = String::new();
        push_str(&mut message, "JSON input is empty after normalization");
        assert(message@ =~= empty_input_message());
        JsonDecodeError {
            kind: JsonDecodeErrorKind::EmptyInput,
            stage: JsonDecodeStage::Normalize,
            privacy_policy,
            message,
            expected_top_level: None,
            actual_top_level: None,
            raw_input_bytes,
            normalized_input_bytes,
            size_limit: None,
            normalized_line: None,
            normalized_column: None,
            utf8_valid_up_to: None,
            utf8_error_len: None,
        }
    }

    /// The error built by [`Self::invalid_utf8`].
    pub open spec fn is_invalid_utf8(
        self,
        valid_up_to: usize,
        error_len: Option<usize>,
        detail: Seq<char>,
        raw: usize,
        policy: ErrorPrivacyPolicy,
    ) -> bool {
        &&& self.spec_kind() == JsonDecodeErrorKind::InvalidUtf8
        &&& self.spec_stage() == JsonDecodeStage::DecodeText
        &&& self.spec_privacy_policy() == policy
        &&& self.spec_message() == invalid_utf8_message(policy, detail)
        &&& self.spec_raw_input_bytes() == raw
        &&& self.spec_normalized_input_bytes() is None
        &&& self.spec_size_limit() is None
        &&& self.spec_expected_top_level() is None
        &&& self.spec_actual_top_level() is None
        &&& self.spec_normalized_line() is None
        &&& self.spec_normalized_column() is None
        &&& self.spec_utf8_valid_up_to() == Some(valid_up_to)
        &&& self.spec_utf8_error_len() == error_len
    }

    /// The error built from a parser failure by [`Self::from_parser_failure`].
    pub open spec fn is_parser_failure(
        self,
        kind: JsonDecodeErrorKind,
        stage: JsonDecodeStage,
        prefix: Seq<char>,
        line: usize,
        column: usize,
        detail: Seq<char>,
        raw: usize,
        normalized: usize,
        policy: ErrorPrivacyPolicy,
    ) -> bool {
        &&& self.spec_kind() == kind
        &&& self.spec_stage() == stage
        &&& self.spec_privacy_policy() == policy
        &&& self.spec_message() == parser_failure_message(prefix, line, column, detail, policy)
        &&& self.spec_raw_input_bytes() == raw
        &&& self.spec_normalized_input_bytes() == Some(normalized)
        &&& self.spec_size_limit() is None
        &&& self.spec_expected_top_level() is None
        &&& self.spec_actual_top_level() is None
        &&& self.spec_normalized_line() == positive(line)
        &&& self.spec_normalized_column() == positive(column)
        &&& self.spec_utf8_valid_up_to() is None
        &&& self.spec_utf8_error_len() is None
    }

    /// The error built by [`Self::invalid_json`].
    pub open spec fn is_invalid_json(
        self,
        line: usize,
        column: usize,
        detail: Seq<char>,
        raw: usize,
        normalized: usize,
        policy: ErrorPrivacyPolicy,
    ) -> bool {
        self.is_parser_failure(
            JsonDecodeErrorKind::InvalidJson,
            JsonDecodeStage::Parse,
            invalid_json_prefix(),
            line,
            column,
            detail,
            raw,
            normalized,
            policy,
        )
    }

    /// The error built by [`Self::deserialize`].
    pub open spec fn is_deserialize(
        self,
        line: usize,
        column: usize,
        detail: Seq<char>,
        raw: usize,
        normalized: usize,
        policy: ErrorPrivacyPolicy,
    ) -> bool {
        self.is_parser_failure(
            JsonDecodeErrorKind::Deserialize,
            JsonDecodeStage::Deserialize,
            deserialize_prefix(),
            line,
            column,
            detail,
            raw,
            normalized,
            policy,
        )
    }

    /// The error built by [`Self::unexpected_top_level`].
    pub open spec fn is_unexpected_top_level(
        self,
        expected: JsonTopLevelKind,
        actual: JsonTopLevelKind,
        raw: usize,
        normalized: usize,
        policy: ErrorPrivacyPolicy,
    ) -> bool {
        &&& self.spec_kind() == JsonDecodeErrorKind::UnexpectedTopLevel
        &&& self.spec_stage() == JsonDecodeStage::TopLevelCheck
        &&& self.spec_privacy_policy() == policy
        &&& self.spec_message() == unexpected_top_level_message(expected, actual)
        &&& self.spec_raw_input_bytes() == raw
        &&& self.spec_normalized_input_bytes() == Some(normalized)
        &&& self.spec_size_limit() is None
        &&& self.spec_expected_top_level() == Some(expected)
        &&& self.spec_actual_top_level() == Some(actual)
        &&& self.spec_normalized_line() is None
        &&& self.spec_normalized_column() is None
        &&& self.spec_utf8_valid_up_to() is None
        &&& self.spec_utf8_error_len() is None
    }

    /// Creates an error for raw bytes that are not valid UTF-8; `detail` is
    /// the UTF-8 validator's own description, kept only in detailed mode.
    pub fn invalid_utf8(
        valid_up_to: usize,
        error_len: Option<usize>,
        detail: &str,
        raw_input_bytes: usize,
        privacy_policy: ErrorPrivacyPolicy,
    ) -> (error: Self)
        ensures
            error.is_invalid_utf8(valid_up_to, error_len, detail@, raw_input_bytes, privacy_policy),
    {
        let mut message = String::new();
        match privacy_policy {
            ErrorPrivacyPolicy::Redacted => {
                push_str(&mut message, "Failed to decode JSON input as UTF-8");
            },
            ErrorPrivacyPolicy::Detailed => {
                push_str(&mut message, "Failed to decode JSON input as UTF-8: ");
                push_str(&mut message, detail);
            },
        }
        assert(message@ =~= invalid_utf8_message(privacy_policy, detail@));
        JsonDecodeError {
            kind: JsonDecodeErrorKind::InvalidUtf8,
            stage: JsonDecodeStage::DecodeText,
            privacy_policy,
            message,
            expected_top_level: None,
            actual_top_level: None,
            raw_input_bytes,
            normalized_input_bytes: None,
            size_limit: None,
            normalized_line: None,
            normalized_column: None,
            utf8_valid_up_to: Some(valid_up_to),
            utf8_error_len: error_len,
        }
    }

    /// Builds a diagnostic that holds only a stable prefix and the
    /// available parser location.
    pub(crate) fn redacted_message(prefix: &str, line: usize, column: usize) -> (message: String)
        ensures
            message@ == redacted_message_chars(prefix@, line, column),
    {
        let mut message = String::new();
        push_str(&mut message, prefix);
        if line > 0 && column > 0 {
            push_str(&mut message, " at normalized line ");
            push_decimal(&mut message, line as u128);
            push_str(&mut message, " column ");
            push_decimal(&mut message, column as u128);
        } else if line > 0 {
            push_str(&mut message, " at normalized line ");
            push_decimal(&mut message, line as u128);
        } else if column > 0 {
            push_str(&mut message, " at normalized column ");
            push_decimal(&mut message, column as u128);
        }
        assert(message@ =~= redacted_message_chars(prefix@, line, column));
        message
    }

    /// Creates an error from a parser failure: the message keeps the parser
    /// text only in detailed mode, and positive coordinates are retained.
    pub(crate) fn from_parser_failure(
        kind: JsonDecodeErrorKind,
        stage: JsonDecodeStage,
        prefix: &str,
        line: usize,
        column: usize,
        detail: &str,
        raw_input_bytes: usize,
        normalized_input_bytes: usize,
        privacy_policy: ErrorPrivacyPolicy,
    ) -> (error: Self)
        requires
            kind == JsonDecodeErrorKind::InvalidJson || kind == JsonDecodeErrorKind::Deserialize,
            stage == stage_of_kind(kind),
        ensures
            error.is_parser_failure(
                kind,
                stage,
                prefix@,
                line,
                column,
                detail@,
                raw_input_bytes,
                normalized_input_bytes,
                privacy_policy,
            ),
    {
        let message = match privacy_policy {
            ErrorPrivacyPolicy::Redacted => Self::redacted_message(prefix, line, column),
            ErrorPrivacyPolicy::Detailed => {
                let mut message = String::new();
                push_str(&mut message, prefix);
                push_str(&mut message, ": ");
                push_str(&mut message, detail);
                assert(message@ =~= prefix@ + ": "@ + detail@);
                message
            },
        };
        JsonDecodeError {
            kind,
            stage,
            privacy_policy,
            message,
            expected_top_level: None,
            actual_top_level: None,
            raw_input_bytes,
            normalized_input_bytes: Some(normalized_input_bytes),
            size_limit: None,
            normalized_line: if line > 0 { Some(line) } else { None },
            normalized_column: if column > 0 { Some(column) } else { None },
            utf8_valid_up_to: None,
            utf8_error_len: None,
        }
    }

    /// Creates an error for invalid normalized JSON syntax.
    pub fn invalid_json(
        line: usize,
        column: usize,
        detail: &str,
        raw_input_bytes: usize,
        normalized_input_bytes: usize,
        privacy_policy: ErrorPrivacyPolicy,
    ) -> (error: Self)
        ensures
            error.is_invalid_json(line, column, detail@, raw_input_bytes, normalized_input_bytes, privacy_policy),
    {
        Self::from_parser_failure(
            JsonDecodeErrorKind::InvalidJson,
            JsonDecodeStage::Parse,
            "Failed to parse JSON",
            line,
            column,
            detail,
            raw_input_bytes,
            normalized_input_bytes,
            privacy_policy,
        )
    }

    /// Creates an error for valid JSON that cannot deserialize into the
    /// target.
    pub fn deserialize(
        line: usize,
        column: usize,
        detail: &str,
        raw_input_bytes: usize,
        normalized_input_bytes: usize,
        privacy_policy: ErrorPrivacyPolicy,
    ) -> (error: Self)
        ensures
            error.is_deserialize(line, column, detail@, raw_input_bytes, normalized_input_bytes, privacy_policy),
    {
        Self::from_parser_failure(
            JsonDecodeErrorKind::Deserialize,
            JsonDecodeStage::Deserialize,
            "Failed to deserialize JSON value",
            line,
            column,
            detail,
            raw_input_bytes,
            normalized_input_bytes,
            privacy_policy,
        )
    }

    /// Creates an error for a valid JSON value with an unexpected top-level
    /// kind.
    pub fn unexpected_top_level(
        expected: JsonTopLevelKind,
        actual: JsonTopLevelKind,
        raw_input_bytes: usize,
        normalized_input_bytes: usize,
        privacy_policy: ErrorPrivacyPolicy,
    ) -> (error: Self)
        ensures
            error.is_unexpected_top_level(expected, actual, raw_input_bytes, normalized_input_bytes, privacy_policy),
    {
        let mut message = String::new();
        push_str(&mut message, "Unexpected JSON top-level type: expected ");
        push_str(&mut message, expected.name());
        push_str(&mut message, ", got ");
        push_str(&mut message, actual.name());
        assert(message@ =~= unexpected_top_level_message(expected, actual));
        JsonDecodeError {
            kind: JsonDecodeErrorKind::UnexpectedTopLevel,
            stage: JsonDecodeStage::TopLevelCheck,
            privacy_policy,
            message,
            expected_top_level: Some(expected),
            actual_top_level: Some(actual),
            raw_input_bytes,
            normalized_input_bytes: Some(normalized_input_bytes),
            size_limit: None,
            normalized_line: None,
            normalized_column: None,
            utf8_valid_up_to: None,
            utf8_error_len: None,
        }
    }

    /// Returns the stable category of this decoding failure.
    pub fn kind(&self) -> (kind: JsonDecodeErrorKind)
        ensures
            kind == self.spec_kind(),
            self.has_consistent_metadata(),
    {
        proof {
            use_type_invariant(self);
        }
        self.kind
    }

    /// Returns the decoding stage that produced this error.
    pub fn stage(&self) -> (stage: JsonDecodeStage)
        ensures
            stage == self.spec_stage(),
            stage == stage_of_kind(self.spec_kind()),
    {
        proof {
            use_type_invariant(self);
        }
        self.stage
    }

    /// Returns the privacy policy applied when this error was constructed.
    pub fn privacy_policy(&self) -> (policy: ErrorPrivacyPolicy)
        ensures
            policy == self.spec_privacy_policy(),
    {
        self.privacy_policy
    }

    /// Returns the human-readable diagnostic message.
    pub fn message(&self) -> (message: &str)
        ensures
            message@ == self.spec_message(),
    {
        self.message.as_str()
    }

    /// Returns the required top-level kind of a rejected constrained decode.
    pub fn expected_top_level(&self) -> (kind: Option<JsonTopLevelKind>)
        ensures
            kind == self.spec_expected_top_level(),
    {
        self.expected_top_level
    }

    /// Returns the observed top-level kind of a rejected constrained decode.
    pub fn actual_top_level(&self) -> (kind: Option<JsonTopLevelKind>)
        ensures
            kind == self.spec_actual_top_level(),
    {
        self.actual_top_level
    }

    /// Returns the byte length of the input before normalization.
    pub fn raw_input_bytes(&self) -> (bytes: usize)
        ensures
            bytes == self.spec_raw_input_bytes(),
    {
        self.raw_input_bytes
    }

    /// Returns the valid UTF-8 prefix length for invalid byte input.
    pub fn utf8_valid_up_to(&self) -> (length: Option<usize>)
        ensures
            length == self.spec_utf8_valid_up_to(),
    {
        self.utf8_valid_up_to
    }

    /// Returns the length of the invalid UTF-8 sequence, when known.
    pub fn utf8_error_len(&self) -> (length: Option<usize>)
        ensures
            length == self.spec_utf8_error_len(),
    {
        self.utf8_error_len
    }

    /// Returns the byte length of normalized JSON text, when known.
    pub fn normalized_input_bytes(&self) -> (bytes: Option<usize>)
        ensures
            bytes == self.spec_normalized_input_bytes(),
    {
        self.normalized_input_bytes
    }

    /// Returns the configured raw-input limit of a raw size failure.
    pub fn max_input_bytes(&self) -> (limit: Option<usize>)
        ensures
            limit == match self.spec_size_limit() {
                Some(JsonInputSizeLimit::Raw(limit)) => Some(limit),
                _ => None,
            },
    {
        match self.size_limit {
            Some(JsonInputSizeLimit::Raw(limit)) => Some(limit),
            _ => None,
        }
    }

    /// Returns the configured normalized-input limit of a normalized size
    /// failure.
    pub fn max_normalized_bytes(&self) -> (limit: Option<usize>)
        ensures
            limit == match self.spec_size_limit() {
                Some(JsonInputSizeLimit::Normalized(limit)) => Some(limit),
                _ => None,
            },
    {
        match self.size_limit {
            Some(JsonInputSizeLimit::Normalized(limit)) => Some(limit),
            _ => None,
        }
    }

    /// Returns the one-based parser line in normalized JSON text, when known.
    pub fn normalized_line(&self) -> (line: Option<usize>)
        ensures
            line == self.spec_normalized_line(),
    {
        self.normalized_line
    }

    /// Returns the one-based parser column in normalized JSON text, when
    /// known.
    pub fn normalized_column(&self) -> (column: Option<usize>)
        ensures
            column == self.spec_normalized_column(),
    {
        self.normalized_column
    }
}

impl PartialEq for JsonDecodeError {
    /// Compares every diagnostic field.
    fn eq(&self, other: &Self) -> (equal: bool) {
        self.kind == other.kind && self.stage == other.stage && self.privacy_policy == other.privacy_policy
            && self.message == other.message && self.expected_top_level == other.expected_top_level
            && self.actual_top_level == other.actual_top_level && self.raw_input_bytes == other.raw_input_bytes
            && self.normalized_input_bytes == other.normalized_input_bytes && self.size_limit == other.size_limit
            && self.normalized_line == other.normalized_line && self.normalized_column == other.normalized_column
            && self.utf8_valid_up_to == other.utf8_valid_up_to && self.utf8_error_len == other.utf8_error_len
    }
}

impl Eq for JsonDecodeError {}

impl Clone for JsonDecodeError {
    /// Copies every diagnostic field.
    fn clone(&self) -> (copy: Self)
        ensures
            copy == *self,
    {
        proof {
            use_type_invariant(self);
        }
        JsonDecodeError {
            kind: self.kind,
            stage: self.stage,
            privacy_policy: self.privacy_policy,
            message: self.message.clone(),
            expected_top_level: self.expected_top_level,
            actual_top_level: self.actual_top_level,
            raw_input_bytes: self.raw_input_bytes,
            normalized_input_bytes: self.normalized_input_bytes,
            size_limit: self.size_limit,
            normalized_line: self.normalized_line,
            normalized_column: self.normalized_column,
            utf8_valid_up_to: self.utf8_valid_up_to,
            utf8_error_len: self.utf8_error_len,
        }
    }
}

impl vstd::std_specs::cmp::PartialEqSpecImpl for JsonDecodeError {
    open spec fn obeys_eq_spec() -> bool {
        true
    }

    open spec fn eq_spec(&self, other: &Self) -> bool {
        &&& self.spec_kind() == other.spec_kind()
        &&& self.spec_stage() == other.spec_stage()
        &&& self.spec_privacy_policy() == other.spec_privacy_policy()
        &&& self.spec_message() == other.spec_message()
        &&& self.spec_expected_top_level() == other.spec_expected_top_level()
        &&& self.spec_actual_top_level() == other.spec_actual_top_level()
        &&& self.spec_raw_input_bytes() == other.spec_raw_input_bytes()
        &&& self.spec_normalized_input_bytes() == other.spec_normalized_input_bytes()
        &&& self.spec_size_limit() == other.spec_size_limit()
        &&& self.spec_normalized_line() == other.spec_normalized_line()
        &&& self.spec_normalized_column() == other.spec_normalized_column()
        &&& self.spec_utf8_valid_up_to() == other.spec_utf8_valid_up_to()
        &&& self.spec_utf8_error_len() == other.spec_utf8_error_len()
    }
}


/// Under the redacted policy a parser failure's description never holds
/// the parser's own, input-derived text: two failures that differ only in
/// that text are described alike.
pub proof fn lemma_redacted_parser_failure_ignores_detail(
    first: JsonDecodeError,
    second: JsonDecodeError,
    kind: JsonDecodeErrorKind,
    stage: JsonDecodeStage,
    prefix: Seq<char>,
    line: usize,
    column: usize,
    first_detail: Seq<char>,
    second_detail: Seq<char>,
    raw: usize,
    normalized: usize,
)
    requires
        first.is_parser_failure(
            kind,
            stage,
            prefix,
            line,
            column,
            first_detail,
            raw,
            normalized,
            ErrorPrivacyPolicy::Redacted,
        ),
        second.is_parser_failure(
            kind,
            stage,
            prefix,
            line,
            column,
            second_detail,
            raw,
            normalized,
            ErrorPrivacyPolicy::Redacted,
        ),
    ensures
        first.spec_message() == second.spec_message(),
        first.spec_message() == redacted_message_chars(prefix, line, column),
{
}

/// Under the redacted policy an invalid-UTF-8 description never holds the
/// validator's text, and both policies keep the same safe byte offsets.
pub proof fn lemma_redacted_utf8_failure_ignores_detail(
    first: JsonDecodeError,
    second: JsonDecodeError,
    valid_up_to: usize,
    error_len: Option<usize>,
    first_detail: Seq<char>,
    second_detail: Seq<char>,
    raw: usize,
)
    requires
        first.is_invalid_utf8(valid_up_to, error_len, first_detail, raw, ErrorPrivacyPolicy::Redacted),
        second.is_invalid_utf8(valid_up_to, error_len, second_detail, raw, ErrorPrivacyPolicy::Redacted),
    ensures
        first.spec_message() == second.spec_message(),
        first.spec_utf8_valid_up_to() == Some(valid_up_to),
        first.spec_utf8_error_len() == error_len,
{
}

} // verus!
