//! Errors of the budgeted lenient decoder.
//!
//! A failure keeps the sizes and coordinates that describe it. Input-derived
//! text (a UTF-8 validator's or parser's description) is retained only under
//! the detailed privacy policy; a budget rejection keeps the budget's own
//! description and the resource it concerns.

use qubit_budget::json::JsonResource;
use vstd::prelude::*;

use crate::error_privacy_policy::ErrorPrivacyPolicy;
use crate::json_decode_stage::LenientJsonDecodeStage;
use crate::json_top_level_kind::JsonTopLevelKind;
use crate::lexical::json_lexical_failure::{failure_text, JsonLexicalFailure};
use crate::text::{decimal_chars, push_decimal, push_str};

verus! {

#[verifier::external_type_specification]
#[verifier::external_body]
pub struct ExJsonResource(JsonResource);

/// Compares two resources with the derived `==` of
/// `qubit_budget::json::JsonResource`, a field-less enum: it holds exactly
/// for the same variant.
#[verifier::external_body]
fn same_resource(left: JsonResource, right: JsonResource) -> (same: bool)
    ensures
        same == (left == right),
{
    left == right
}

/// Stable categories of budgeted lenient decoding failures.
#[non_exhaustive]
#[derive(Debug, Clone, Copy, PartialEq, Eq, Hash, Structural)]
pub enum LenientJsonDecodeErrorKind {
    /// The raw bytes are not UTF-8.
    InvalidUtf8,
    /// The raw or normalized input exceeds its configured byte limit.
    InputTooLarge,
    /// Nothing is left after normalization.
    EmptyInput,
    /// The normalized text is not valid JSON.
    InvalidJson,
    /// A resource budget rejected the input.
    Budget,
    /// The top-level JSON value has an unexpected kind.
    UnexpectedTopLevel,
    /// The JSON value does not match the target type.
    Deserialize,
}

/// What a budgeted lenient decoding failure records.
///
/// The `detail` of a UTF-8, syntax or deserialization failure is the
/// validator's or parser's description, kept only under the detailed privacy
/// policy; that of a budget failure is the budget's own description.
#[allow(inconsistent_fields)]
#[derive(Debug)]
pub enum LenientJsonDecodeFailure {
    /// The raw bytes are not UTF-8.
    InvalidUtf8 {
        raw_input_bytes: usize,
        valid_up_to: usize,
        error_len: Option<usize>,
        detail: Option<String>,
    },
    /// The raw input exceeds its byte limit.
    InputTooLarge { raw_input_bytes: usize, maximum: usize },
    /// The normalized input exceeds its byte limit.
    NormalizedInputTooLarge { raw_input_bytes: usize, normalized_input_bytes: usize, maximum: usize },
    /// Nothing is left after normalization.
    EmptyInput { raw_input_bytes: usize, normalized_input_bytes: Option<usize> },
    /// The normalized text is not valid JSON.
    InvalidJson {
        raw_input_bytes: usize,
        normalized_input_bytes: usize,
        line: usize,
        column: usize,
        detail: Option<String>,
    },
    /// A resource budget rejected the input.
    Budget {
        raw_input_bytes: usize,
        normalized_input_bytes: Option<usize>,
        resource: JsonResource,
        detail: String,
    },
    /// The top-level JSON value has an unexpected kind.
    UnexpectedTopLevel {
        raw_input_bytes: usize,
        normalized_input_bytes: usize,
        expected: JsonTopLevelKind,
        actual: JsonTopLevelKind,
    },
    /// The JSON value does not match the target type.
    Deserialize {
        raw_input_bytes: usize,
        normalized_input_bytes: usize,
        line: usize,
        column: usize,
        detail: Option<String>,
    },
}

/// Whether `retained` is what a failure keeps of the description `text`
/// under `policy`: nothing when redacted, the text itself when detailed.
pub open spec fn retains_detail(retained: Option<String>, text: Seq<char>, policy: ErrorPrivacyPolicy) -> bool {
    match policy {
        ErrorPrivacyPolicy::Redacted => retained is None,
        ErrorPrivacyPolicy::Detailed => retained matches Some(kept) && kept@ == text,
    }
}

/// The description of a failed input step: the retained detail when there
/// is one, otherwise the prefix with the positive parser coordinates.
pub open spec fn input_failure_text(prefix: Seq<char>, line: usize, column: usize, detail: Option<String>) -> Seq<char> {
    match detail {
        Some(kept) => prefix + ": "@ + kept@,
        None => prefix + (if line > 0 {
            " at normalized line "@ + decimal_chars(line as nat)
        } else {
            Seq::empty()
        }) + (if column > 0 {
            " column "@ + decimal_chars(column as nat)
        } else {
            Seq::empty()
        }),
    }
}

/// The description of a budget rejection.
pub open spec fn budget_text(detail: Seq<char>) -> Seq<char> {
    "JSON resource budget rejected input: "@ + detail
}

impl LenientJsonDecodeFailure {
    /// The stable category of a failure.
    pub open spec fn spec_kind(self) -> LenientJsonDecodeErrorKind {
        match self {
            LenientJsonDecodeFailure::InvalidUtf8 { .. } => LenientJsonDecodeErrorKind::InvalidUtf8,
            LenientJsonDecodeFailure::InputTooLarge { .. } => LenientJsonDecodeErrorKind::InputTooLarge,
            LenientJsonDecodeFailure::NormalizedInputTooLarge { .. } => LenientJsonDecodeErrorKind::InputTooLarge,
            LenientJsonDecodeFailure::EmptyInput { .. } => LenientJsonDecodeErrorKind::EmptyInput,
            LenientJsonDecodeFailure::InvalidJson { .. } => LenientJsonDecodeErrorKind::InvalidJson,
            LenientJsonDecodeFailure::Budget { .. } => LenientJsonDecodeErrorKind::Budget,
            LenientJsonDecodeFailure::UnexpectedTopLevel { .. } => LenientJsonDecodeErrorKind::UnexpectedTopLevel,
            LenientJsonDecodeFailure::Deserialize { .. } => LenientJsonDecodeErrorKind::Deserialize,
        }
    }

    /// The decoding stage of a failure.
    pub open spec fn spec_stage(self) -> LenientJsonDecodeStage {
        match self {
            LenientJsonDecodeFailure::InvalidUtf8 { .. } => LenientJsonDecodeStage::DecodeText,
            LenientJsonDecodeFailure::InputTooLarge { .. } => LenientJsonDecodeStage::Normalize,
            LenientJsonDecodeFailure::NormalizedInputTooLarge { .. } => LenientJsonDecodeStage::Normalize,
            LenientJsonDecodeFailure::EmptyInput { .. } => LenientJsonDecodeStage::Normalize,
            LenientJsonDecodeFailure::InvalidJson { .. } => LenientJsonDecodeStage::Parse,
            LenientJsonDecodeFailure::Budget { .. } => LenientJsonDecodeStage::Admission,
            LenientJsonDecodeFailure::UnexpectedTopLevel { .. } => LenientJsonDecodeStage::TopLevelCheck,
            LenientJsonDecodeFailure::Deserialize { .. } => LenientJsonDecodeStage::Deserialize,
        }
    }

    /// The raw input size that every failure records.
    pub open spec fn spec_raw_input_bytes(self) -> usize {
        match self {
            LenientJsonDecodeFailure::InvalidUtf8 { raw_input_bytes, .. } => raw_input_bytes,
            LenientJsonDecodeFailure::InputTooLarge { raw_input_bytes, .. } => raw_input_bytes,
            LenientJsonDecodeFailure::NormalizedInputTooLarge { raw_input_bytes, .. } => raw_input_bytes,
            LenientJsonDecodeFailure::EmptyInput { raw_input_bytes, .. } => raw_input_bytes,
            LenientJsonDecodeFailure::InvalidJson { raw_input_bytes, .. } => raw_input_bytes,
            LenientJsonDecodeFailure::Budget { raw_input_bytes, .. } => raw_input_bytes,
            LenientJsonDecodeFailure::UnexpectedTopLevel { raw_input_bytes, .. } => raw_input_bytes,
            LenientJsonDecodeFailure::Deserialize { raw_input_bytes, .. } => raw_input_bytes,
        }
    }

    /// The normalized input size, where the failure records one.
    pub open spec fn spec_normalized_input_bytes(self) -> Option<usize> {
        match self {
            LenientJsonDecodeFailure::InvalidUtf8 { .. } => None,
            LenientJsonDecodeFailure::InputTooLarge { .. } => None,
            LenientJsonDecodeFailure::NormalizedInputTooLarge { normalized_input_bytes, .. } => Some(
                normalized_input_bytes,
            ),
            LenientJsonDecodeFailure::EmptyInput { normalized_input_bytes, .. } => normalized_input_bytes,
            LenientJsonDecodeFailure::InvalidJson { normalized_input_bytes, .. } => Some(normalized_input_bytes),
            LenientJsonDecodeFailure::Budget { normalized_input_bytes, .. } => normalized_input_bytes,
            LenientJsonDecodeFailure::UnexpectedTopLevel { normalized_input_bytes, .. } => Some(
                normalized_input_bytes,
            ),
            LenientJsonDecodeFailure::Deserialize { normalized_input_bytes, .. } => Some(normalized_input_bytes),
        }
    }

    /// The positive parser line of a syntax or deserialization failure.
    pub open spec fn spec_normalized_line(self) -> Option<usize> {
        match self {
            LenientJsonDecodeFailure::InvalidJson { line, .. } => if line > 0 { Some(line) } else { None },
            LenientJsonDecodeFailure::Deserialize { line, .. } => if line > 0 { Some(line) } else { None },
            _ => None,
        }
    }

    /// The positive parser column of a syntax or deserialization failure.
    pub open spec fn spec_normalized_column(self) -> Option<usize> {
        match self {
            LenientJsonDecodeFailure::InvalidJson { column, .. } => if column > 0 { Some(column) } else { None },
            LenientJsonDecodeFailure::Deserialize { column, .. } => if column > 0 { Some(column) } else { None },
            _ => None,
        }
    }

    /// The human-readable description of a failure.
    pub open spec fn spec_text(self) -> Seq<char> {
        match self {
            LenientJsonDecodeFailure::InvalidUtf8 { detail, .. } => match detail {
                Some(kept) => "Failed to decode JSON input as UTF-8: "@ + kept@,
                None => "Failed to decode JSON input as UTF-8"@,
            },
            LenientJsonDecodeFailure::InputTooLarge { raw_input_bytes, maximum } => "JSON input is too large: "@
                + decimal_chars(raw_input_bytes as nat) + " bytes exceed configured limit "@ + decimal_chars(
                maximum as nat,
            ) + " bytes"@,
            LenientJsonDecodeFailure::NormalizedInputTooLarge { normalized_input_bytes, maximum, .. } =>
                "Normalized JSON input is too large: "@ + decimal_chars(normalized_input_bytes as nat)
                + " bytes exceed configured limit "@ + decimal_chars(maximum as nat) + " bytes"@,
            LenientJsonDecodeFailure::EmptyInput { .. } => "JSON input is empty after normalization"@,
            LenientJsonDecodeFailure::InvalidJson { line, column, detail, .. } => input_failure_text(
                "Failed to parse JSON"@,
                line,
                column,
                detail,
            ),
            LenientJsonDecodeFailure::Budget { detail, .. } => budget_text(detail@),
            LenientJsonDecodeFailure::UnexpectedTopLevel { expected, actual, .. } =>
                "Unexpected JSON top-level type: expected "@ + expected.spec_name() + ", got "@
                + actual.spec_name(),
            LenientJsonDecodeFailure::Deserialize { line, column, detail, .. } => input_failure_text(
                "Failed to deserialize JSON value"@,
                line,
                column,
                detail,
            ),
        }
    }
}

/// Whether two failures are equal: the same variant with the same sizes,
/// coordinates, limits, kinds and budget resource. Retained descriptions
/// are not compared.
pub open spec fn same_failure(left: LenientJsonDecodeFailure, right: LenientJsonDecodeFailure) -> bool {
    match (left, right) {
        (
            LenientJsonDecodeFailure::InvalidUtf8 { raw_input_bytes: lr, valid_up_to: lv, error_len: ll, .. },
            LenientJsonDecodeFailure::InvalidUtf8 { raw_input_bytes: rr, valid_up_to: rv, error_len: rl, .. },
        ) => lr == rr && lv == rv && ll == rl,
        (
            LenientJsonDecodeFailure::InputTooLarge { raw_input_bytes: lr, maximum: lm },
            LenientJsonDecodeFailure::InputTooLarge { raw_input_bytes: rr, maximum: rm },
        ) => lr == rr && lm == rm,
        (
            LenientJsonDecodeFailure::NormalizedInputTooLarge {
                raw_input_bytes: lr,
                normalized_input_bytes: ln,
                maximum: lm,
            },
            LenientJsonDecodeFailure::NormalizedInputTooLarge {
                raw_input_bytes: rr,
                normalized_input_bytes: rn,
                maximum: rm,
            },
        ) => lr == rr && ln == rn && lm == rm,
        (
            LenientJsonDecodeFailure::EmptyInput { raw_input_bytes: lr, normalized_input_bytes: ln },
            LenientJsonDecodeFailure::EmptyInput { raw_input_bytes: rr, normalized_input_bytes: rn },
        ) => lr == rr && ln == rn,
        (
            LenientJsonDecodeFailure::InvalidJson {
                raw_input_bytes: lr,
                normalized_input_bytes: ln,
                line: ll,
                column: lc,
                ..
            },
            LenientJsonDecodeFailure::InvalidJson {
                raw_input_bytes: rr,
                normalized_input_bytes: rn,
                line: rl,
                column: rc,
                ..
            },
        ) => lr == rr && ln == rn && ll == rl && lc == rc,
        (
            LenientJsonDecodeFailure::Deserialize {
                raw_input_bytes: lr,
                normalized_input_bytes: ln,
                line: ll,
                column: lc,
                ..
            },
            LenientJsonDecodeFailure::Deserialize {
                raw_input_bytes: rr,
                normalized_input_bytes: rn,
                line: rl,
                column: rc,
                ..
            },
        ) => lr == rr && ln == rn && ll == rl && lc == rc,
        (
            LenientJsonDecodeFailure::Budget { raw_input_bytes: lr, normalized_input_bytes: ln, resource: ls, .. },
            LenientJsonDecodeFailure::Budget { raw_input_bytes: rr, normalized_input_bytes: rn, resource: rs, .. },
        ) => lr == rr && ln == rn && ls == rs,
        (
            LenientJsonDecodeFailure::UnexpectedTopLevel {
                raw_input_bytes: lr,
                normalized_input_bytes: ln,
                expected: le,
                actual: la,
            },
            LenientJsonDecodeFailure::UnexpectedTopLevel {
                raw_input_bytes: rr,
                normalized_input_bytes: rn,
                expected: re,
                actual: ra,
            },
        ) => lr == rr && ln == rn && le == re && la == ra,
        _ => false,
    }
}

/// Copies a retained description.
fn clone_detail(detail: &Option<String>) -> (copy: Option<String>)
    ensures
        copy == *detail,
{
    match detail {
        Some(kept) => Some(kept.clone()),
        None => None,
    }
}

/// Keeps `text` only under the detailed privacy policy.
fn retain_detail(text: &str, policy: ErrorPrivacyPolicy) -> (retained: Option<String>)
    ensures
        retains_detail(retained, text@, policy),
{
    match policy {
        ErrorPrivacyPolicy::Redacted => None,
        ErrorPrivacyPolicy::Detailed => {
            let mut kept = String::new();
            push_str(&mut kept, text);
            assert(kept@ =~= text@);
            Some(kept)
        },
    }
}

impl Clone for LenientJsonDecodeFailure {
    /// Copies the failure with its retained description.
    fn clone(&self) -> (copy: Self)
        ensures
            copy == *self,
    {
        match self {
            LenientJsonDecodeFailure::InvalidUtf8 { raw_input_bytes, valid_up_to, error_len, detail } => {
                LenientJsonDecodeFailure::InvalidUtf8 {
                    raw_input_bytes: *raw_input_bytes,
                    valid_up_to: *valid_up_to,
                    error_len: *error_len,
                    detail: clone_detail(detail),
                }
            },
            LenientJsonDecodeFailure::InputTooLarge { raw_input_bytes, maximum } => {
                LenientJsonDecodeFailure::InputTooLarge { raw_input_bytes: *raw_input_bytes, maximum: *maximum }
            },
            LenientJsonDecodeFailure::NormalizedInputTooLarge { raw_input_bytes, normalized_input_bytes, maximum } => {
                LenientJsonDecodeFailure::NormalizedInputTooLarge {
                    raw_input_bytes: *raw_input_bytes,
                    normalized_input_bytes: *normalized_input_bytes,
                    maximum: *maximum,
                }
            },
            LenientJsonDecodeFailure::EmptyInput { raw_input_bytes, normalized_input_bytes } => {
                LenientJsonDecodeFailure::EmptyInput {
                    raw_input_bytes: *raw_input_bytes,
                    normalized_input_bytes: *normalized_input_bytes,
                }
            },
            LenientJsonDecodeFailure::InvalidJson { raw_input_bytes, normalized_input_bytes, line, column, detail } => {
                LenientJsonDecodeFailure::InvalidJson {
                    raw_input_bytes: *raw_input_bytes,
                    normalized_input_bytes: *normalized_input_bytes,
                    line: *line,
                    column: *column,
                    detail: clone_detail(detail),
                }
            },
            LenientJsonDecodeFailure::Budget { raw_input_bytes, normalized_input_bytes, resource, detail } => {
                LenientJsonDecodeFailure::Budget {
                    raw_input_bytes: *raw_input_bytes,
                    normalized_input_bytes: *normalized_input_bytes,
                    resource: *resource,
                    detail: detail.clone(),
                }
            },
            LenientJsonDecodeFailure::UnexpectedTopLevel { raw_input_bytes, normalized_input_bytes, expected, actual } => {
                LenientJsonDecodeFailure::UnexpectedTopLevel {
                    raw_input_bytes: *raw_input_bytes,
                    normalized_input_bytes: *normalized_input_bytes,
                    expected: *expected,
                    actual: *actual,
                }
            },
            LenientJsonDecodeFailure::Deserialize { raw_input_bytes, normalized_input_bytes, line, column, detail } => {
                LenientJsonDecodeFailure::Deserialize {
                    raw_input_bytes: *raw_input_bytes,
                    normalized_input_bytes: *normalized_input_bytes,
                    line: *line,
                    column: *column,
                    detail: clone_detail(detail),
                }
            },
        }
    }
}

impl PartialEq for LenientJsonDecodeFailure {
    /// Compares the sizes, coordinates, limits, kinds and budget resource of
    /// two failures of the same variant; retained descriptions are ignored.
    fn eq(&self, other: &Self) -> (equal: bool) {
        match (self, other) {
            (
                LenientJsonDecodeFailure::InvalidUtf8 { raw_input_bytes: lr, valid_up_to: lv, error_len: ll, .. },
                LenientJsonDecodeFailure::InvalidUtf8 { raw_input_bytes: rr, valid_up_to: rv, error_len: rl, .. },
            ) => *lr == *rr && *lv == *rv && match (ll, rl) {
                (Some(a), Some(b)) => *a == *b,
                (None, None) => true,
                _ => false,
            },
            (
                LenientJsonDecodeFailure::InputTooLarge { raw_input_bytes: lr, maximum: lm },
                LenientJsonDecodeFailure::InputTooLarge { raw_input_bytes: rr, maximum: rm },
            ) => *lr == *rr && *lm == *rm,
            (
                LenientJsonDecodeFailure::NormalizedInputTooLarge {
                    raw_input_bytes: lr,
                    normalized_input_bytes: ln,
                    maximum: lm,
                },
                LenientJsonDecodeFailure::NormalizedInputTooLarge {
                    raw_input_bytes: rr,
                    normalized_input_bytes: rn,
                    maximum: rm,
                },
            ) => *lr == *rr && *ln == *rn && *lm == *rm,
            (
                LenientJsonDecodeFailure::EmptyInput { raw_input_bytes: lr, normalized_input_bytes: ln },
                LenientJsonDecodeFailure::EmptyInput { raw_input_bytes: rr, normalized_input_bytes: rn },
            ) => *lr == *rr && match (ln, rn) {
                (Some(a), Some(b)) => *a == *b,
                (None, None) => true,
                _ => false,
            },
            (
                LenientJsonDecodeFailure::InvalidJson {
                    raw_input_bytes: lr,
                    normalized_input_bytes: ln,
                    line: ll,
                    column: lc,
                    ..
                },
                LenientJsonDecodeFailure::InvalidJson {
                    raw_input_bytes: rr,
                    normalized_input_bytes: rn,
                    line: rl,
                    column: rc,
                    ..
                },
            ) => *lr == *rr && *ln == *rn && *ll == *rl && *lc == *rc,
            (
                LenientJsonDecodeFailure::Deserialize {
                    raw_input_bytes: lr,
                    normalized_input_bytes: ln,
                    line: ll,
                    column: lc,
                    ..
                },
                LenientJsonDecodeFailure::Deserialize {
                    raw_input_bytes: rr,
                    normalized_input_bytes: rn,
                    line: rl,
                    column: rc,
                    ..
                },
            ) => *lr == *rr && *ln == *rn && *ll == *rl && *lc == *rc,
            (
                LenientJsonDecodeFailure::Budget { raw_input_bytes: lr, normalized_input_bytes: ln, resource: ls, .. },
                LenientJsonDecodeFailure::Budget { raw_input_bytes: rr, normalized_input_bytes: rn, resource: rs, .. },
            ) => *lr == *rr && match (ln, rn) {
                (Some(a), Some(b)) => *a == *b,
                (None, None) => true,
                _ => false,
            } && same_resource(*ls, *rs),
            (
                LenientJsonDecodeFailure::UnexpectedTopLevel {
                    raw_input_bytes: lr,
                    normalized_input_bytes: ln,
                    expected: le,
                    actual: la,
                },
                LenientJsonDecodeFailure::UnexpectedTopLevel {
                    raw_input_bytes: rr,
                    normalized_input_bytes: rn,
                    expected: re,
                    actual: ra,
                },
            ) => *lr == *rr && *ln == *rn && *le == *re && *la == *ra,
            _ => false,
        }
    }
}

impl vstd::std_specs::cmp::PartialEqSpecImpl for LenientJsonDecodeFailure {
    open spec fn obeys_eq_spec() -> bool {
        true
    }

    open spec fn eq_spec(&self, other: &Self) -> bool {
        same_failure(*self, *other)
    }
}

impl Eq for LenientJsonDecodeFailure {}

/// A budgeted lenient decoding failure with its privacy policy.
#[non_exhaustive]
#[derive(Debug)]
pub struct LenientJsonDecodeError {
    /// Policy that decided whether input-derived text was retained.
    privacy_policy: ErrorPrivacyPolicy,
    /// What the failure records.
    failure: LenientJsonDecodeFailure,
}

impl LenientJsonDecodeError {
    /// The policy under which the error was built.
    pub closed spec fn spec_privacy_policy(self) -> ErrorPrivacyPolicy {
        self.privacy_policy
    }

    /// What the error records.
    pub closed spec fn spec_failure(self) -> LenientJsonDecodeFailure {
        self.failure
    }

    /// Creates an error for raw bytes that are not UTF-8, from the length of
    /// their valid prefix, the length of the invalid sequence and the
    /// validator's description.
    pub fn invalid_utf8(
        valid_up_to: usize,
        error_len: Option<usize>,
        detail: &str,
        raw_input_bytes: usize,
        privacy_policy: ErrorPrivacyPolicy,
    ) -> (error: Self)
        ensures
            error.spec_privacy_policy() == privacy_policy,
            error.spec_failure().respects_policy(privacy_policy),
            error.spec_failure() matches LenientJsonDecodeFailure::InvalidUtf8 {
                raw_input_bytes: r,
                valid_up_to: v,
                error_len: l,
                detail: kept,
            } && r == raw_input_bytes && v == valid_up_to && l == error_len && retains_detail(
                kept,
                detail@,
                privacy_policy,
            ),
    {
        LenientJsonDecodeError {
            privacy_policy,
            failure: LenientJsonDecodeFailure::InvalidUtf8 {
                raw_input_bytes,
                valid_up_to,
                error_len,
                detail: retain_detail(detail, privacy_policy),
            },
        }
    }

    /// Creates an error for raw input over its byte limit.
    pub fn input_too_large(raw_input_bytes: usize, maximum: usize, privacy_policy: ErrorPrivacyPolicy) -> (error: Self)
        ensures
            error.spec_privacy_policy() == privacy_policy,
            error.spec_failure().respects_policy(privacy_policy),
            error.spec_failure() == (LenientJsonDecodeFailure::InputTooLarge { raw_input_bytes, maximum }),
    {
        LenientJsonDecodeError {
            privacy_policy,
            failure: LenientJsonDecodeFailure::InputTooLarge { raw_input_bytes, maximum },
        }
    }

    /// Creates an error for normalized input over its byte limit.
    pub fn normalized_input_too_large(
        raw_input_bytes: usize,
        normalized_input_bytes: usize,
        maximum: usize,
        privacy_policy: ErrorPrivacyPolicy,
    ) -> (error: Self)
        ensures
            error.spec_privacy_policy() == privacy_policy,
            error.spec_failure().respects_policy(privacy_policy),
            error.spec_failure() == (LenientJsonDecodeFailure::NormalizedInputTooLarge {
                raw_input_bytes,
                normalized_input_bytes,
                maximum,
            }),
    {
        LenientJsonDecodeError {
            privacy_policy,
            failure: LenientJsonDecodeFailure::NormalizedInputTooLarge {
                raw_input_bytes,
                normalized_input_bytes,
                maximum,
            },
        }
    }

    /// Creates an error for input that is empty after normalization.
    pub fn empty_input(
        raw_input_bytes: usize,
        normalized_input_bytes: Option<usize>,
        privacy_policy: ErrorPrivacyPolicy,
    ) -> (error: Self)
        ensures
            error.spec_privacy_policy() == privacy_policy,
            error.spec_failure().respects_policy(privacy_policy),
            error.spec_failure() == (LenientJsonDecodeFailure::EmptyInput { raw_input_bytes, normalized_input_bytes }),
    {
        LenientJsonDecodeError {
            privacy_policy,
            failure: LenientJsonDecodeFailure::EmptyInput { raw_input_bytes, normalized_input_bytes },
        }
    }

    /// Creates an error for invalid JSON from the parser's line, column and
    /// description.
    pub fn invalid_json(
        line: usize,
        column: usize,
        detail: &str,
        raw_input_bytes: usize,
        normalized_input_bytes: usize,
        privacy_policy: ErrorPrivacyPolicy,
    ) -> (error: Self)
        ensures
            error.spec_privacy_policy() == privacy_policy,
            error.spec_failure().respects_policy(privacy_policy),
            error.spec_failure() matches LenientJsonDecodeFailure::InvalidJson {
                raw_input_bytes: r,
                normalized_input_bytes: n,
                line: l,
                column: c,
                detail: kept,
            } && r == raw_input_bytes && n == normalized_input_bytes && l == line && c == column
                && retains_detail(kept, detail@, privacy_policy),
    {
        LenientJsonDecodeError {
            privacy_policy,
            failure: LenientJsonDecodeFailure::InvalidJson {
                raw_input_bytes,
                normalized_input_bytes,
                line,
                column,
                detail: retain_detail(detail, privacy_policy),
            },
        }
    }

    /// Creates an error for invalid JSON found by the lexical validator: its
    /// coordinates, and its description when detailed.
    pub fn invalid_lexical_json(
        failure: JsonLexicalFailure,
        raw_input_bytes: usize,
        normalized_input_bytes: usize,
        privacy_policy: ErrorPrivacyPolicy,
    ) -> (error: Self)
        ensures
            error.spec_privacy_policy() == privacy_policy,
            error.spec_failure().respects_policy(privacy_policy),
            error.spec_failure() matches LenientJsonDecodeFailure::InvalidJson {
                raw_input_bytes: r,
                normalized_input_bytes: n,
                line: l,
                column: c,
                detail: kept,
            } && r == raw_input_bytes && n == normalized_input_bytes && l == failure.line && c == failure.column
                && retains_detail(
                kept,
                failure_text(failure.reason, failure.line, failure.column, failure.offset),
                privacy_policy,
            ),
    {
        let text = failure.to_text();
        Self::invalid_json(
            failure.line,
            failure.column,
            text.as_str(),
            raw_input_bytes,
            normalized_input_bytes,
            privacy_policy,
        )
    }

    /// Creates an error for a budget rejection of `resource`, with the
    /// budget's description.
    pub fn budget(
        resource: JsonResource,
        detail: &str,
        raw_input_bytes: usize,
        normalized_input_bytes: usize,
        privacy_policy: ErrorPrivacyPolicy,
    ) -> (error: Self)
        ensures
            error.spec_privacy_policy() == privacy_policy,
            error.spec_failure().respects_policy(privacy_policy),
            error.spec_failure() matches LenientJsonDecodeFailure::Budget {
                raw_input_bytes: r,
                normalized_input_bytes: n,
                resource: s,
                detail: kept,
            } && r == raw_input_bytes && n == Some(normalized_input_bytes) && s == resource && kept@ == detail@,
    {
        let mut kept = String::new();
        push_str(&mut kept, detail);
        assert(kept@ =~= detail@);
        LenientJsonDecodeError {
            privacy_policy,
            failure: LenientJsonDecodeFailure::Budget {
                raw_input_bytes,
                normalized_input_bytes: Some(normalized_input_bytes),
                resource,
                detail: kept,
            },
        }
    }

    /// Creates an error for a top-level value of an unexpected kind.
    pub fn unexpected_top_level(
        expected: JsonTopLevelKind,
        actual: JsonTopLevelKind,
        raw_input_bytes: usize,
        normalized_input_bytes: usize,
        privacy_policy: ErrorPrivacyPolicy,
    ) -> (error: Self)
        ensures
            error.spec_privacy_policy() == privacy_policy,
            error.spec_failure().respects_policy(privacy_policy),
            error.spec_failure() == (LenientJsonDecodeFailure::UnexpectedTopLevel {
                raw_input_bytes,
                normalized_input_bytes,
                expected,
                actual,
            }),
    {
        LenientJsonDecodeError {
            privacy_policy,
            failure: LenientJsonDecodeFailure::UnexpectedTopLevel {
                raw_input_bytes,
                normalized_input_bytes,
                expected,
                actual,
            },
        }
    }

    /// Creates an error for a value that does not match the target type,
    /// from the deserializer's line, column and description.
    pub fn deserialize(
        line: usize,
        column: usize,
        detail: &str,
        raw_input_bytes: usize,
        normalized_input_bytes: usize,
        privacy_policy: ErrorPrivacyPolicy,
    ) -> (error: Self)
        ensures
            error.spec_privacy_policy() == privacy_policy,
            error.spec_failure().respects_policy(privacy_policy),
            error.spec_failure() matches LenientJsonDecodeFailure::Deserialize {
                raw_input_bytes: r,
                normalized_input_bytes: n,
                line: l,
                column: c,
                detail: kept,
            } && r == raw_input_bytes && n == normalized_input_bytes && l == line && c == column
                && retains_detail(kept, detail@, privacy_policy),
    {
        LenientJsonDecodeError {
            privacy_policy,
            failure: LenientJsonDecodeFailure::Deserialize {
                raw_input_bytes,
                normalized_input_bytes,
                line,
                column,
                detail: retain_detail(detail, privacy_policy),
            },
        }
    }
}

/// Appends the description of a failed input step.
fn push_input_failure(text: &mut String, prefix: &str, line: usize, column: usize, detail: &Option<String>)
    ensures
        final(text)@ == old(text)@ + input_failure_text(prefix@, line, column, *detail),
{
    push_str(text, prefix);
    match detail {
        Some(kept) => {
            push_str(text, ": ");
            push_str(text, kept.as_str());
        },
        None => {
            let ghost after_prefix = text@;
            if line > 0 {
                push_str(text, " at normalized line ");
                push_decimal(text, line as u128);
            }
            let ghost after_line = text@;
            if column > 0 {
                push_str(text, " column ");
                push_decimal(text, column as u128);
            }
            assert(after_line =~= after_prefix + (if line > 0 {
                " at normalized line "@ + decimal_chars(line as nat)
            } else {
                Seq::empty()
            }));
        },
    }
    assert(final(text)@ =~= old(text)@ + input_failure_text(prefix@, line, column, *detail));
}

impl LenientJsonDecodeError {
    /// Returns the stable category of this error.
    pub fn kind(&self) -> (kind: LenientJsonDecodeErrorKind)
        ensures
            kind == self.spec_failure().spec_kind(),
    {
        match &self.failure {
            LenientJsonDecodeFailure::InvalidUtf8 { .. } => LenientJsonDecodeErrorKind::InvalidUtf8,
            LenientJsonDecodeFailure::InputTooLarge { .. } => LenientJsonDecodeErrorKind::InputTooLarge,
            LenientJsonDecodeFailure::NormalizedInputTooLarge { .. } => LenientJsonDecodeErrorKind::InputTooLarge,
            LenientJsonDecodeFailure::EmptyInput { .. } => LenientJsonDecodeErrorKind::EmptyInput,
            LenientJsonDecodeFailure::InvalidJson { .. } => LenientJsonDecodeErrorKind::InvalidJson,
            LenientJsonDecodeFailure::Budget { .. } => LenientJsonDecodeErrorKind::Budget,
            LenientJsonDecodeFailure::UnexpectedTopLevel { .. } => LenientJsonDecodeErrorKind::UnexpectedTopLevel,
            LenientJsonDecodeFailure::Deserialize { .. } => LenientJsonDecodeErrorKind::Deserialize,
        }
    }

    /// Returns the decoding stage that produced this error.
    pub fn stage(&self) -> (stage: LenientJsonDecodeStage)
        ensures
            stage == self.spec_failure().spec_stage(),
    {
        match &self.failure {
            LenientJsonDecodeFailure::InvalidUtf8 { .. } => LenientJsonDecodeStage::DecodeText,
            LenientJsonDecodeFailure::InputTooLarge { .. } => LenientJsonDecodeStage::Normalize,
            LenientJsonDecodeFailure::NormalizedInputTooLarge { .. } => LenientJsonDecodeStage::Normalize,
            LenientJsonDecodeFailure::EmptyInput { .. } => LenientJsonDecodeStage::Normalize,
            LenientJsonDecodeFailure::InvalidJson { .. } => LenientJsonDecodeStage::Parse,
            LenientJsonDecodeFailure::Budget { .. } => LenientJsonDecodeStage::Admission,
            LenientJsonDecodeFailure::UnexpectedTopLevel { .. } => LenientJsonDecodeStage::TopLevelCheck,
            LenientJsonDecodeFailure::Deserialize { .. } => LenientJsonDecodeStage::Deserialize,
        }
    }

    /// Returns the privacy policy under which this error was built.
    pub fn privacy_policy(&self) -> (policy: ErrorPrivacyPolicy)
        ensures
            policy == self.spec_privacy_policy(),
    {
        self.privacy_policy
    }

    /// Returns what this error records.
    pub fn failure(&self) -> (failure: &LenientJsonDecodeFailure)
        ensures
            *failure == self.spec_failure(),
    {
        &self.failure
    }

    /// Returns the expected kind of a top-level mismatch.
    pub fn expected_top_level(&self) -> (kind: Option<JsonTopLevelKind>)
        ensures
            kind == (match self.spec_failure() {
                LenientJsonDecodeFailure::UnexpectedTopLevel { expected, .. } => Some(expected),
                _ => None,
            }),
    {
        match &self.failure {
            LenientJsonDecodeFailure::UnexpectedTopLevel { expected, .. } => Some(*expected),
            _ => None,
        }
    }

    /// Returns the actual kind of a top-level mismatch.
    pub fn actual_top_level(&self) -> (kind: Option<JsonTopLevelKind>)
        ensures
            kind == (match self.spec_failure() {
                LenientJsonDecodeFailure::UnexpectedTopLevel { actual, .. } => Some(actual),
                _ => None,
            }),
    {
        match &self.failure {
            LenientJsonDecodeFailure::UnexpectedTopLevel { actual, .. } => Some(*actual),
            _ => None,
        }
    }

    /// Returns the raw input size.
    pub fn raw_input_bytes(&self) -> (bytes: usize)
        ensures
            bytes == self.spec_failure().spec_raw_input_bytes(),
    {
        match &self.failure {
            LenientJsonDecodeFailure::InvalidUtf8 { raw_input_bytes, .. } => *raw_input_bytes,
            LenientJsonDecodeFailure::InputTooLarge { raw_input_bytes, .. } => *raw_input_bytes,
            LenientJsonDecodeFailure::NormalizedInputTooLarge { raw_input_bytes, .. } => *raw_input_bytes,
            LenientJsonDecodeFailure::EmptyInput { raw_input_bytes, .. } => *raw_input_bytes,
            LenientJsonDecodeFailure::InvalidJson { raw_input_bytes, .. } => *raw_input_bytes,
            LenientJsonDecodeFailure::Budget { raw_input_bytes, .. } => *raw_input_bytes,
            LenientJsonDecodeFailure::UnexpectedTopLevel { raw_input_bytes, .. } => *raw_input_bytes,
            LenientJsonDecodeFailure::Deserialize { raw_input_bytes, .. } => *raw_input_bytes,
        }
    }

    /// Returns the length of the valid UTF-8 prefix of rejected bytes.
    pub fn utf8_valid_up_to(&self) -> (length: Option<usize>)
        ensures
            length == (match self.spec_failure() {
                LenientJsonDecodeFailure::InvalidUtf8 { valid_up_to, .. } => Some(valid_up_to),
                _ => None,
            }),
    {
        match &self.failure {
            LenientJsonDecodeFailure::InvalidUtf8 { valid_up_to, .. } => Some(*valid_up_to),
            _ => None,
        }
    }

    /// Returns the length of the invalid UTF-8 sequence, when known.
    pub fn utf8_error_len(&self) -> (length: Option<usize>)
        ensures
            length == (match self.spec_failure() {
                LenientJsonDecodeFailure::InvalidUtf8 { error_len, .. } => error_len,
                _ => None,
            }),
    {
        match &self.failure {
            LenientJsonDecodeFailure::InvalidUtf8 { error_len, .. } => *error_len,
            _ => None,
        }
    }

    /// Returns the normalized input size, where the error records one.
    pub fn normalized_input_bytes(&self) -> (bytes: Option<usize>)
        ensures
            bytes == self.spec_failure().spec_normalized_input_bytes(),
    {
        match &self.failure {
            LenientJsonDecodeFailure::InvalidUtf8 { .. } => None,
            LenientJsonDecodeFailure::InputTooLarge { .. } => None,
            LenientJsonDecodeFailure::NormalizedInputTooLarge { normalized_input_bytes, .. } => Some(
                *normalized_input_bytes,
            ),
            LenientJsonDecodeFailure::EmptyInput { normalized_input_bytes, .. } => *normalized_input_bytes,
            LenientJsonDecodeFailure::InvalidJson { normalized_input_bytes, .. } => Some(*normalized_input_bytes),
            LenientJsonDecodeFailure::Budget { normalized_input_bytes, .. } => *normalized_input_bytes,
            LenientJsonDecodeFailure::UnexpectedTopLevel { normalized_input_bytes, .. } => Some(
                *normalized_input_bytes,
            ),
            LenientJsonDecodeFailure::Deserialize { normalized_input_bytes, .. } => Some(*normalized_input_bytes),
        }
    }

    /// Returns the raw byte limit that was exceeded.
    pub fn max_input_bytes(&self) -> (limit: Option<usize>)
        ensures
            limit == (match self.spec_failure() {
                LenientJsonDecodeFailure::InputTooLarge { maximum, .. } => Some(maximum),
                _ => None,
            }),
    {
        match &self.failure {
            LenientJsonDecodeFailure::InputTooLarge { maximum, .. } => Some(*maximum),
            _ => None,
        }
    }

    /// Returns the normalized byte limit that was exceeded.
    pub fn max_normalized_bytes(&self) -> (limit: Option<usize>)
        ensures
            limit == (match self.spec_failure() {
                LenientJsonDecodeFailure::NormalizedInputTooLarge { maximum, .. } => Some(maximum),
                _ => None,
            }),
    {
        match &self.failure {
            LenientJsonDecodeFailure::NormalizedInputTooLarge { maximum, .. } => Some(*maximum),
            _ => None,
        }
    }

    /// Returns the positive parser line of a syntax or deserialization error.
    pub fn normalized_line(&self) -> (line: Option<usize>)
        ensures
            line == self.spec_failure().spec_normalized_line(),
    {
        match &self.failure {
            LenientJsonDecodeFailure::InvalidJson { line, .. } => if *line > 0 { Some(*line) } else { None },
            LenientJsonDecodeFailure::Deserialize { line, .. } => if *line > 0 { Some(*line) } else { None },
            _ => None,
        }
    }

    /// Returns the positive parser column of a syntax or deserialization error.
    pub fn normalized_column(&self) -> (column: Option<usize>)
        ensures
            column == self.spec_failure().spec_normalized_column(),
    {
        match &self.failure {
            LenientJsonDecodeFailure::InvalidJson { column, .. } => if *column > 0 { Some(*column) } else { None },
            LenientJsonDecodeFailure::Deserialize { column, .. } => if *column > 0 { Some(*column) } else { None },
            _ => None,
        }
    }

    /// Returns the human-readable description of this error.
    pub fn to_text(&self) -> (text: String)
        ensures
            text@ == self.spec_failure().spec_text(),
    {
        let mut text = String::new();
        match &self.failure {
            LenientJsonDecodeFailure::InvalidUtf8 { detail, .. } => match detail {
                Some(kept) => {
                    push_str(&mut text, "Failed to decode JSON input as UTF-8: ");
                    push_str(&mut text, kept.as_str());
                },
                None => push_str(&mut text, "Failed to decode JSON input as UTF-8"),
            },
            LenientJsonDecodeFailure::InputTooLarge { raw_input_bytes, maximum } => {
                push_str(&mut text, "JSON input is too large: ");
                push_decimal(&mut text, *raw_input_bytes as u128);
                push_str(&mut text, " bytes exceed configured limit ");
                push_decimal(&mut text, *maximum as u128);
                push_str(&mut text, " bytes");
            },
            LenientJsonDecodeFailure::NormalizedInputTooLarge { normalized_input_bytes, maximum, .. } => {
                push_str(&mut text, "Normalized JSON input is too large: ");
                push_decimal(&mut text, *normalized_input_bytes as u128);
                push_str(&mut text, " bytes exceed configured limit ");
                push_decimal(&mut text, *maximum as u128);
                push_str(&mut text, " bytes");
            },
            LenientJsonDecodeFailure::EmptyInput { .. } => {
                push_str(&mut text, "JSON input is empty after normalization");
            },
            LenientJsonDecodeFailure::InvalidJson { line, column, detail, .. } => {
                push_input_failure(&mut text, "Failed to parse JSON", *line, *column, detail);
            },
            LenientJsonDecodeFailure::Budget { detail, .. } => {
                push_str(&mut text, "JSON resource budget rejected input: ");
                push_str(&mut text, detail.as_str());
            },
            LenientJsonDecodeFailure::UnexpectedTopLevel { expected, actual, .. } => {
                push_str(&mut text, "Unexpected JSON top-level type: expected ");
                push_str(&mut text, expected.name());
                push_str(&mut text, ", got ");
                push_str(&mut text, actual.name());
            },
            LenientJsonDecodeFailure::Deserialize { line, column, detail, .. } => {
                push_input_failure(&mut text, "Failed to deserialize JSON value", *line, *column, detail);
            },
        }
        assert(text@ =~= self.spec_failure().spec_text());
        text
    }
}

impl Clone for LenientJsonDecodeError {
    /// Copies the error with its retained descriptions.
    fn clone(&self) -> (copy: Self)
        ensures
            copy == *self,
    {
        LenientJsonDecodeError { privacy_policy: self.privacy_policy, failure: self.failure.clone() }
    }
}

impl PartialEq for LenientJsonDecodeError {
    /// Compares the privacy policies and the recorded failures.
    fn eq(&self, other: &Self) -> (equal: bool) {
        self.privacy_policy == other.privacy_policy && self.failure == other.failure
    }
}

impl vstd::std_specs::cmp::PartialEqSpecImpl for LenientJsonDecodeError {
    open spec fn obeys_eq_spec() -> bool {
        true
    }

    open spec fn eq_spec(&self, other: &Self) -> bool {
        self.spec_privacy_policy() == other.spec_privacy_policy() && same_failure(
            self.spec_failure(),
            other.spec_failure(),
        )
    }
}

impl Eq for LenientJsonDecodeError {}

impl LenientJsonDecodeFailure {
    /// The input-derived description a failure retains, if any.
    pub open spec fn retained_input_text(self) -> Option<String> {
        match self {
            LenientJsonDecodeFailure::InvalidUtf8 { detail, .. } => detail,
            LenientJsonDecodeFailure::InvalidJson { detail, .. } => detail,
            LenientJsonDecodeFailure::Deserialize { detail, .. } => detail,
            _ => None,
        }
    }

    /// Whether the failure respects `policy`: under the redacted policy it
    /// retains no input-derived text.
    pub open spec fn respects_policy(self, policy: ErrorPrivacyPolicy) -> bool {
        policy == ErrorPrivacyPolicy::Redacted ==> self.retained_input_text() is None
    }
}

/// Equality of failures is an equivalence relation, as `Eq` promises.
pub proof fn lemma_same_failure_is_equivalence(
    first: LenientJsonDecodeFailure,
    second: LenientJsonDecodeFailure,
    third: LenientJsonDecodeFailure,
)
    ensures
        same_failure(first, first),
        same_failure(first, second) ==> same_failure(second, first),
        same_failure(first, second) && same_failure(second, third) ==> same_failure(first, third),
{
}

/// A redacted error's description depends on its stable fields alone: two
/// redacted failures that compare equal, other than budget rejections
/// (whose description is the budget's own), are described alike, whatever
/// input-derived text their sources held.
pub proof fn lemma_redacted_description_is_stable(first: LenientJsonDecodeFailure, second: LenientJsonDecodeFailure)
    requires
        first.respects_policy(ErrorPrivacyPolicy::Redacted),
        second.respects_policy(ErrorPrivacyPolicy::Redacted),
        same_failure(first, second),
        !(first is Budget),
    ensures
        first.spec_text() == second.spec_text(),
{
}

} // verus!
