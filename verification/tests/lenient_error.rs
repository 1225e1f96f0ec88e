use qubit_budget::json::JsonResource;
use qubit_json::{
    ErrorPrivacyPolicy, JsonLexicalErrorReason, JsonLexicalFailure, JsonTopLevelKind,
    LenientJsonDecodeError, LenientJsonDecodeErrorKind, LenientJsonDecodeStage,
};

const REDACTED: ErrorPrivacyPolicy = ErrorPrivacyPolicy::Redacted;
const DETAILED: ErrorPrivacyPolicy = ErrorPrivacyPolicy::Detailed;

#[test]
fn lenient_input_too_large_reports_limit() {
    let error = LenientJsonDecodeError::input_too_large(12, 8, REDACTED);
    assert_eq!(error.kind(), LenientJsonDecodeErrorKind::InputTooLarge);
    assert_eq!(error.stage(), LenientJsonDecodeStage::Normalize);
    assert_eq!(error.raw_input_bytes(), 12);
    assert_eq!(error.max_input_bytes(), Some(8));
    assert_eq!(error.max_normalized_bytes(), None);
    assert_eq!(error.normalized_input_bytes(), None);
    assert_eq!(
        error.to_text(),
        "JSON input is too large: 12 bytes exceed configured limit 8 bytes"
    );
}

#[test]
fn lenient_normalized_input_too_large_reports_limit() {
    let error = LenientJsonDecodeError::normalized_input_too_large(20, 10, 9, REDACTED);
    assert_eq!(error.kind(), LenientJsonDecodeErrorKind::InputTooLarge);
    assert_eq!(error.max_normalized_bytes(), Some(9));
    assert_eq!(error.normalized_input_bytes(), Some(10));
    assert_eq!(
        error.to_text(),
        "Normalized JSON input is too large: 10 bytes exceed configured limit 9 bytes"
    );
}

#[test]
fn lenient_empty_input() {
    let error = LenientJsonDecodeError::empty_input(3, Some(0), REDACTED);
    assert_eq!(error.kind(), LenientJsonDecodeErrorKind::EmptyInput);
    assert_eq!(error.normalized_input_bytes(), Some(0));
    assert_eq!(error.to_text(), "JSON input is empty after normalization");
}

#[test]
fn lenient_invalid_utf8_respects_policy() {
    let redacted = LenientJsonDecodeError::invalid_utf8(1, Some(1), "bad byte", 2, REDACTED);
    assert_eq!(redacted.kind(), LenientJsonDecodeErrorKind::InvalidUtf8);
    assert_eq!(redacted.stage(), LenientJsonDecodeStage::DecodeText);
    assert_eq!(redacted.utf8_valid_up_to(), Some(1));
    assert_eq!(redacted.utf8_error_len(), Some(1));
    assert_eq!(redacted.to_text(), "Failed to decode JSON input as UTF-8");
    let detailed = LenientJsonDecodeError::invalid_utf8(1, None, "bad byte", 2, DETAILED);
    assert_eq!(detailed.to_text(), "Failed to decode JSON input as UTF-8: bad byte");
    assert_eq!(detailed.utf8_error_len(), None);
}

#[test]
fn lenient_invalid_json_coordinates() {
    let error = LenientJsonDecodeError::invalid_json(2, 5, "expected value", 9, 9, REDACTED);
    assert_eq!(error.kind(), LenientJsonDecodeErrorKind::InvalidJson);
    assert_eq!(error.stage(), LenientJsonDecodeStage::Parse);
    assert_eq!(error.normalized_line(), Some(2));
    assert_eq!(error.normalized_column(), Some(5));
    assert_eq!(error.to_text(), "Failed to parse JSON at normalized line 2 column 5");
    let no_line = LenientJsonDecodeError::invalid_json(0, 3, "x", 9, 9, REDACTED);
    assert_eq!(no_line.normalized_line(), None);
    assert_eq!(no_line.to_text(), "Failed to parse JSON column 3");
    let nothing = LenientJsonDecodeError::invalid_json(0, 0, "x", 9, 9, REDACTED);
    assert_eq!(nothing.to_text(), "Failed to parse JSON");
    let detailed = LenientJsonDecodeError::invalid_json(2, 5, "expected value", 9, 9, DETAILED);
    assert_eq!(detailed.to_text(), "Failed to parse JSON: expected value");
}

#[test]
fn lenient_invalid_lexical_json_uses_failure_coordinates() {
    let failure = JsonLexicalFailure {
        offset: 4,
        line: 1,
        column: 5,
        reason: JsonLexicalErrorReason::TrailingCharacters,
    };
    let redacted = LenientJsonDecodeError::invalid_lexical_json(failure, 6, 6, REDACTED);
    assert_eq!(redacted.to_text(), "Failed to parse JSON at normalized line 1 column 5");
    let detailed = LenientJsonDecodeError::invalid_lexical_json(failure, 6, 6, DETAILED);
    assert_eq!(
        detailed.to_text(),
        "Failed to parse JSON: trailing characters at line 1 column 5 (byte offset 4)"
    );
}

#[test]
fn lenient_budget_error() {
    let error = LenientJsonDecodeError::budget(JsonResource::Depth, "depth limit 2 exceeded", 10, 8, REDACTED);
    assert_eq!(error.kind(), LenientJsonDecodeErrorKind::Budget);
    assert_eq!(error.stage(), LenientJsonDecodeStage::Admission);
    assert_eq!(error.normalized_input_bytes(), Some(8));
    assert_eq!(
        error.to_text(),
        "JSON resource budget rejected input: depth limit 2 exceeded"
    );
}

#[test]
fn lenient_unexpected_top_level() {
    let error = LenientJsonDecodeError::unexpected_top_level(
        JsonTopLevelKind::Array,
        JsonTopLevelKind::Object,
        2,
        2,
        REDACTED,
    );
    assert_eq!(error.kind(), LenientJsonDecodeErrorKind::UnexpectedTopLevel);
    assert_eq!(error.stage(), LenientJsonDecodeStage::TopLevelCheck);
    assert_eq!(error.expected_top_level(), Some(JsonTopLevelKind::Array));
    assert_eq!(error.actual_top_level(), Some(JsonTopLevelKind::Object));
    assert_eq!(
        error.to_text(),
        "Unexpected JSON top-level type: expected array, got object"
    );
}

#[test]
fn lenient_deserialize_error() {
    let error = LenientJsonDecodeError::deserialize(1, 7, "invalid type", 7, 7, REDACTED);
    assert_eq!(error.kind(), LenientJsonDecodeErrorKind::Deserialize);
    assert_eq!(error.stage(), LenientJsonDecodeStage::Deserialize);
    assert_eq!(
        error.to_text(),
        "Failed to deserialize JSON value at normalized line 1 column 7"
    );
}

#[test]
fn lenient_equality_ignores_retained_text() {
    let first = LenientJsonDecodeError::invalid_json(2, 5, "one", 9, 9, DETAILED);
    let second = LenientJsonDecodeError::invalid_json(2, 5, "two", 9, 9, DETAILED);
    assert_eq!(first, second);
    assert_ne!(first, LenientJsonDecodeError::invalid_json(2, 6, "one", 9, 9, DETAILED));
    assert_ne!(first, LenientJsonDecodeError::invalid_json(2, 5, "one", 9, 9, REDACTED));
    assert_ne!(
        first,
        LenientJsonDecodeError::deserialize(2, 5, "one", 9, 9, DETAILED)
    );
}

#[test]
fn lenient_budget_equality_compares_resource() {
    let depth = LenientJsonDecodeError::budget(JsonResource::Depth, "a", 1, 1, REDACTED);
    let depth_again = LenientJsonDecodeError::budget(JsonResource::Depth, "b", 1, 1, REDACTED);
    let nodes = LenientJsonDecodeError::budget(JsonResource::Nodes, "a", 1, 1, REDACTED);
    assert_eq!(depth, depth_again);
    assert_ne!(depth, nodes);
}

#[test]
fn lenient_clone_is_equal_and_keeps_text() {
    let error = LenientJsonDecodeError::invalid_utf8(3, Some(2), "why", 5, DETAILED);
    let copy = error.clone();
    assert_eq!(copy, error);
    assert_eq!(copy.to_text(), error.to_text());
    assert_eq!(copy.privacy_policy(), DETAILED);
}

#[test]
fn lenient_redacted_text_is_stable() {
    let first = LenientJsonDecodeError::deserialize(3, 1, "secret", 4, 4, REDACTED);
    let second = LenientJsonDecodeError::deserialize(3, 1, "other", 4, 4, REDACTED);
    assert_eq!(first.to_text(), second.to_text());
    assert!(!first.to_text().contains("secret"));
}
