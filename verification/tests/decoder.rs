use std::borrow::Cow;

use qubit_budget::json::{JsonDecodeLimits, JsonDecodeSession};
use qubit_json::options::JsonDecodeOptions;
use qubit_json::{
    DecodeSessionBorrow, DecodeSessionRef, ErrorPrivacyPolicy, JsonDecodeErrorKind, JsonDecodeStage,
    JsonDeserializeError, JsonDeserializeErrorCategory, JsonTopLevelKind, LenientJsonDecoder,
    LenientJsonNormalizer,
    MarkdownFenceClosing, MarkdownFencePolicy,
};

fn lenient() -> LenientJsonDecoder {
    LenientJsonDecoder::new(JsonDecodeOptions::lenient())
}

#[test]
fn normalize_strips_whitespace_fence_and_escapes_controls() {
    let decoder = lenient();
    let text = decoder
        .normalize("  ```json\n{\"a\":\"x\ty\"}\n```  ")
        .expect("normalized");
    assert_eq!(text.as_ref(), "{\"a\":\"x\\ty\"}");
}

#[test]
fn normalize_escapes_each_control_character_class() {
    let decoder = lenient();
    let text = decoder
        .normalize("[\"a\nb\",\"\u{1}\",\"\r\u{8}\u{c}\u{b}\"]")
        .expect("normalized");
    assert_eq!(text.as_ref(), "[\"a\\nb\",\"\\u0001\",\"\\r\\b\\f\\u000b\"]");
}

#[test]
fn normalize_repairs_control_character_after_backslash() {
    let decoder = lenient();
    let text = decoder.normalize("\"a\\\tb\"").expect("normalized");
    assert_eq!(text.as_ref(), "\"a\\tb\"");
}

#[test]
fn normalize_leaves_controls_outside_strings() {
    let decoder = lenient();
    let text = decoder.normalize("{\"a\":\t1}").expect("normalized");
    assert_eq!(text.as_ref(), "{\"a\":\t1}");
}

#[test]
fn normalize_is_idempotent_on_its_output() {
    let decoder = lenient();
    let first = decoder
        .normalize("```json\n{\"a\":\"x\ny\u{1f}\"}\n```")
        .expect("normalized")
        .into_owned();
    let second = decoder.normalize(&first).expect("normalized again");
    assert_eq!(second.as_ref(), first.as_str());
}

#[test]
fn normalize_removes_one_byte_order_mark() {
    let decoder = lenient();
    let text = decoder.normalize("\u{feff}{\"a\":1}").expect("normalized");
    assert_eq!(text.as_ref(), "{\"a\":1}");
}

#[test]
fn strict_normalize_keeps_input() {
    let decoder = LenientJsonDecoder::new(JsonDecodeOptions::strict());
    let text = decoder.normalize("  {\"a\":\"x\ty\"}  ").expect("normalized");
    assert_eq!(text.as_ref(), "  {\"a\":\"x\ty\"}  ");
}

#[test]
fn normalize_rejects_empty_input() {
    let decoder = lenient();
    let error = decoder.normalize("   ").expect_err("empty");
    assert_eq!(error.kind(), JsonDecodeErrorKind::EmptyInput);
    assert_eq!(error.stage(), JsonDecodeStage::Normalize);
    assert_eq!(error.message(), "JSON input is empty after normalization");
    assert_eq!(error.raw_input_bytes(), 3);
}

#[test]
fn normalize_rejects_raw_input_over_limit() {
    let options = JsonDecodeOptions::lenient().with_max_input_bytes(Some(3));
    let decoder = LenientJsonDecoder::new(options);
    let error = decoder.normalize("[1,2]").expect_err("too large");
    assert_eq!(error.kind(), JsonDecodeErrorKind::InputTooLarge);
    assert_eq!(
        error.message(),
        "JSON input is too large: 5 bytes exceed configured limit 3 bytes"
    );
    assert_eq!(error.max_input_bytes(), Some(3));
    assert_eq!(error.raw_input_bytes(), 5);
}

#[test]
fn normalize_rejects_normalized_input_over_limit() {
    let options = JsonDecodeOptions::lenient().with_max_normalized_bytes(Some(4));
    let decoder = LenientJsonDecoder::new(options);
    let error = decoder.normalize("  [1,2]  ").expect_err("too large");
    assert_eq!(error.kind(), JsonDecodeErrorKind::InputTooLarge);
    assert_eq!(
        error.message(),
        "Normalized JSON input is too large: 5 bytes exceed configured limit 4 bytes"
    );
    assert_eq!(error.max_normalized_bytes(), Some(4));
    assert_eq!(error.normalized_input_bytes(), Some(5));
}

#[test]
fn normalize_keeps_fence_when_policy_is_disabled() {
    let options =
        JsonDecodeOptions::lenient().with_markdown_fence_policy(MarkdownFencePolicy::Disabled);
    let decoder = LenientJsonDecoder::new(options);
    let text = decoder.normalize("```json\n[1]\n```").expect("normalized");
    assert_eq!(text.as_ref(), "```json\n[1]\n```");
}

#[test]
fn normalize_json_only_fence_ignores_other_languages() {
    let decoder = lenient();
    let text = decoder.normalize("```yaml\n[1]\n```").expect("normalized");
    assert_eq!(text.as_ref(), "```yaml\n[1]\n```");
    let any = LenientJsonDecoder::new(JsonDecodeOptions::lenient().with_markdown_fence_policy(
        MarkdownFencePolicy::Any { closing: MarkdownFenceClosing::Required },
    ));
    let text = any.normalize("```yaml\n[1]\n```").expect("normalized");
    assert_eq!(text.as_ref(), "[1]");
}

#[test]
fn decode_text_accepts_utf8() {
    let decoder = lenient();
    let text = decoder.decode_text("{\"é\":1}".as_bytes()).expect("utf8");
    assert_eq!(text, "{\"é\":1}");
}

#[test]
fn decode_text_rejects_invalid_utf8_redacted() {
    let decoder = lenient();
    let error = decoder.decode_text(&[0x7b, 0xff]).expect_err("invalid");
    assert_eq!(error.kind(), JsonDecodeErrorKind::InvalidUtf8);
    assert_eq!(error.stage(), JsonDecodeStage::DecodeText);
    assert_eq!(error.utf8_valid_up_to(), Some(1));
    assert_eq!(error.utf8_error_len(), Some(1));
    assert_eq!(error.message(), "Failed to decode JSON input as UTF-8");
    assert_eq!(error.privacy_policy(), ErrorPrivacyPolicy::Redacted);
}

#[test]
fn decode_text_rejects_invalid_utf8_detailed() {
    let options =
        JsonDecodeOptions::lenient().with_error_privacy_policy(ErrorPrivacyPolicy::Detailed);
    let decoder = LenientJsonDecoder::new(options);
    let error = decoder.decode_text(&[0x7b, 0xff]).expect_err("invalid");
    assert_eq!(
        error.message(),
        "Failed to decode JSON input as UTF-8: invalid utf-8 sequence of 1 bytes from index 1"
    );
}

#[test]
fn decode_text_reports_truncated_sequence() {
    let decoder = lenient();
    let error = decoder.decode_text(&[0x5b, 0xe2, 0x82]).expect_err("truncated");
    assert_eq!(error.utf8_valid_up_to(), Some(1));
    assert_eq!(error.utf8_error_len(), None);
}

#[test]
fn decode_text_checks_raw_limit_first() {
    let options = JsonDecodeOptions::lenient().with_max_input_bytes(Some(1));
    let decoder = LenientJsonDecoder::new(options);
    let error = decoder.decode_text(&[0x7b, 0xff]).expect_err("too large");
    assert_eq!(error.kind(), JsonDecodeErrorKind::InputTooLarge);
    assert_eq!(error.stage(), JsonDecodeStage::Normalize);
}

#[test]
fn validate_json_accepts_and_rejects() {
    assert!(LenientJsonDecoder::validate_json("[1,2]", 5, 5, ErrorPrivacyPolicy::Redacted).is_ok());
    let error = LenientJsonDecoder::validate_json("[1,", 3, 3, ErrorPrivacyPolicy::Redacted)
        .expect_err("invalid");
    assert_eq!(error.kind(), JsonDecodeErrorKind::InvalidJson);
    assert_eq!(error.stage(), JsonDecodeStage::Parse);
    assert_eq!(error.message(), "Failed to parse JSON at normalized line 1 column 3");
    assert_eq!(error.normalized_line(), Some(1));
    assert_eq!(error.normalized_column(), Some(3));
}

#[test]
fn check_top_level_accepts_expected_kind() {
    assert!(LenientJsonDecoder::check_top_level(
        "{}",
        JsonTopLevelKind::Object,
        2,
        ErrorPrivacyPolicy::Redacted
    )
    .is_ok());
}

#[test]
fn check_top_level_rejects_other_kind() {
    let error = LenientJsonDecoder::check_top_level(
        "[1]",
        JsonTopLevelKind::Object,
        3,
        ErrorPrivacyPolicy::Redacted,
    )
    .expect_err("array");
    assert_eq!(error.kind(), JsonDecodeErrorKind::UnexpectedTopLevel);
    assert_eq!(error.stage(), JsonDecodeStage::TopLevelCheck);
    assert_eq!(error.expected_top_level(), Some(JsonTopLevelKind::Object));
    assert_eq!(error.actual_top_level(), Some(JsonTopLevelKind::Array));
    assert_eq!(
        error.message(),
        "Unexpected JSON top-level type: expected object, got array"
    );
}

#[test]
fn check_top_level_reports_invalid_json_first() {
    let error = LenientJsonDecoder::check_top_level(
        "[1,",
        JsonTopLevelKind::Object,
        3,
        ErrorPrivacyPolicy::Redacted,
    )
    .expect_err("invalid");
    assert_eq!(error.kind(), JsonDecodeErrorKind::InvalidJson);
}

#[test]
fn map_decode_error_classifies_data_error_on_valid_json() {
    let failure = JsonDeserializeError::new(JsonDeserializeErrorCategory::Data, 1, 7);
    let error = LenientJsonDecoder::map_decode_error(
        "{\"a\":1}",
        failure,
        "invalid type",
        7,
        7,
        ErrorPrivacyPolicy::Redacted,
    );
    assert_eq!(error.kind(), JsonDecodeErrorKind::Deserialize);
    assert_eq!(error.stage(), JsonDecodeStage::Deserialize);
    assert_eq!(
        error.message(),
        "Failed to deserialize JSON value at normalized line 1 column 7"
    );
}

#[test]
fn map_decode_error_detailed_keeps_detail() {
    let failure = JsonDeserializeError::new(JsonDeserializeErrorCategory::Data, 1, 7);
    let error = LenientJsonDecoder::map_decode_error(
        "{\"a\":1}",
        failure,
        "invalid type",
        7,
        7,
        ErrorPrivacyPolicy::Detailed,
    );
    assert_eq!(error.message(), "Failed to deserialize JSON value: invalid type");
}

#[test]
fn map_decode_error_classifies_syntax_as_invalid_json() {
    let failure = JsonDeserializeError::new(JsonDeserializeErrorCategory::Syntax, 0, 0);
    let error = LenientJsonDecoder::map_decode_error(
        "[1,",
        failure,
        "eof",
        3,
        3,
        ErrorPrivacyPolicy::Redacted,
    );
    assert_eq!(error.kind(), JsonDecodeErrorKind::InvalidJson);
    assert_eq!(error.message(), "Failed to parse JSON");
    assert_eq!(error.normalized_line(), None);
}

#[test]
fn redacted_diagnostics_ignore_parser_detail() {
    let a = LenientJsonDecoder::map_decode_error(
        "[1,",
        JsonDeserializeError::new(JsonDeserializeErrorCategory::Eof, 1, 3),
        "secret one",
        3,
        3,
        ErrorPrivacyPolicy::Redacted,
    );
    let b = LenientJsonDecoder::map_decode_error(
        "[1,",
        JsonDeserializeError::new(JsonDeserializeErrorCategory::Eof, 1, 3),
        "another secret",
        3,
        3,
        ErrorPrivacyPolicy::Redacted,
    );
    assert_eq!(a.message(), b.message());
    assert!(!a.message().contains("secret"));
}

#[test]
fn decoder_reports_its_options() {
    let options = JsonDecodeOptions::strict().with_trim_whitespace(true);
    let decoder = LenientJsonDecoder::new(options);
    assert_eq!(*decoder.options(), options);
}

#[test]
fn prepared_text_reports_sizes_and_finishes() {
    let normalizer = LenientJsonNormalizer::new(JsonDecodeOptions::lenient());
    let prepared = normalizer.prepare("  ```json\n[\"a\tb\"]\n```").expect("prepared");
    assert_eq!(prepared.raw_input_bytes(), 21);
    assert_eq!(prepared.normalized_input_bytes(), 8);
    let text = prepared.finish().expect("finished");
    assert_eq!(text.as_ref(), "[\"a\\tb\"]");
}

#[test]
fn prepare_ignores_option_limits_and_rejects_empty() {
    let options = JsonDecodeOptions::lenient().with_max_input_bytes(Some(1));
    let normalizer = LenientJsonNormalizer::new(options);
    assert!(normalizer.prepare("[1, 2]").is_ok());
    let error = normalizer.prepare(" \n ").err().expect("empty");
    assert_eq!(error.kind(), JsonDecodeErrorKind::EmptyInput);
    assert_eq!(error.normalized_input_bytes(), None);
}

#[test]
fn finish_rejects_text_emptied_by_fence_removal() {
    let normalizer = LenientJsonNormalizer::new(JsonDecodeOptions::lenient());
    let prepared = normalizer.prepare("```json\n```").expect("prepared");
    let error = prepared.finish().expect_err("empty");
    assert_eq!(error.kind(), JsonDecodeErrorKind::EmptyInput);
    assert_eq!(error.normalized_input_bytes(), Some(0));
}

#[test]
fn budget_rejections_use_reported_limit_or_amount() {
    let normalizer = LenientJsonNormalizer::new(JsonDecodeOptions::lenient());
    let raw = normalizer.raw_input_rejection(10, Some(4));
    assert_eq!(raw.max_input_bytes(), Some(4));
    assert_eq!(raw.message(), "JSON input is too large: 10 bytes exceed configured limit 4 bytes");
    let raw_unknown = normalizer.raw_input_rejection(10, None);
    assert_eq!(raw_unknown.max_input_bytes(), Some(10));
    let normalized = normalizer.normalized_input_rejection(10, 7, None);
    assert_eq!(normalized.max_normalized_bytes(), Some(7));
    assert_eq!(normalized.normalized_input_bytes(), Some(7));
}

#[test]
fn json_fence_tag_is_its_first_word_ignoring_case() {
    let decoder = lenient();
    let text = decoder.normalize("```JSON title=\"x\"\n[1]\n```").expect("normalized");
    assert_eq!(text.as_ref(), "[1]");
    let text = decoder.normalize("```jsonc\u{3000}note\n[2]\n```").expect("normalized");
    assert_eq!(text.as_ref(), "[2]");
    let text = decoder.normalize("```jsonx\n[3]\n```").expect("normalized");
    assert_eq!(text.as_ref(), "```jsonx\n[3]\n```");
    let text = decoder.normalize("```\n[4]\n```").expect("normalized");
    assert_eq!(text.as_ref(), "[4]");
}

#[test]
fn lenient_preset_strips_a_fence_of_any_language() {
    let decoder = LenientJsonDecoder::new(qubit_json::JsonDecodeOptions::lenient().into());
    let text = decoder.normalize("```yaml\n[1]\n```").expect("normalized");
    assert_eq!(text.as_ref(), "[1]");
    let text = decoder.normalize("```yaml\n[1]").expect("normalized");
    assert_eq!(text.as_ref(), "[1]");
    let json_only =
        LenientJsonDecoder::new(qubit_json::JsonDecodeOptions::json_code_fences_only().into());
    let text = json_only.normalize("```yaml\n[1]\n```").expect("normalized");
    assert_eq!(text.as_ref(), "```yaml\n[1]\n```");
}

#[test]
fn normalize_borrows_unless_repair_is_needed() {
    let decoder = lenient();
    let text = decoder.normalize("  \u{feff} [1] ").expect("normalized");
    assert!(matches!(text, Cow::Borrowed("[1]")));
    let text = decoder.normalize("[\"a\nb\"]").expect("normalized");
    assert!(matches!(text, Cow::Owned(_)));
    assert_eq!(text.as_ref(), "[\"a\\nb\"]");
}

#[test]
fn session_refuses_raw_input_over_its_limit() {
    let normalizer = LenientJsonNormalizer::new(JsonDecodeOptions::lenient());
    let limits = JsonDecodeLimits::builder().max_input_bytes(3_usize).build();
    let mut session = JsonDecodeSession::from_limits(limits);
    let mut handle = DecodeSessionRef::new(DecodeSessionBorrow { session: &mut session });
    let error = normalizer.normalize_with_session("[1,2]", &mut handle, true).expect_err("refused");
    assert_eq!(error.kind(), JsonDecodeErrorKind::InputTooLarge);
    assert_eq!(error.max_input_bytes(), Some(3));
    assert_eq!(error.raw_input_bytes(), 5);
    let text = normalizer.normalize_after_raw_charge("[1,2]", &mut handle).expect("not charged");
    assert_eq!(text.as_ref(), "[1,2]");
}

#[test]
fn session_refuses_normalized_input_over_its_limit() {
    let normalizer = LenientJsonNormalizer::new(JsonDecodeOptions::lenient());
    let limits = JsonDecodeLimits::builder().max_normalized_input_bytes(4_usize).build();
    let mut session = JsonDecodeSession::from_limits(limits);
    let mut handle = DecodeSessionRef::new(DecodeSessionBorrow { session: &mut session });
    let error =
        normalizer.normalize_with_session("  [1,2]  ", &mut handle, true).expect_err("refused");
    assert_eq!(error.kind(), JsonDecodeErrorKind::InputTooLarge);
    assert_eq!(error.max_normalized_bytes(), Some(4));
    assert_eq!(error.normalized_input_bytes(), Some(5));
    assert_eq!(error.raw_input_bytes(), 9);
}

#[test]
fn session_charges_accumulate_and_ignore_option_limits() {
    let normalizer =
        LenientJsonNormalizer::new(JsonDecodeOptions::lenient().with_max_input_bytes(Some(1)));
    let limits = JsonDecodeLimits::builder().max_input_bytes(6_usize).build();
    let mut session = JsonDecodeSession::from_limits(limits);
    let mut handle = DecodeSessionRef::new(DecodeSessionBorrow { session: &mut session });
    let text = normalizer.normalize_with_session(" [1] ", &mut handle, true).expect("admitted");
    assert!(matches!(text, Cow::Borrowed("[1]")));
    let error = normalizer.normalize_with_session("[2]", &mut handle, true).expect_err("spent");
    assert_eq!(error.max_input_bytes(), Some(6));
    let error = normalizer.normalize_with_session(" ", &mut handle, false).expect_err("empty");
    assert_eq!(error.kind(), JsonDecodeErrorKind::EmptyInput);
    assert_eq!(error.normalized_input_bytes(), None);
}
