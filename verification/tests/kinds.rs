use qubit_json::{
    ErrorPrivacyPolicy, JsonDecodeErrorKind, JsonDecodeOptions, JsonDecodeStage,
    JsonDeserializeErrorCategory, JsonTopLevelKind, LenientJsonDecodeStage, MarkdownFenceClosing,
    MarkdownFencePolicy,
};
use qubit_json::options::JsonDecodeOptions as NormalizerOptions;

#[test]
fn top_level_kind_of_normalized_json() {
    assert_eq!(JsonTopLevelKind::of_normalized_json(" \n{\"a\":1}"), JsonTopLevelKind::Object);
    assert_eq!(JsonTopLevelKind::of_normalized_json("\t[1]"), JsonTopLevelKind::Array);
    assert_eq!(JsonTopLevelKind::of_normalized_json("\"x\""), JsonTopLevelKind::Other);
    assert_eq!(JsonTopLevelKind::of_normalized_json("   "), JsonTopLevelKind::Other);
}

#[test]
fn top_level_kind_names_round_trip() {
    for kind in [JsonTopLevelKind::Object, JsonTopLevelKind::Array, JsonTopLevelKind::Other] {
        assert_eq!(JsonTopLevelKind::parse_name(kind.name()), Ok(kind));
        assert_eq!(kind.name().parse::<JsonTopLevelKind>(), Ok(kind));
    }
    assert_eq!(JsonTopLevelKind::parse_name("OBJECT"), Ok(JsonTopLevelKind::Object));
    assert_eq!(JsonTopLevelKind::parse_name("objects"), Err("unknown JsonTopLevelKind"));
}

#[test]
fn decode_error_kind_names_round_trip() {
    let kinds = [
        (JsonDecodeErrorKind::InputTooLarge, "input_too_large"),
        (JsonDecodeErrorKind::EmptyInput, "empty_input"),
        (JsonDecodeErrorKind::InvalidUtf8, "invalid_utf8"),
        (JsonDecodeErrorKind::InvalidJson, "invalid_json"),
        (JsonDecodeErrorKind::UnexpectedTopLevel, "unexpected_top_level"),
        (JsonDecodeErrorKind::Deserialize, "deserialize"),
    ];
    for (kind, name) in kinds {
        assert_eq!(kind.name(), name);
        assert_eq!(JsonDecodeErrorKind::parse_name(name), Ok(kind));
        assert_eq!(name.to_ascii_uppercase().parse::<JsonDecodeErrorKind>(), Ok(kind));
    }
    assert_eq!(JsonDecodeErrorKind::parse_name("budget"), Err("unknown JsonDecodeErrorKind"));
}

#[test]
fn stage_names() {
    assert_eq!(JsonDecodeStage::DecodeText.name(), "decode_text");
    assert_eq!(JsonDecodeStage::Normalize.name(), "normalize");
    assert_eq!(JsonDecodeStage::Parse.name(), "parse");
    assert_eq!(JsonDecodeStage::TopLevelCheck.name(), "top_level_check");
    assert_eq!(JsonDecodeStage::Deserialize.name(), "deserialize");
    assert_eq!(LenientJsonDecodeStage::Admission.name(), "admission");
    assert_eq!(LenientJsonDecodeStage::TopLevelCheck.name(), "top_level_check");
}

#[test]
fn deserialize_category_names() {
    assert_eq!(JsonDeserializeErrorCategory::Data.name(), "data");
    assert_eq!(JsonDeserializeErrorCategory::Eof.name(), "eof");
    assert_eq!(JsonDeserializeErrorCategory::Io.name(), "io");
    assert_eq!(JsonDeserializeErrorCategory::Syntax.name(), "syntax");
}

#[test]
fn lenient_options_defaults() {
    let options = JsonDecodeOptions::lenient();
    assert!(options.trim_whitespace());
    assert!(options.strip_utf8_bom());
    assert!(options.escape_control_chars_in_strings());
    assert_eq!(
        options.markdown_fence_policy(),
        MarkdownFencePolicy::Any { closing: MarkdownFenceClosing::Optional }
    );
    assert_eq!(options.max_input_bytes(), None);
    assert_eq!(options.error_privacy_policy(), ErrorPrivacyPolicy::Redacted);
    assert_eq!(JsonDecodeOptions::default(), options);
    assert_eq!(ErrorPrivacyPolicy::default(), ErrorPrivacyPolicy::Redacted);
}

#[test]
fn json_code_fences_only_changes_only_the_fence_policy() {
    let options = JsonDecodeOptions::json_code_fences_only();
    assert_eq!(
        options.markdown_fence_policy(),
        MarkdownFencePolicy::JsonOnly { closing: MarkdownFenceClosing::Optional }
    );
    assert_eq!(
        options,
        JsonDecodeOptions::lenient().with_markdown_fence_policy(MarkdownFencePolicy::JsonOnly {
            closing: MarkdownFenceClosing::Optional,
        })
    );
}

#[test]
fn normalizer_options_defaults() {
    let options = NormalizerOptions::lenient();
    assert!(options.trim_whitespace());
    assert!(options.strip_utf8_bom());
    assert!(options.escape_control_chars_in_strings());
    assert_eq!(
        options.markdown_fence_policy(),
        MarkdownFencePolicy::JsonOnly { closing: MarkdownFenceClosing::Optional }
    );
    assert_eq!(options.max_input_bytes(), None);
    assert_eq!(options.max_normalized_bytes(), None);
    assert_eq!(options.error_privacy_policy(), ErrorPrivacyPolicy::Redacted);
    assert_eq!(NormalizerOptions::default(), options);
    let strict = NormalizerOptions::strict();
    assert!(!strict.trim_whitespace());
    assert_eq!(strict.markdown_fence_policy(), MarkdownFencePolicy::Disabled);
}

#[test]
fn options_convert_with_no_normalized_limit() {
    let options = JsonDecodeOptions::strict()
        .with_trim_whitespace(true)
        .with_max_input_bytes(Some(7))
        .with_error_privacy_policy(ErrorPrivacyPolicy::Detailed);
    let converted = NormalizerOptions::from(options);
    assert!(converted.trim_whitespace());
    assert!(!converted.strip_utf8_bom());
    assert_eq!(converted.markdown_fence_policy(), MarkdownFencePolicy::Disabled);
    assert!(!converted.escape_control_chars_in_strings());
    assert_eq!(converted.max_input_bytes(), Some(7));
    assert_eq!(converted.max_normalized_bytes(), None);
    assert_eq!(converted.error_privacy_policy(), ErrorPrivacyPolicy::Detailed);
}

#[test]
fn strict_options_disable_normalization() {
    let options = JsonDecodeOptions::strict();
    assert!(!options.trim_whitespace());
    assert!(!options.strip_utf8_bom());
    assert!(!options.escape_control_chars_in_strings());
    assert_eq!(options.markdown_fence_policy(), MarkdownFencePolicy::Disabled);
}

#[test]
fn option_builders_set_one_field() {
    let options = JsonDecodeOptions::strict()
        .with_trim_whitespace(true)
        .with_strip_utf8_bom(true)
        .with_escape_control_chars_in_strings(true)
        .with_max_input_bytes(Some(10))
        .with_error_privacy_policy(ErrorPrivacyPolicy::Detailed)
        .with_markdown_fence_policy(MarkdownFencePolicy::Any {
            closing: MarkdownFenceClosing::Required,
        });
    assert!(options.trim_whitespace());
    assert!(options.strip_utf8_bom());
    assert!(options.escape_control_chars_in_strings());
    assert_eq!(options.max_input_bytes(), Some(10));
    assert_eq!(options.error_privacy_policy(), ErrorPrivacyPolicy::Detailed);
    assert_eq!(
        options.markdown_fence_policy(),
        MarkdownFencePolicy::Any { closing: MarkdownFenceClosing::Required }
    );
}

#[test]
fn normalizer_option_builders_set_one_field() {
    let options = NormalizerOptions::strict()
        .with_max_input_bytes(Some(10))
        .with_max_normalized_bytes(Some(8))
        .with_strip_utf8_bom(true);
    assert_eq!(options.max_input_bytes(), Some(10));
    assert_eq!(options.max_normalized_bytes(), Some(8));
    assert!(options.strip_utf8_bom());
    assert!(!options.trim_whitespace());
    assert!(!options.escape_control_chars_in_strings());
}

#[test]
fn normalized_limit_round_trip_gives_back_the_options() {
    let options = NormalizerOptions::lenient().with_max_normalized_bytes(Some(3));
    let changed = options.with_max_normalized_bytes(None);
    assert_eq!(changed.max_normalized_bytes(), None);
    assert_eq!(changed.with_max_normalized_bytes(options.max_normalized_bytes()), options);
}

#[test]
fn kind_names_parse_back_in_upper_case() {
    for kind in [
        JsonDecodeErrorKind::InputTooLarge,
        JsonDecodeErrorKind::EmptyInput,
        JsonDecodeErrorKind::InvalidUtf8,
        JsonDecodeErrorKind::InvalidJson,
        JsonDecodeErrorKind::UnexpectedTopLevel,
        JsonDecodeErrorKind::Deserialize,
    ] {
        assert_eq!(kind.name().to_ascii_uppercase().parse::<JsonDecodeErrorKind>(), Ok(kind));
    }
    assert_eq!("input-too-large".parse::<JsonDecodeErrorKind>(), Err("unknown JsonDecodeErrorKind"));
    for kind in [JsonTopLevelKind::Object, JsonTopLevelKind::Array, JsonTopLevelKind::Other] {
        assert_eq!(kind.name().to_ascii_uppercase().parse::<JsonTopLevelKind>(), Ok(kind));
    }
    assert_eq!("objects".parse::<JsonTopLevelKind>(), Err("unknown JsonTopLevelKind"));
}
