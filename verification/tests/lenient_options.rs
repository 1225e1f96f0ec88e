use qubit_json::{
    has_json_value_limits, ErrorPrivacyPolicy, JsonValueLimitSet, LenientJsonDecodeOptions,
    LenientJsonDecodeOptionsBuilder, MarkdownFenceClosing, MarkdownFencePolicy,
};

fn no_limits() -> JsonValueLimitSet {
    JsonValueLimitSet {
        max_depth: None,
        max_nodes: None,
        max_sequence_items: None,
        max_map_entries: None,
        max_key_bytes: None,
        max_string_bytes: None,
        max_number_bytes: None,
        max_payload_bytes: None,
    }
}

#[test]
fn value_limit_set_detects_any_limit() {
    assert!(!has_json_value_limits(&no_limits()));
    assert!(has_json_value_limits(&JsonValueLimitSet { max_depth: Some(4), ..no_limits() }));
    assert!(has_json_value_limits(&JsonValueLimitSet { max_payload_bytes: Some(0), ..no_limits() }));
    assert!(has_json_value_limits(&JsonValueLimitSet { max_key_bytes: Some(9), ..no_limits() }));
}

#[test]
fn lenient_decode_options_defaults() {
    let options = LenientJsonDecodeOptions::lenient();
    assert!(options.trim_whitespace());
    assert!(options.strip_utf8_bom());
    assert!(options.escape_control_chars_in_strings());
    assert_eq!(
        *options.markdown_fence_policy(),
        MarkdownFencePolicy::JsonOnly { closing: MarkdownFenceClosing::Optional }
    );
    assert_eq!(options.max_input_bytes(), None);
    assert_eq!(options.max_normalized_bytes(), None);
    assert_eq!(options.value_limits(), None);
    assert_eq!(options.error_privacy_policy(), ErrorPrivacyPolicy::Redacted);
    assert_eq!(LenientJsonDecodeOptions::default(), options);
    assert_eq!(LenientJsonDecodeOptions::builder().build(), options);
    assert_eq!(LenientJsonDecodeOptionsBuilder::default().build(), options);
}

#[test]
fn strict_lenient_decode_options() {
    let options = LenientJsonDecodeOptions::strict();
    assert!(!options.trim_whitespace());
    assert!(!options.strip_utf8_bom());
    assert!(!options.escape_control_chars_in_strings());
    assert_eq!(*options.markdown_fence_policy(), MarkdownFencePolicy::Disabled);
}

#[test]
fn builder_sets_each_option() {
    let limits = JsonValueLimitSet { max_nodes: Some(8), ..no_limits() };
    let options = LenientJsonDecodeOptions::builder()
        .trim_whitespace(false)
        .strip_utf8_bom(false)
        .markdown_fence_policy(MarkdownFencePolicy::Disabled)
        .escape_control_chars_in_strings(false)
        .max_input_bytes(Some(64))
        .max_normalized_bytes(Some(32))
        .value_limits(Some(limits))
        .error_privacy_policy(ErrorPrivacyPolicy::Detailed)
        .build();
    assert!(!options.trim_whitespace());
    assert!(!options.strip_utf8_bom());
    assert!(!options.escape_control_chars_in_strings());
    assert_eq!(*options.markdown_fence_policy(), MarkdownFencePolicy::Disabled);
    assert_eq!(options.max_input_bytes(), Some(64));
    assert_eq!(options.max_normalized_bytes(), Some(32));
    assert_eq!(options.value_limits(), Some(limits));
    assert_eq!(options.error_privacy_policy(), ErrorPrivacyPolicy::Detailed);
}
