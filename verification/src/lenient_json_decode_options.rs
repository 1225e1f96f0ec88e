//! Options of the budgeted lenient decoder.

use vstd::prelude::*;

use crate::error_privacy_policy::ErrorPrivacyPolicy;
use crate::markdown_fence_policy::{MarkdownFenceClosing, MarkdownFencePolicy};

verus! {

/// The per-value resource limits of a decode, as plain values: each is the
/// configured maximum, or `None` when that resource is not limited.
#[derive(Debug, Clone, Copy, PartialEq, Eq, Structural)]
pub struct JsonValueLimitSet {
    /// Maximum root-inclusive nesting depth.
    pub max_depth: Option<usize>,
    /// Maximum number of JSON nodes.
    pub max_nodes: Option<usize>,
    /// Maximum number of items in one array.
    pub max_sequence_items: Option<usize>,
    /// Maximum number of entries in one object.
    pub max_map_entries: Option<usize>,
    /// Maximum byte length of one object key.
    pub max_key_bytes: Option<usize>,
    /// Maximum byte length of one string value.
    pub max_string_bytes: Option<usize>,
    /// Maximum byte length of one number.
    pub max_number_bytes: Option<usize>,
    /// Maximum cumulative bytes of keys, strings and numbers.
    pub max_payload_bytes: Option<usize>,
}

impl JsonValueLimitSet {
    /// At least one resource is limited.
    pub open spec fn limits_anything(self) -> bool {
        ||| self.max_depth is Some
        ||| self.max_nodes is Some
        ||| self.max_sequence_items is Some
        ||| self.max_map_entries is Some
        ||| self.max_key_bytes is Some
        ||| self.max_string_bytes is Some
        ||| self.max_number_bytes is Some
        ||| self.max_payload_bytes is Some
    }
}

/// Returns whether `limits` limits at least one value resource.
pub fn has_json_value_limits(limits: &JsonValueLimitSet) -> (limited: bool)
    ensures
        limited == limits.limits_anything(),
{
    limits.max_depth.is_some() || limits.max_nodes.is_some() || limits.max_sequence_items.is_some()
        || limits.max_map_entries.is_some() || limits.max_key_bytes.is_some()
        || limits.max_string_bytes.is_some() || limits.max_number_bytes.is_some()
        || limits.max_payload_bytes.is_some()
}

/// Normalization, size, value-limit and diagnostic options of the budgeted
/// lenient decoder.
#[derive(Debug, Clone, Copy, PartialEq, Eq, Structural)]
pub struct LenientJsonDecodeOptions {
    /// Whether surrounding whitespace is trimmed.
    trim_whitespace: bool,
    /// Whether one leading byte order mark is removed.
    strip_utf8_bom: bool,
    /// How one outer Markdown fence is removed.
    markdown_fence_policy: MarkdownFencePolicy,
    /// Whether raw control characters inside strings are escaped.
    escape_control_chars_in_strings: bool,
    /// Raw input byte limit.
    max_input_bytes: Option<usize>,
    /// Normalized input byte limit.
    max_normalized_bytes: Option<usize>,
    /// Per-value resource limits.
    value_limits: Option<JsonValueLimitSet>,
    /// Whether errors retain input-derived diagnostics.
    error_privacy_policy: ErrorPrivacyPolicy,
}

impl LenientJsonDecodeOptions {
    /// Whether surrounding whitespace is trimmed.
    pub closed spec fn spec_trim_whitespace(self) -> bool {
        self.trim_whitespace
    }

    /// Whether one leading byte order mark is removed.
    pub closed spec fn spec_strip_utf8_bom(self) -> bool {
        self.strip_utf8_bom
    }

    /// How one outer Markdown fence is removed.
    pub closed spec fn spec_markdown_fence_policy(self) -> MarkdownFencePolicy {
        self.markdown_fence_policy
    }

    /// Whether raw control characters inside strings are escaped.
    pub closed spec fn spec_escape_control_chars_in_strings(self) -> bool {
        self.escape_control_chars_in_strings
    }

    /// The raw input byte limit.
    pub closed spec fn spec_max_input_bytes(self) -> Option<usize> {
        self.max_input_bytes
    }

    /// The normalized input byte limit.
    pub closed spec fn spec_max_normalized_bytes(self) -> Option<usize> {
        self.max_normalized_bytes
    }

    /// The per-value resource limits.
    pub closed spec fn spec_value_limits(self) -> Option<JsonValueLimitSet> {
        self.value_limits
    }

    /// The diagnostic privacy policy.
    pub closed spec fn spec_error_privacy_policy(self) -> ErrorPrivacyPolicy {
        self.error_privacy_policy
    }

    /// Every setting, in declaration order.
    pub open spec fn settings(self) -> (
        bool,
        bool,
        MarkdownFencePolicy,
        bool,
        Option<usize>,
        Option<usize>,
        Option<JsonValueLimitSet>,
        ErrorPrivacyPolicy,
    ) {
        (
            self.spec_trim_whitespace(),
            self.spec_strip_utf8_bom(),
            self.spec_markdown_fence_policy(),
            self.spec_escape_control_chars_in_strings(),
            self.spec_max_input_bytes(),
            self.spec_max_normalized_bytes(),
            self.spec_value_limits(),
            self.spec_error_privacy_policy(),
        )
    }

    /// The default lenient option set.
    pub open spec fn is_lenient(self) -> bool {
        &&& self.spec_trim_whitespace()
        &&& self.spec_strip_utf8_bom()
        &&& self.spec_markdown_fence_policy() == (MarkdownFencePolicy::JsonOnly {
            closing: MarkdownFenceClosing::Optional,
        })
        &&& self.spec_escape_control_chars_in_strings()
        &&& self.spec_max_input_bytes() is None
        &&& self.spec_max_normalized_bytes() is None
        &&& self.spec_value_limits() is None
        &&& self.spec_error_privacy_policy() == ErrorPrivacyPolicy::Redacted
    }

    /// Creates the lenient option set: trimming, BOM removal,
    /// optional-closing JSON fence removal and control-character escaping,
    /// with no limits and redacted diagnostics.
    pub fn lenient() -> (options: Self)
        ensures
            options.is_lenient(),
    {
        LenientJsonDecodeOptions {
            trim_whitespace: true,
            strip_utf8_bom: true,
            markdown_fence_policy: MarkdownFencePolicy::JsonOnly { closing: MarkdownFenceClosing::Optional },
            escape_control_chars_in_strings: true,
            max_input_bytes: None,
            max_normalized_bytes: None,
            value_limits: None,
            error_privacy_policy: ErrorPrivacyPolicy::Redacted,
        }
    }

    /// Creates an option set that disables every normalization rule.
    pub fn strict() -> (options: Self)
        ensures
            !options.spec_trim_whitespace(),
            !options.spec_strip_utf8_bom(),
            options.spec_markdown_fence_policy() == MarkdownFencePolicy::Disabled,
            !options.spec_escape_control_chars_in_strings(),
            options.spec_max_input_bytes() is None,
            options.spec_max_normalized_bytes() is None,
            options.spec_value_limits() is None,
            options.spec_error_privacy_policy() == ErrorPrivacyPolicy::Redacted,
    {
        LenientJsonDecodeOptions {
            trim_whitespace: false,
            strip_utf8_bom: false,
            markdown_fence_policy: MarkdownFencePolicy::Disabled,
            escape_control_chars_in_strings: false,
            max_input_bytes: None,
            max_normalized_bytes: None,
            value_limits: None,
            error_privacy_policy: ErrorPrivacyPolicy::Redacted,
        }
    }

    /// Creates a builder that starts from the lenient option set.
    pub fn builder() -> (builder: LenientJsonDecodeOptionsBuilder)
        ensures
            builder.spec_options().is_lenient(),
    {
        LenientJsonDecodeOptionsBuilder::new()
    }

    /// Returns whether surrounding whitespace is trimmed.
    pub fn trim_whitespace(&self) -> (enabled: bool)
        ensures
            enabled == self.spec_trim_whitespace(),
    {
        self.trim_whitespace
    }

    /// Returns whether one leading byte order mark is removed.
    pub fn strip_utf8_bom(&self) -> (enabled: bool)
        ensures
            enabled == self.spec_strip_utf8_bom(),
    {
        self.strip_utf8_bom
    }

    /// Returns how one outer Markdown fence is removed.
    pub fn markdown_fence_policy(&self) -> (policy: &MarkdownFencePolicy)
        ensures
            *policy == self.spec_markdown_fence_policy(),
    {
        &self.markdown_fence_policy
    }

    /// Returns whether raw control characters inside strings are escaped.
    pub fn escape_control_chars_in_strings(&self) -> (enabled: bool)
        ensures
            enabled == self.spec_escape_control_chars_in_strings(),
    {
        self.escape_control_chars_in_strings
    }

    /// Returns the raw input byte limit.
    pub fn max_input_bytes(&self) -> (limit: Option<usize>)
        ensures
            limit == self.spec_max_input_bytes(),
    {
        self.max_input_bytes
    }

    /// Returns the normalized input byte limit.
    pub fn max_normalized_bytes(&self) -> (limit: Option<usize>)
        ensures
            limit == self.spec_max_normalized_bytes(),
    {
        self.max_normalized_bytes
    }

    /// Returns the per-value resource limits.
    pub fn value_limits(&self) -> (limits: Option<JsonValueLimitSet>)
        ensures
            limits == self.spec_value_limits(),
    {
        self.value_limits
    }

    /// Returns the diagnostic privacy policy.
    pub fn error_privacy_policy(&self) -> (policy: ErrorPrivacyPolicy)
        ensures
            policy == self.spec_error_privacy_policy(),
    {
        self.error_privacy_policy
    }
}

impl Default for LenientJsonDecodeOptions {
    /// Returns the lenient option set.
    fn default() -> (options: Self)
        ensures
            options.is_lenient(),
    {
        Self::lenient()
    }
}

/// Builds [`LenientJsonDecodeOptions`] one setting at a time.
#[derive(Debug, Clone, Copy, PartialEq, Eq, Structural)]
pub struct LenientJsonDecodeOptionsBuilder {
    /// The options built so far.
    options: LenientJsonDecodeOptions,
}

impl LenientJsonDecodeOptionsBuilder {
    /// The options built so far.
    pub closed spec fn spec_options(self) -> LenientJsonDecodeOptions {
        self.options
    }

    /// Creates a builder that starts from the lenient option set.
    pub fn new() -> (builder: Self)
        ensures
            builder.spec_options().is_lenient(),
    {
        LenientJsonDecodeOptionsBuilder { options: LenientJsonDecodeOptions::lenient() }
    }

    /// Sets whether surrounding whitespace is trimmed.
    pub fn trim_whitespace(self, enabled: bool) -> (builder: Self)
        ensures
            builder.spec_options().settings() == (
                enabled,
                self.spec_options().settings().1,
                self.spec_options().settings().2,
                self.spec_options().settings().3,
                self.spec_options().settings().4,
                self.spec_options().settings().5,
                self.spec_options().settings().6,
                self.spec_options().settings().7,
            ),
    {
        LenientJsonDecodeOptionsBuilder {
            options: LenientJsonDecodeOptions { trim_whitespace: enabled, ..self.options },
        }
    }

    /// Sets whether one leading byte order mark is removed.
    pub fn strip_utf8_bom(self, enabled: bool) -> (builder: Self)
        ensures
            builder.spec_options().settings() == (
                self.spec_options().settings().0,
                enabled,
                self.spec_options().settings().2,
                self.spec_options().settings().3,
                self.spec_options().settings().4,
                self.spec_options().settings().5,
                self.spec_options().settings().6,
                self.spec_options().settings().7,
            ),
    {
        LenientJsonDecodeOptionsBuilder {
            options: LenientJsonDecodeOptions { strip_utf8_bom: enabled, ..self.options },
        }
    }

    /// Sets how one outer Markdown fence is removed.
    pub fn markdown_fence_policy(self, policy: MarkdownFencePolicy) -> (builder: Self)
        ensures
            builder.spec_options().settings() == (
                self.spec_options().settings().0,
                self.spec_options().settings().1,
                policy,
                self.spec_options().settings().3,
                self.spec_options().settings().4,
                self.spec_options().settings().5,
                self.spec_options().settings().6,
                self.spec_options().settings().7,
            ),
    {
        LenientJsonDecodeOptionsBuilder {
            options: LenientJsonDecodeOptions { markdown_fence_policy: policy, ..self.options },
        }
    }

    /// Sets whether raw control characters inside strings are escaped.
    pub fn escape_control_chars_in_strings(self, enabled: bool) -> (builder: Self)
        ensures
            builder.spec_options().settings() == (
                self.spec_options().settings().0,
                self.spec_options().settings().1,
                self.spec_options().settings().2,
                enabled,
                self.spec_options().settings().4,
                self.spec_options().settings().5,
                self.spec_options().settings().6,
                self.spec_options().settings().7,
            ),
    {
        LenientJsonDecodeOptionsBuilder {
            options: LenientJsonDecodeOptions { escape_control_chars_in_strings: enabled, ..self.options },
        }
    }

    /// Sets the raw input byte limit.
    pub fn max_input_bytes(self, maximum: Option<usize>) -> (builder: Self)
        ensures
            builder.spec_options().settings() == (
                self.spec_options().settings().0,
                self.spec_options().settings().1,
                self.spec_options().settings().2,
                self.spec_options().settings().3,
                maximum,
                self.spec_options().settings().5,
                self.spec_options().settings().6,
                self.spec_options().settings().7,
            ),
    {
        LenientJsonDecodeOptionsBuilder {
            options: LenientJsonDecodeOptions { max_input_bytes: maximum, ..self.options },
        }
    }

    /// Sets the normalized input byte limit.
    pub fn max_normalized_bytes(self, maximum: Option<usize>) -> (builder: Self)
        ensures
            builder.spec_options().settings() == (
                self.spec_options().settings().0,
                self.spec_options().settings().1,
                self.spec_options().settings().2,
                self.spec_options().settings().3,
                self.spec_options().settings().4,
                maximum,
                self.spec_options().settings().6,
                self.spec_options().settings().7,
            ),
    {
        LenientJsonDecodeOptionsBuilder {
            options: LenientJsonDecodeOptions { max_normalized_bytes: maximum, ..self.options },
        }
    }

    /// Sets the per-value resource limits.
    pub fn value_limits(self, limits: Option<JsonValueLimitSet>) -> (builder: Self)
        ensures
            builder.spec_options().settings() == (
                self.spec_options().settings().0,
                self.spec_options().settings().1,
                self.spec_options().settings().2,
                self.spec_options().settings().3,
                self.spec_options().settings().4,
                self.spec_options().settings().5,
                limits,
                self.spec_options().settings().7,
            ),
    {
        LenientJsonDecodeOptionsBuilder {
            options: LenientJsonDecodeOptions { value_limits: limits, ..self.options },
        }
    }

    /// Sets the diagnostic privacy policy.
    pub fn error_privacy_policy(self, policy: ErrorPrivacyPolicy) -> (builder: Self)
        ensures
            builder.spec_options().settings() == (
                self.spec_options().settings().0,
                self.spec_options().settings().1,
                self.spec_options().settings().2,
                self.spec_options().settings().3,
                self.spec_options().settings().4,
                self.spec_options().settings().5,
                self.spec_options().settings().6,
                policy,
            ),
    {
        LenientJsonDecodeOptionsBuilder {
            options: LenientJsonDecodeOptions { error_privacy_policy: policy, ..self.options },
        }
    }

    /// Returns the options built so far.
    pub fn build(self) -> (options: LenientJsonDecodeOptions)
        ensures
            options == self.spec_options(),
    {
        self.options
    }
}

impl Default for LenientJsonDecodeOptionsBuilder {
    /// Creates a builder that starts from the lenient option set.
    fn default() -> (builder: Self)
        ensures
            builder.spec_options().is_lenient(),
    {
        Self::new()
    }
}

} // verus!
