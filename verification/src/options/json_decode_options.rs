//! The option set of the lenient JSON normalizer, with a normalized-size
//! limit beside the raw-size limit.

use vstd::prelude::*;

use crate::error_privacy_policy::ErrorPrivacyPolicy;
use crate::markdown_fence_policy::{MarkdownFenceClosing, MarkdownFencePolicy};

verus! {

/// Normalization, size and diagnostic options for lenient JSON decoding.
#[derive(Debug, Clone, Copy, PartialEq, Eq, Structural)]
pub struct JsonDecodeOptions {
    /// Controls whether leading and trailing whitespace is removed.
    trim_whitespace: bool,
    /// Controls whether a leading UTF-8 byte order mark is removed.
    strip_utf8_bom: bool,
    /// Controls whether and how one outer Markdown code fence is removed.
    markdown_fence_policy: MarkdownFencePolicy,
    /// Controls whether raw ASCII control characters inside JSON string
    /// literals are converted into JSON escape sequences.
    escape_control_chars_in_strings: bool,
    /// Caps the accepted raw input size in bytes.
    max_input_bytes: Option<usize>,
    /// Caps the accepted normalized input size in bytes.
    max_normalized_bytes: Option<usize>,
    /// Controls whether decoding errors retain input-derived details.
    error_privacy_policy: ErrorPrivacyPolicy,
}

impl JsonDecodeOptions {
    /// Whether surrounding whitespace is trimmed.
    pub closed spec fn spec_trim_whitespace(self) -> bool {
        self.trim_whitespace
    }

    /// Whether one leading byte order mark is removed.
    pub closed spec fn spec_strip_utf8_bom(self) -> bool {
        self.strip_utf8_bom
    }

    /// The Markdown fence policy.
    pub closed spec fn spec_markdown_fence_policy(self) -> MarkdownFencePolicy {
        self.markdown_fence_policy
    }

    /// Whether raw control characters inside strings are escaped.
    pub closed spec fn spec_escape_control_chars_in_strings(self) -> bool {
        self.escape_control_chars_in_strings
    }

    /// The raw input byte limit.
    pub closed spec fn spec_max_input_bytes(self) -> Option<usize> {
        self.max_input_bytes
    }

    /// The normalized input byte limit.
    pub closed spec fn spec_max_normalized_bytes(self) -> Option<usize> {
        self.max_normalized_bytes
    }

    /// The error privacy policy.
    pub closed spec fn spec_error_privacy_policy(self) -> ErrorPrivacyPolicy {
        self.error_privacy_policy
    }

    /// Two option sets agree on every setting.
    pub open spec fn same_settings(self, other: Self) -> bool {
        &&& self.spec_trim_whitespace() == other.spec_trim_whitespace()
        &&& self.spec_strip_utf8_bom() == other.spec_strip_utf8_bom()
        &&& self.spec_markdown_fence_policy() == other.spec_markdown_fence_policy()
        &&& self.spec_escape_control_chars_in_strings() == other.spec_escape_control_chars_in_strings()
        &&& self.spec_max_input_bytes() == other.spec_max_input_bytes()
        &&& self.spec_max_normalized_bytes() == other.spec_max_normalized_bytes()
        &&& self.spec_error_privacy_policy() == other.spec_error_privacy_policy()
    }

    /// The settings of the default lenient option set.
    pub open spec fn is_lenient(self) -> bool {
        &&& self.spec_trim_whitespace()
        &&& self.spec_strip_utf8_bom()
        &&& self.spec_markdown_fence_policy() == (MarkdownFencePolicy::JsonOnly {
            closing: MarkdownFenceClosing::Optional,
        })
        &&& self.spec_escape_control_chars_in_strings()
        &&& self.spec_max_input_bytes() is None
        &&& self.spec_max_normalized_bytes() is None
        &&& self.spec_error_privacy_policy() == ErrorPrivacyPolicy::Redacted
    }

    /// Creates the default lenient option set: trimming, BOM removal,
    /// optional-closing JSON fence removal and control-character escaping,
    /// with no size limits and redacted diagnostics.
    pub fn lenient() -> (options: Self)
        ensures
            options.is_lenient(),
    {
        JsonDecodeOptions {
            trim_whitespace: true,
            strip_utf8_bom: true,
            markdown_fence_policy: MarkdownFencePolicy::JsonOnly {
                closing: MarkdownFenceClosing::Optional,
            },
            escape_control_chars_in_strings: true,
            max_input_bytes: None,
            max_normalized_bytes: None,
            error_privacy_policy: ErrorPrivacyPolicy::Redacted,
        }
    }

    /// Creates an option set that disables every normalization rule.
    pub fn strict() -> (options: Self)
        ensures
            !options.spec_trim_whitespace(),
            !options.spec_strip_utf8_bom(),
            options.spec_markdown_fence_policy() == MarkdownFencePolicy::Disabled,
            !options.spec_escape_control_chars_in_strings(),
            options.spec_max_input_bytes() is None,
            options.spec_max_normalized_bytes() is None,
            options.spec_error_privacy_policy() == ErrorPrivacyPolicy::Redacted,
    {
        JsonDecodeOptions {
            trim_whitespace: false,
            strip_utf8_bom: false,
            markdown_fence_policy: MarkdownFencePolicy::Disabled,
            escape_control_chars_in_strings: false,
            max_input_bytes: None,
            max_normalized_bytes: None,
            error_privacy_policy: ErrorPrivacyPolicy::Redacted,
        }
    }

    /// Returns whether leading and trailing whitespace is removed.
    pub fn trim_whitespace(&self) -> (enabled: bool)
        ensures
            enabled == self.spec_trim_whitespace(),
    {
        self.trim_whitespace
    }

    /// Returns whether a leading UTF-8 byte order mark is removed.
    pub fn strip_utf8_bom(&self) -> (enabled: bool)
        ensures
            enabled == self.spec_strip_utf8_bom(),
    {
        self.strip_utf8_bom
    }

    /// Returns the policy used to remove one outer Markdown code fence.
    pub fn markdown_fence_policy(&self) -> (policy: MarkdownFencePolicy)
        ensures
            policy == self.spec_markdown_fence_policy(),
    {
        self.markdown_fence_policy
    }

    /// Returns whether raw control characters in JSON strings are escaped.
    pub fn escape_control_chars_in_strings(&self) -> (enabled: bool)
        ensures
            enabled == self.spec_escape_control_chars_in_strings(),
    {
        self.escape_control_chars_in_strings
    }

    /// Returns the raw input byte-size limit; `None` means unlimited.
    pub fn max_input_bytes(&self) -> (limit: Option<usize>)
        ensures
            limit == self.spec_max_input_bytes(),
    {
        self.max_input_bytes
    }

    /// Returns the normalized input byte-size limit; `None` means unlimited.
    pub fn max_normalized_bytes(&self) -> (limit: Option<usize>)
        ensures
            limit == self.spec_max_normalized_bytes(),
    {
        self.max_normalized_bytes
    }

    /// Returns the privacy policy applied to decoding error diagnostics.
    pub fn error_privacy_policy(&self) -> (policy: ErrorPrivacyPolicy)
        ensures
            policy == self.spec_error_privacy_policy(),
    {
        self.error_privacy_policy
    }

    /// Returns a copy with whitespace trimming enabled or disabled.
    pub fn with_trim_whitespace(self, enabled: bool) -> (options: Self)
        ensures
            options.spec_trim_whitespace() == enabled,
            options.spec_strip_utf8_bom() == self.spec_strip_utf8_bom(),
            options.spec_markdown_fence_policy() == self.spec_markdown_fence_policy(),
            options.spec_escape_control_chars_in_strings() == self.spec_escape_control_chars_in_strings(),
            options.spec_max_input_bytes() == self.spec_max_input_bytes(),
            options.spec_max_normalized_bytes() == self.spec_max_normalized_bytes(),
            options.spec_error_privacy_policy() == self.spec_error_privacy_policy(),
    {
        JsonDecodeOptions { trim_whitespace: enabled, ..self }
    }

    /// Returns a copy with UTF-8 byte order mark stripping configured.
    pub fn with_strip_utf8_bom(self, enabled: bool) -> (options: Self)
        ensures
            options.spec_trim_whitespace() == self.spec_trim_whitespace(),
            options.spec_strip_utf8_bom() == enabled,
            options.spec_markdown_fence_policy() == self.spec_markdown_fence_policy(),
            options.spec_escape_control_chars_in_strings() == self.spec_escape_control_chars_in_strings(),
            options.spec_max_input_bytes() == self.spec_max_input_bytes(),
            options.spec_max_normalized_bytes() == self.spec_max_normalized_bytes(),
            options.spec_error_privacy_policy() == self.spec_error_privacy_policy(),
    {
        JsonDecodeOptions { strip_utf8_bom: enabled, ..self }
    }

    /// Returns a copy with a Markdown fence policy.
    pub fn with_markdown_fence_policy(self, markdown_fence_policy: MarkdownFencePolicy) -> (options: Self)
        ensures
            options.spec_trim_whitespace() == self.spec_trim_whitespace(),
            options.spec_strip_utf8_bom() == self.spec_strip_utf8_bom(),
            options.spec_markdown_fence_policy() == markdown_fence_policy,
            options.spec_escape_control_chars_in_strings() == self.spec_escape_control_chars_in_strings(),
            options.spec_max_input_bytes() == self.spec_max_input_bytes(),
            options.spec_max_normalized_bytes() == self.spec_max_normalized_bytes(),
            options.spec_error_privacy_policy() == self.spec_error_privacy_policy(),
    {
        JsonDecodeOptions { markdown_fence_policy, ..self }
    }

    /// Returns a copy with JSON-string control character escaping configured.
    pub fn with_escape_control_chars_in_strings(self, enabled: bool) -> (options: Self)
        ensures
            options.spec_trim_whitespace() == self.spec_trim_whitespace(),
            options.spec_strip_utf8_bom() == self.spec_strip_utf8_bom(),
            options.spec_markdown_fence_policy() == self.spec_markdown_fence_policy(),
            options.spec_escape_control_chars_in_strings() == enabled,
            options.spec_max_input_bytes() == self.spec_max_input_bytes(),
            options.spec_max_normalized_bytes() == self.spec_max_normalized_bytes(),
            options.spec_error_privacy_policy() == self.spec_error_privacy_policy(),
    {
        JsonDecodeOptions { escape_control_chars_in_strings: enabled, ..self }
    }

    /// Returns a copy with a raw input byte-size limit.
    pub fn with_max_input_bytes(self, max_input_bytes: Option<usize>) -> (options: Self)
        ensures
            options.spec_trim_whitespace() == self.spec_trim_whitespace(),
            options.spec_strip_utf8_bom() == self.spec_strip_utf8_bom(),
            options.spec_markdown_fence_policy() == self.spec_markdown_fence_policy(),
            options.spec_escape_control_chars_in_strings() == self.spec_escape_control_chars_in_strings(),
            options.spec_max_input_bytes() == max_input_bytes,
            options.spec_max_normalized_bytes() == self.spec_max_normalized_bytes(),
            options.spec_error_privacy_policy() == self.spec_error_privacy_policy(),
    {
        JsonDecodeOptions { max_input_bytes, ..self }
    }

    /// Returns a copy with a normalized input byte-size limit.
    pub fn with_max_normalized_bytes(self, max_normalized_bytes: Option<usize>) -> (options: Self)
        ensures
            options.spec_trim_whitespace() == self.spec_trim_whitespace(),
            options.spec_strip_utf8_bom() == self.spec_strip_utf8_bom(),
            options.spec_markdown_fence_policy() == self.spec_markdown_fence_policy(),
            options.spec_escape_control_chars_in_strings() == self.spec_escape_control_chars_in_strings(),
            options.spec_max_input_bytes() == self.spec_max_input_bytes(),
            options.spec_max_normalized_bytes() == max_normalized_bytes,
            options.spec_error_privacy_policy() == self.spec_error_privacy_policy(),
    {
        JsonDecodeOptions { max_normalized_bytes, ..self }
    }

    /// Returns a copy with the requested error privacy policy.
    pub fn with_error_privacy_policy(self, error_privacy_policy: ErrorPrivacyPolicy) -> (options: Self)
        ensures
            options.spec_trim_whitespace() == self.spec_trim_whitespace(),
            options.spec_strip_utf8_bom() == self.spec_strip_utf8_bom(),
            options.spec_markdown_fence_policy() == self.spec_markdown_fence_policy(),
            options.spec_escape_control_chars_in_strings() == self.spec_escape_control_chars_in_strings(),
            options.spec_max_input_bytes() == self.spec_max_input_bytes(),
            options.spec_max_normalized_bytes() == self.spec_max_normalized_bytes(),
            options.spec_error_privacy_policy() == error_privacy_policy,
    {
        JsonDecodeOptions { error_privacy_policy, ..self }
    }
}

impl From<crate::json_decode_options::JsonDecodeOptions> for JsonDecodeOptions {
    /// Carries every setting over, with no normalized-size limit.
    fn from(options: crate::json_decode_options::JsonDecodeOptions) -> (converted: Self)
        ensures
            converted.spec_trim_whitespace() == options.spec_trim_whitespace(),
            converted.spec_strip_utf8_bom() == options.spec_strip_utf8_bom(),
            converted.spec_markdown_fence_policy() == options.spec_markdown_fence_policy(),
            converted.spec_escape_control_chars_in_strings() == options.spec_escape_control_chars_in_strings(),
            converted.spec_max_input_bytes() == options.spec_max_input_bytes(),
            converted.spec_max_normalized_bytes() is None,
            converted.spec_error_privacy_policy() == options.spec_error_privacy_policy(),
    {
        JsonDecodeOptions {
            trim_whitespace: options.trim_whitespace(),
            strip_utf8_bom: options.strip_utf8_bom(),
            markdown_fence_policy: options.markdown_fence_policy(),
            escape_control_chars_in_strings: options.escape_control_chars_in_strings(),
            max_input_bytes: options.max_input_bytes(),
            max_normalized_bytes: None,
            error_privacy_policy: options.error_privacy_policy(),
        }
    }
}

impl vstd::std_specs::convert::FromSpecImpl<crate::json_decode_options::JsonDecodeOptions> for JsonDecodeOptions {
    open spec fn obeys_from_spec() -> bool {
        true
    }

    closed spec fn from_spec(options: crate::json_decode_options::JsonDecodeOptions) -> Self {
        JsonDecodeOptions {
            trim_whitespace: options.spec_trim_whitespace(),
            strip_utf8_bom: options.spec_strip_utf8_bom(),
            markdown_fence_policy: options.spec_markdown_fence_policy(),
            escape_control_chars_in_strings: options.spec_escape_control_chars_in_strings(),
            max_input_bytes: options.spec_max_input_bytes(),
            max_normalized_bytes: None,
            error_privacy_policy: options.spec_error_privacy_policy(),
        }
    }
}

impl Default for JsonDecodeOptions {
    /// Returns [`JsonDecodeOptions::lenient`].
    fn default() -> (options: Self)
        ensures
            options.is_lenient(),
    {
        Self::lenient()
    }
}

/// Two option sets with the same settings are the same value. So the
/// default equals the lenient preset, and a builder that sets a field back to
/// its former value gives back the same option set.
pub proof fn lemma_same_settings_are_equal(a: JsonDecodeOptions, b: JsonDecodeOptions)
    requires
        a.same_settings(b),
    ensures
        a == b,
{
}

} // verus!
