//! The option set that configures lenient JSON decoding.

use vstd::prelude::*;

use crate::error_privacy_policy::ErrorPrivacyPolicy;
use crate::markdown_fence_policy::{MarkdownFenceClosing, MarkdownFencePolicy};

verus! {

/// Normalization, raw-size and diagnostic switches for lenient JSON
/// decoding.
///
/// Each field controls one normalization rule applied before parsing. The
/// defaults cover common text that is not fully trusted without attempting
/// aggressive repair.
#[derive(Debug, Clone, Copy, PartialEq, Eq, Structural)]
pub struct JsonDecodeOptions {
    /// Controls whether leading and trailing whitespace is removed.
    trim_whitespace: bool,
    /// Controls whether a leading UTF-8 byte order mark is removed.
    strip_utf8_bom: bool,
    /// Controls whether and how one outer Markdown code fence is removed.
    markdown_fence_policy: MarkdownFencePolicy,
    /// Controls whether raw ASCII control characters inside JSON string
    /// literals are converted into JSON escape sequences.
    escape_control_chars_in_strings: bool,
    /// Caps the accepted raw input size in bytes; `None` means unlimited.
    max_input_bytes: Option<usize>,
    /// Controls whether decoding errors retain input-derived details.
    error_privacy_policy: ErrorPrivacyPolicy,
}

impl JsonDecodeOptions {
    /// Whether surrounding whitespace is trimmed.
    pub closed spec fn spec_trim_whitespace(self) -> bool {
        self.trim_whitespace
    }

    /// Whether one leading byte order mark is removed.
    pub closed spec fn spec_strip_utf8_bom(self) -> bool {
        self.strip_utf8_bom
    }

    /// The Markdown fence policy.
    pub closed spec fn spec_markdown_fence_policy(self) -> MarkdownFencePolicy {
        self.markdown_fence_policy
    }

    /// Whether raw control characters inside strings are escaped.
    pub closed spec fn spec_escape_control_chars_in_strings(self) -> bool {
        self.escape_control_chars_in_strings
    }

    /// The raw input byte limit.
    pub closed spec fn spec_max_input_bytes(self) -> Option<usize> {
        self.max_input_bytes
    }

    /// The error privacy policy.
    pub closed spec fn spec_error_privacy_policy(self) -> ErrorPrivacyPolicy {
        self.error_privacy_policy
    }

    /// Every setting of the option set, in declaration order.
    pub open spec fn settings(self) -> (bool, bool, MarkdownFencePolicy, bool, Option<usize>, ErrorPrivacyPolicy) {
        (
            self.spec_trim_whitespace(),
            self.spec_strip_utf8_bom(),
            self.spec_markdown_fence_policy(),
            self.spec_escape_control_chars_in_strings(),
            self.spec_max_input_bytes(),
            self.spec_error_privacy_policy(),
        )
    }

    /// The settings of the default lenient option set: trimming, byte order
    /// mark removal, removal of a fence of any language whose closing fence
    /// may be missing, and control-character escaping, with no size limit
    /// and redacted diagnostics.
    pub open spec fn lenient_settings() -> (bool, bool, MarkdownFencePolicy, bool, Option<usize>, ErrorPrivacyPolicy) {
        (
            true,
            true,
            MarkdownFencePolicy::Any { closing: MarkdownFenceClosing::Optional },
            true,
            None,
            ErrorPrivacyPolicy::Redacted,
        )
    }

    /// Creates the default lenient option set.
    pub fn lenient() -> (options: Self)
        ensures
            options.settings() == Self::lenient_settings(),
    {
        JsonDecodeOptions {
            trim_whitespace: true,
            strip_utf8_bom: true,
            markdown_fence_policy: MarkdownFencePolicy::Any { closing: MarkdownFenceClosing::Optional },
            escape_control_chars_in_strings: true,
            max_input_bytes: None,
            error_privacy_policy: ErrorPrivacyPolicy::Redacted,
        }
    }

    /// Creates an option set that disables every normalization rule.
    pub fn strict() -> (options: Self)
        ensures
            options.settings() == (
                false,
                false,
                MarkdownFencePolicy::Disabled,
                false,
                None::<usize>,
                ErrorPrivacyPolicy::Redacted,
            ),
    {
        JsonDecodeOptions {
            trim_whitespace: false,
            strip_utf8_bom: false,
            markdown_fence_policy: MarkdownFencePolicy::Disabled,
            escape_control_chars_in_strings: false,
            max_input_bytes: None,
            error_privacy_policy: ErrorPrivacyPolicy::Redacted,
        }
    }

    /// Creates lenient options that only strip JSON-like Markdown code
    /// fences (an empty, `json` or `jsonc` first info token).
    pub fn json_code_fences_only() -> (options: Self)
        ensures
            options.settings() == (
                true,
                true,
                MarkdownFencePolicy::JsonOnly { closing: MarkdownFenceClosing::Optional },
                true,
                None::<usize>,
                ErrorPrivacyPolicy::Redacted,
            ),
    {
        JsonDecodeOptions {
            markdown_fence_policy: MarkdownFencePolicy::JsonOnly { closing: MarkdownFenceClosing::Optional },
            ..Self::lenient()
        }
    }

    /// Returns whether leading and trailing whitespace is removed.
    pub fn trim_whitespace(&self) -> (enabled: bool)
        ensures
            enabled == self.spec_trim_whitespace(),
    {
        self.trim_whitespace
    }

    /// Returns whether a leading UTF-8 byte order mark is removed.
    pub fn strip_utf8_bom(&self) -> (enabled: bool)
        ensures
            enabled == self.spec_strip_utf8_bom(),
    {
        self.strip_utf8_bom
    }

    /// Returns the policy used to remove one outer Markdown code fence.
    pub fn markdown_fence_policy(&self) -> (policy: MarkdownFencePolicy)
        ensures
            policy == self.spec_markdown_fence_policy(),
    {
        self.markdown_fence_policy
    }

    /// Returns whether raw control characters in JSON strings are escaped.
    pub fn escape_control_chars_in_strings(&self) -> (enabled: bool)
        ensures
            enabled == self.spec_escape_control_chars_in_strings(),
    {
        self.escape_control_chars_in_strings
    }

    /// Returns the raw input byte-size limit; `None` means unlimited.
    pub fn max_input_bytes(&self) -> (limit: Option<usize>)
        ensures
            limit == self.spec_max_input_bytes(),
    {
        self.max_input_bytes
    }

    /// Returns the privacy policy applied to decoding error diagnostics.
    pub fn error_privacy_policy(&self) -> (policy: ErrorPrivacyPolicy)
        ensures
            policy == self.spec_error_privacy_policy(),
    {
        self.error_privacy_policy
    }

    /// Returns a copy with whitespace trimming enabled or disabled.
    pub fn with_trim_whitespace(self, enabled: bool) -> (options: Self)
        ensures
            options.settings() == (enabled, self.settings().1, self.settings().2, self.settings().3, self.settings().4, self.settings().5),
    {
        JsonDecodeOptions { trim_whitespace: enabled, ..self }
    }

    /// Returns a copy with UTF-8 byte order mark stripping configured.
    pub fn with_strip_utf8_bom(self, enabled: bool) -> (options: Self)
        ensures
            options.settings() == (self.settings().0, enabled, self.settings().2, self.settings().3, self.settings().4, self.settings().5),
    {
        JsonDecodeOptions { strip_utf8_bom: enabled, ..self }
    }

    /// Returns a copy with a Markdown fence policy.
    pub fn with_markdown_fence_policy(self, markdown_fence_policy: MarkdownFencePolicy) -> (options: Self)
        ensures
            options.settings() == (self.settings().0, self.settings().1, markdown_fence_policy, self.settings().3, self.settings().4, self.settings().5),
    {
        JsonDecodeOptions { markdown_fence_policy, ..self }
    }

    /// Returns a copy with JSON-string control character escaping configured.
    pub fn with_escape_control_chars_in_strings(self, enabled: bool) -> (options: Self)
        ensures
            options.settings() == (self.settings().0, self.settings().1, self.settings().2, enabled, self.settings().4, self.settings().5),
    {
        JsonDecodeOptions { escape_control_chars_in_strings: enabled, ..self }
    }

    /// Returns a copy with a raw input byte-size limit.
    pub fn with_max_input_bytes(self, max_input_bytes: Option<usize>) -> (options: Self)
        ensures
            options.settings() == (self.settings().0, self.settings().1, self.settings().2, self.settings().3, max_input_bytes, self.settings().5),
    {
        JsonDecodeOptions { max_input_bytes, ..self }
    }

    /// Returns a copy with the requested error privacy policy.
    pub fn with_error_privacy_policy(self, error_privacy_policy: ErrorPrivacyPolicy) -> (options: Self)
        ensures
            options.settings() == (self.settings().0, self.settings().1, self.settings().2, self.settings().3, self.settings().4, error_privacy_policy),
    {
        JsonDecodeOptions { error_privacy_policy, ..self }
    }
}

impl Default for JsonDecodeOptions {
    /// Returns [`JsonDecodeOptions::lenient`].
    fn default() -> (options: Self)
        ensures
            options.settings() == Self::lenient_settings(),
    {
        Self::lenient()
    }
}

/// Two option sets with the same settings are the same value, so the
/// default is the lenient preset.
pub proof fn lemma_settings_determine_options(a: JsonDecodeOptions, b: JsonDecodeOptions)
    requires
        a.settings() == b.settings(),
    ensures
        a == b,
{
}

} // verus!
