//! Lenient JSON decoding: the steps around the typed deserialization.
//!
//! Decoding a value runs the raw-size and UTF-8 checks, normalizes the text,
//! checks the expected top-level kind, deserializes, and classifies a failed
//! deserialization as invalid JSON or as a type mismatch.

use std::borrow::Cow;

use serde_json::value::RawValue;
use vstd::prelude::*;
use vstd::string::StringSliceAdditionalSpecFns;
use vstd::utf8::{encode_utf8, valid_utf8};

use crate::error_privacy_policy::ErrorPrivacyPolicy;
use crate::json_decode_error::JsonDecodeError;
use crate::options::JsonDecodeOptions;
use crate::json_deserialize_error::{JsonDeserializeError, JsonDeserializeErrorCategory};
use crate::json_top_level_kind::{kind_of_json_text, JsonTopLevelKind};
use crate::lenient_json_normalizer::{
    empty_raw_input, exceeds_normalized_limit, exceeds_raw_limit, needs_repair, normalized_size,
    normalized_text, LenientJsonNormalizer,
};

verus! {

/// What UTF-8 validation reports of bytes that are not UTF-8: the length of
/// the longest valid prefix, the length of the invalid sequence (`None` when
/// the input ends inside a sequence), and the validator's description.
pub uninterp spec fn utf8_failure(bytes: Seq<u8>) -> (usize, Option<usize>, Seq<char>);

/// Where `serde_json` rejects a text as JSON: its line, its column and its
/// description, or `None` when it accepts the text.
pub uninterp spec fn raw_json_failure(text: Seq<char>) -> Option<(usize, usize, Seq<char>)>;

/// Validates UTF-8 through `std::str::from_utf8`.
///
/// The bytes are accepted exactly when they are well-formed UTF-8, and then
/// the text holds the same bytes. A rejection is reported by the values that
/// `Utf8Error::valid_up_to`, `Utf8Error::error_len` and its `Display` give,
/// which `utf8_failure` names. Of the first, its documentation gives that
/// it is the longest prefix that is valid UTF-8; what the other two hold is
/// left to the name.
#[verifier::external_body]
fn decode_utf8(input: &[u8]) -> (result: Result<&str, (usize, Option<usize>, String)>)
    ensures
        result is Ok <==> valid_utf8(input@),
        result matches Ok(text) ==> text.spec_bytes() == input@,
        result matches Err(failure) ==> (failure.0, failure.1, failure.2@) == utf8_failure(input@),
        result matches Err(failure) ==> failure.0 < input@.len() && valid_utf8(
            input@.subrange(0, failure.0 as int),
        ),
        result matches Err(failure) ==> forall|k: int|
            failure.0 < k <= input@.len() ==> !valid_utf8(#[trigger] input@.subrange(0, k)),
{
    std::str::from_utf8(input).map_err(
        |error| (error.valid_up_to(), error.error_len(), format!("{error}")),
    )
}

/// Parses a text as one JSON value with `serde_json::from_str` into a
/// `RawValue`, which checks the syntax and keeps no value.
///
/// The outcome, and the line, column and description of a rejection, are
/// those that `raw_json_failure` names.
#[verifier::external_body]
fn parse_raw_json(text: &str) -> (result: Result<(), (usize, usize, String)>)
    ensures
        result is Ok <==> raw_json_failure(text@) is None,
        result matches Err(failure) ==> raw_json_failure(text@) == Some(
            (failure.0, failure.1, failure.2@),
        ),
{
    match serde_json::from_str::<&RawValue>(text) {
        Ok(_) => Ok(()),
        Err(error) => Err((error.line(), error.column(), error.to_string())),
    }
}

/// The outcome of validating `text` as JSON, with the diagnostics of an
/// invalid-JSON error.
pub open spec fn validation_agrees(
    result: Result<(), JsonDecodeError>,
    text: Seq<char>,
    raw: usize,
    normalized: usize,
    policy: ErrorPrivacyPolicy,
) -> bool {
    match raw_json_failure(text) {
        None => result is Ok,
        Some((line, column, detail)) => result matches Err(error) && error.is_invalid_json(
            line,
            column,
            detail,
            raw,
            normalized,
            policy,
        ),
    }
}

/// Decodes JSON text after lenient normalization.
#[derive(Debug, Clone, Copy)]
pub struct LenientJsonDecoder {
    /// Normalizer that prepares the raw text.
    normalizer: LenientJsonNormalizer,
}

impl LenientJsonDecoder {
    /// The decoder's options.
    pub closed spec fn spec_options(self) -> JsonDecodeOptions {
        self.normalizer.spec_options()
    }

    /// Creates a decoder with the given options.
    pub fn new(options: JsonDecodeOptions) -> (decoder: Self)
        ensures
            decoder.spec_options() == options,
    {
        LenientJsonDecoder { normalizer: LenientJsonNormalizer::new(options) }
    }

    /// Returns the decoder's options.
    pub fn options(&self) -> (options: &JsonDecodeOptions)
        ensures
            *options == self.spec_options(),
    {
        self.normalizer.options()
    }

    /// Normalizes `input` into the JSON text to deserialize.
    ///
    /// The text is rejected when the raw input exceeds its limit, when it is
    /// empty, when the normalized text exceeds its limit, or when nothing is
    /// left after normalization, each with its own error; otherwise it is the
    /// normalized text, borrowed from the input unless it needed repair.
    pub fn normalize<'a>(&self, input: &'a str) -> (result: Result<Cow<'a, str>, JsonDecodeError>)
        ensures
            result is Ok <==> {
                &&& !exceeds_raw_limit(input.spec_bytes(), self.spec_options())
                &&& !empty_raw_input(input.spec_bytes(), self.spec_options())
                &&& !exceeds_normalized_limit(input.spec_bytes(), self.spec_options())
                &&& normalized_text(input.spec_bytes(), self.spec_options()).len() > 0
            },
            result matches Ok(text) ==> encode_utf8(text@) == normalized_text(
                input.spec_bytes(),
                self.spec_options(),
            ),
            result matches Ok(text) ==> (!needs_repair(input.spec_bytes(), self.spec_options())
                ==> text matches Cow::Borrowed(_)),
            result matches Err(error) ==> {
                let bytes = input.spec_bytes();
                let options = self.spec_options();
                let raw = bytes.len() as usize;
                let policy = options.spec_error_privacy_policy();
                if exceeds_raw_limit(bytes, options) {
                    error.is_input_too_large(raw, options.spec_max_input_bytes()->0, policy)
                } else if empty_raw_input(bytes, options) {
                    error.is_empty_input(raw, None, policy)
                } else if exceeds_normalized_limit(bytes, options) {
                    error.is_normalized_input_too_large(
                        raw,
                        normalized_size(bytes, options),
                        options.spec_max_normalized_bytes()->0,
                        policy,
                    )
                } else {
                    error.is_empty_input(raw, Some(0), policy)
                }
            },
    {
        self.normalizer.normalize(input)
    }

    /// Checks the raw byte limit and decodes the bytes as UTF-8 text.
    ///
    /// Fails with an input-too-large error when a raw limit is configured
    /// and exceeded, then with an invalid-UTF-8 error when the bytes are not
    /// UTF-8; otherwise returns the same bytes as text.
    pub fn decode_text<'a>(&self, input: &'a [u8]) -> (result: Result<&'a str, JsonDecodeError>)
        ensures
            ({
                let options = self.spec_options();
                let raw = input@.len() as usize;
                let policy = options.spec_error_privacy_policy();
                if exceeds_raw_limit(input@, options) {
                    result matches Err(error) && error.is_input_too_large(
                        raw,
                        options.spec_max_input_bytes()->0,
                        policy,
                    )
                } else if !valid_utf8(input@) {
                    result matches Err(error) && error.is_invalid_utf8(
                        utf8_failure(input@).0,
                        utf8_failure(input@).1,
                        utf8_failure(input@).2,
                        raw,
                        policy,
                    )
                } else {
                    result matches Ok(text) && text.spec_bytes() == input@
                }
            }),
    {
        let raw_input_bytes = input.len();
        let privacy_policy = self.options().error_privacy_policy();
        if let Some(max_input_bytes) = self.options().max_input_bytes() {
            if raw_input_bytes > max_input_bytes {
                return Err(
                    JsonDecodeError::input_too_large(raw_input_bytes, max_input_bytes, privacy_policy),
                );
            }
        }
        match decode_utf8(input) {
            Ok(text) => Ok(text),
            Err((valid_up_to, error_len, detail)) => Err(
                JsonDecodeError::invalid_utf8(
                    valid_up_to,
                    error_len,
                    detail.as_str(),
                    raw_input_bytes,
                    privacy_policy,
                ),
            ),
        }
    }

    /// Validates normalized text as JSON, reporting invalid JSON with the
    /// parser's coordinates.
    pub fn validate_json(
        normalized: &str,
        raw_input_bytes: usize,
        normalized_input_bytes: usize,
        privacy_policy: ErrorPrivacyPolicy,
    ) -> (result: Result<(), JsonDecodeError>)
        ensures
            validation_agrees(result, normalized@, raw_input_bytes, normalized_input_bytes, privacy_policy),
    {
        match parse_raw_json(normalized) {
            Ok(()) => Ok(()),
            Err((line, column, detail)) => Err(
                JsonDecodeError::invalid_json(
                    line,
                    column,
                    detail.as_str(),
                    raw_input_bytes,
                    normalized_input_bytes,
                    privacy_policy,
                ),
            ),
        }
    }

    /// Checks that normalized text has the expected top-level kind.
    ///
    /// A text of another kind is validated first: invalid JSON is reported
    /// as such, valid JSON as an unexpected top-level kind.
    pub fn check_top_level(
        normalized: &str,
        expected: JsonTopLevelKind,
        raw_input_bytes: usize,
        privacy_policy: ErrorPrivacyPolicy,
    ) -> (result: Result<(), JsonDecodeError>)
        ensures
            ({
                let actual = kind_of_json_text(normalized.spec_bytes());
                let normalized_bytes = normalized.spec_bytes().len() as usize;
                if actual == expected {
                    result is Ok
                } else if raw_json_failure(normalized@) is Some {
                    validation_agrees(result, normalized@, raw_input_bytes, normalized_bytes, privacy_policy)
                } else {
                    result matches Err(error) && error.is_unexpected_top_level(
                        expected,
                        actual,
                        raw_input_bytes,
                        normalized_bytes,
                        privacy_policy,
                    )
                }
            }),
    {
        let normalized_input_bytes = normalized.as_bytes().len();
        let actual = JsonTopLevelKind::of_normalized_json(normalized);
        if actual == expected {
            return Ok(());
        }
        match Self::validate_json(normalized, raw_input_bytes, normalized_input_bytes, privacy_policy) {
            Err(error) => Err(error),
            Ok(()) => Err(
                JsonDecodeError::unexpected_top_level(
                    expected,
                    actual,
                    raw_input_bytes,
                    normalized_input_bytes,
                    privacy_policy,
                ),
            ),
        }
    }

    /// Classifies a failed deserialization of normalized text.
    ///
    /// A data error on text that is valid JSON is a deserialization error;
    /// on invalid text, the invalid-JSON error is reported. Syntax, end of
    /// input and I/O errors are invalid JSON.
    pub fn map_decode_error(
        normalized: &str,
        failure: JsonDeserializeError,
        detail: &str,
        raw_input_bytes: usize,
        normalized_input_bytes: usize,
        privacy_policy: ErrorPrivacyPolicy,
    ) -> (error: JsonDecodeError)
        ensures
            ({
                let line = failure.spec_line();
                let column = failure.spec_column();
                if failure.spec_category() == JsonDeserializeErrorCategory::Data {
                    match raw_json_failure(normalized@) {
                        None => error.is_deserialize(
                            line,
                            column,
                            detail@,
                            raw_input_bytes,
                            normalized_input_bytes,
                            privacy_policy,
                        ),
                        Some((l, c, d)) => error.is_invalid_json(
                            l,
                            c,
                            d,
                            raw_input_bytes,
                            normalized_input_bytes,
                            privacy_policy,
                        ),
                    }
                } else {
                    error.is_invalid_json(
                        line,
                        column,
                        detail@,
                        raw_input_bytes,
                        normalized_input_bytes,
                        privacy_policy,
                    )
                }
            }),
    {
        match failure.category() {
            JsonDeserializeErrorCategory::Data => match Self::validate_json(
                normalized,
                raw_input_bytes,
                normalized_input_bytes,
                privacy_policy,
            ) {
                Ok(()) => JsonDecodeError::deserialize(
                    failure.line(),
                    failure.column(),
                    detail,
                    raw_input_bytes,
                    normalized_input_bytes,
                    privacy_policy,
                ),
                Err(error) => error,
            },
            _ => JsonDecodeError::invalid_json(
                failure.line(),
                failure.column(),
                detail,
                raw_input_bytes,
                normalized_input_bytes,
                privacy_policy,
            ),
        }
    }
}

} // verus!
