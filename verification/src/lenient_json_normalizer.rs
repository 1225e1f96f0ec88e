//! The normalization pipeline applied before lenient JSON parsing.

use std::borrow::Cow;

use vstd::prelude::*;
use vstd::string::StringSliceAdditionalSpecFns;
use vstd::utf8::*;

use crate::ascii::{ascii_case_eq, str_eq_ignore_ascii_case};
use crate::byte_search::{
    count_run, find_byte, first_index_of, last_index_of, lemma_first_index, lemma_last_index,
    lemma_run_len_bounds, rfind_byte, run_len,
};
use crate::markdown_fence_policy::{MarkdownFenceClosing, MarkdownFencePolicy};
use crate::unicode_trim::{
    first_word, first_word_text, lemma_trim_end_prefix, trim_end_text, trim_end_whitespace,
    trim_str, trim_text,
};
use crate::control_character_escaper::{capped_len, escape_control_chars, ControlCharacterEscaper};
use crate::error_privacy_policy::ErrorPrivacyPolicy;
use crate::json_decode_error::{JsonDecodeError, JsonInputSizeLimit};
use crate::options::JsonDecodeOptions;
use crate::decode_session::{
    session_max_input_bytes, session_max_normalized_input_bytes, try_charge_input_bytes,
    try_charge_normalized_bytes, DecodeSessionRef, SessionCharge,
};
use crate::unicode_trim::{trim_start_text, starts_with_white_space};
use crate::utf8_text::{lemma_ascii_boundaries, lemma_encode_utf8_concat, slice_text};

verus! {

broadcast use vstd::utf8::encode_utf8_valid_utf8;

/// The UTF-8 encoding of the byte order mark `U+FEFF`.
pub open spec fn starts_with_bom(bytes: Seq<u8>) -> bool {
    bytes.len() >= 3 && bytes[0] == 0xef && bytes[1] == 0xbb && bytes[2] == 0xbf
}

/// The text without one leading byte order mark.
pub open spec fn strip_bom_text(bytes: Seq<u8>) -> Seq<u8> {
    if starts_with_bom(bytes) {
        bytes.subrange(3, bytes.len() as int)
    } else {
        bytes
    }
}

/// The byte value of the backtick fence marker.
pub open spec fn backtick() -> u8 {
    0x60
}

/// The byte value of the tilde fence marker.
pub open spec fn tilde() -> u8 {
    0x7e
}

/// A recognized opening fence: its marker byte, the length of the marker
/// run, and the index just after the run. Up to three leading spaces are
/// accepted before a run of at least three backticks or tildes.
pub open spec fn opening_fence_of(bytes: Seq<u8>) -> Option<(u8, int, int)> {
    let indent = run_len(bytes, 0x20, 0);
    if indent > 3 || indent >= bytes.len() {
        None
    } else {
        let marker = bytes[indent];
        if marker != backtick() && marker != tilde() {
            None
        } else {
            let marker_len = run_len(bytes, marker, indent);
            if marker_len >= 3 {
                Some((marker, marker_len, indent + marker_len))
            } else {
                None
            }
        }
    }
}

/// The end of the first line and the start of the next one, treating a
/// carriage return, a line feed, or both together as one line break.
pub open spec fn first_line_break_of(bytes: Seq<u8>) -> Option<(int, int)> {
    match (first_index_of(bytes, 0x0a), first_index_of(bytes, 0x0d)) {
        (Some(newline), Some(carriage_return)) => if carriage_return < newline {
            if newline == carriage_return + 1 {
                Some((carriage_return, newline + 1))
            } else {
                Some((carriage_return, carriage_return + 1))
            }
        } else {
            Some((newline, newline + 1))
        },
        (Some(newline), None) => Some((newline, newline + 1)),
        (None, Some(carriage_return)) => Some((carriage_return, carriage_return + 1)),
        (None, None) => None,
    }
}

/// A fence info string whose first word is empty, `json` or `jsonc`
/// (ignoring ASCII case).
pub open spec fn is_json_tag(tag: Seq<u8>) -> bool {
    let word = first_word_text(tag);
    word.len() == 0 || ascii_case_eq(word, encode_utf8("json"@)) || ascii_case_eq(word, encode_utf8("jsonc"@))
}

/// The start of the last line of the text without trailing whitespace.
pub open spec fn closing_line_start_of(trimmed_end: Seq<u8>) -> int {
    match last_index_of(trimmed_end, 0x0a) {
        Some(i) => i + 1,
        None => match last_index_of(trimmed_end, 0x0d) {
            Some(i) => i + 1,
            None => 0,
        },
    }
}

/// The run of fence markers that opens a line, when it has at least three
/// markers.
pub open spec fn marker_run_of(line: Seq<u8>, marker: u8) -> Option<int> {
    if run_len(line, marker, 0) >= 3 {
        Some(run_len(line, marker, 0))
    } else {
        None
    }
}

/// The length of fence content that precedes a valid closing fence: the last
/// non-blank line must consist only of at least as many markers as opened
/// the fence.
pub open spec fn closing_fence_cut(content: Seq<u8>, marker: u8, marker_len: int) -> Option<int> {
    let trimmed_end = trim_end_text(content);
    let start = closing_line_start_of(trimmed_end);
    let line = trim_text(trimmed_end.subrange(start, trimmed_end.len() as int));
    match marker_run_of(line, marker) {
        Some(count) => if count == line.len() && count >= marker_len {
            Some(start)
        } else {
            None
        },
        None => None,
    }
}

/// The text with one outer Markdown code fence removed under `policy`.
pub open spec fn strip_fence_text(bytes: Seq<u8>, policy: MarkdownFencePolicy) -> Seq<u8> {
    let (json_only, closing) = match policy {
        MarkdownFencePolicy::Disabled => (false, MarkdownFenceClosing::Optional),
        MarkdownFencePolicy::Any { closing } => (false, closing),
        MarkdownFencePolicy::JsonOnly { closing } => (true, closing),
    };
    if policy == MarkdownFencePolicy::Disabled {
        bytes
    } else {
        match opening_fence_of(bytes) {
            None => bytes,
            Some((marker, marker_len, marker_end)) => match first_line_break_of(bytes) {
                None => bytes,
                Some((line_end, content_start)) => {
                    let tag = trim_text(bytes.subrange(marker_end, line_end));
                    if json_only && !is_json_tag(tag) {
                        bytes
                    } else {
                        let content = bytes.subrange(content_start, bytes.len() as int);
                        match closing_fence_cut(content, marker, marker_len) {
                            Some(cut) => content.subrange(0, cut),
                            None => if closing == MarkdownFenceClosing::Required {
                                bytes
                            } else {
                                content
                            },
                        }
                    }
                },
            },
        }
    }
}


/// The text trimmed when `enabled`.
pub open spec fn trim_if(bytes: Seq<u8>, enabled: bool) -> Seq<u8> {
    if enabled {
        trim_text(bytes)
    } else {
        bytes
    }
}

/// The text without a leading byte order mark when `enabled`.
pub open spec fn strip_bom_if(bytes: Seq<u8>, enabled: bool) -> Seq<u8> {
    if enabled {
        strip_bom_text(bytes)
    } else {
        bytes
    }
}

/// The text after every non-allocating normalization step: trimming,
/// byte order mark removal, trimming, fence removal and trimming again.
pub open spec fn pre_escape_text(bytes: Seq<u8>, options: JsonDecodeOptions) -> Seq<u8> {
    let trim = options.spec_trim_whitespace();
    trim_if(
        strip_fence_text(
            trim_if(strip_bom_if(trim_if(bytes, trim), options.spec_strip_utf8_bom()), trim),
            options.spec_markdown_fence_policy(),
        ),
        trim,
    )
}

/// The normalized text before the final trim: control characters inside
/// strings are escaped when configured.
pub open spec fn escaped_text(bytes: Seq<u8>, options: JsonDecodeOptions) -> Seq<u8> {
    if options.spec_escape_control_chars_in_strings() {
        escape_control_chars(pre_escape_text(bytes, options))
    } else {
        pre_escape_text(bytes, options)
    }
}

/// Control-character repair changes the text: escaping is enabled and a
/// raw control character stands inside a string.
pub open spec fn needs_repair(bytes: Seq<u8>, options: JsonDecodeOptions) -> bool {
    options.spec_escape_control_chars_in_strings() && crate::control_character_escaper::needs_control_escape(
        pre_escape_text(bytes, options),
    )
}

/// The normalized size charged against the normalized-input limit.
pub open spec fn normalized_size(bytes: Seq<u8>, options: JsonDecodeOptions) -> usize {
    if options.spec_escape_control_chars_in_strings() {
        capped_len(escape_control_chars(pre_escape_text(bytes, options)).len() as int)
    } else {
        pre_escape_text(bytes, options).len() as usize
    }
}

/// The fully normalized text.
pub open spec fn normalized_text(bytes: Seq<u8>, options: JsonDecodeOptions) -> Seq<u8> {
    trim_if(escaped_text(bytes, options), options.spec_trim_whitespace())
}

/// The raw input exceeds the configured raw limit.
pub open spec fn exceeds_raw_limit(bytes: Seq<u8>, options: JsonDecodeOptions) -> bool {
    options.spec_max_input_bytes() matches Some(limit) && bytes.len() > limit
}

/// The raw input is empty under the whitespace policy.
pub open spec fn empty_raw_input(bytes: Seq<u8>, options: JsonDecodeOptions) -> bool {
    if options.spec_trim_whitespace() {
        trim_text(bytes).len() == 0
    } else {
        bytes.len() == 0
    }
}

/// The normalized size exceeds the configured normalized limit.
pub open spec fn exceeds_normalized_limit(bytes: Seq<u8>, options: JsonDecodeOptions) -> bool {
    options.spec_max_normalized_bytes() matches Some(limit) && normalized_size(bytes, options) > limit
}

/// What normalization under a decode session charges and gives back, given
/// the charges `made` through the session during the call, in order.
///
/// With `charge_raw_input`, the raw size is charged first; if the session
/// refuses it, nothing else is charged and the raw-size rejection comes
/// back. Then an input that is empty under the whitespace policy is
/// rejected with no further charge. Otherwise the size of the repaired text
/// is charged; if the session refuses it, the normalized-size rejection
/// comes back, and if it admits it, the normalized text, borrowed from the
/// input unless it needed repair, or the empty-input error of the
/// normalized text. The limits in the two rejections are those the session
/// reports.
pub open spec fn charged_normalization<'a>(
    result: Result<Cow<'a, str>, JsonDecodeError>,
    bytes: Seq<u8>,
    options: JsonDecodeOptions,
    charge_raw_input: bool,
    made: Seq<SessionCharge>,
) -> bool {
    let raw = bytes.len() as usize;
    let normalized = normalized_size(bytes, options);
    let policy = options.spec_error_privacy_policy();
    let rest = if charge_raw_input {
        made.drop_first()
    } else {
        made
    };
    if charge_raw_input && made.len() >= 1 && made[0] == (SessionCharge::Raw { bytes: raw, admitted: false }) {
        &&& made.len() == 1
        &&& (result matches Err(error) && (error.spec_size_limit() matches Some(JsonInputSizeLimit::Raw(limit))
            && error.is_input_too_large(raw, limit, policy)))
    } else {
        &&& charge_raw_input ==> made.len() >= 1 && made[0] == (SessionCharge::Raw { bytes: raw, admitted: true })
        &&& if empty_raw_input(bytes, options) {
            &&& rest.len() == 0
            &&& (result matches Err(error) && error.is_empty_input(raw, None, policy))
        } else if rest == seq![SessionCharge::Normalized { bytes: normalized, admitted: false }] {
            result matches Err(error) && (error.spec_size_limit() matches Some(
                JsonInputSizeLimit::Normalized(limit),
            ) && error.is_normalized_input_too_large(raw, normalized, limit, policy))
        } else {
            &&& rest == seq![SessionCharge::Normalized { bytes: normalized, admitted: true }]
            &&& match result {
                Ok(text) => {
                    &&& normalized_text(bytes, options).len() > 0
                    &&& encode_utf8(text@) == normalized_text(bytes, options)
                    &&& !needs_repair(bytes, options) ==> text matches Cow::Borrowed(_)
                },
                Err(error) => {
                    &&& normalized_text(bytes, options).len() == 0
                    &&& error.is_empty_input(raw, Some(0), policy)
                },
            }
        }
    }
}

/// Trimming the start keeps a suffix of the text.
proof fn lemma_trim_start_suffix(bytes: Seq<u8>)
    ensures
        trim_start_text(bytes).len() <= bytes.len(),
        trim_start_text(bytes) == bytes.subrange(bytes.len() - trim_start_text(bytes).len(), bytes.len() as int),
    decreases bytes.len(),
{
    if starts_with_white_space(bytes) {
        let rest = pop_first_scalar(bytes);
        lemma_trim_start_suffix(rest);
        let k = length_of_first_scalar(bytes);
        assert(rest.subrange(rest.len() - trim_start_text(rest).len(), rest.len() as int)
            =~= bytes.subrange(bytes.len() - trim_start_text(rest).len(), bytes.len() as int));
    } else {
        assert(bytes.subrange(0, bytes.len() as int) =~= bytes);
    }
}

/// Trimming that removes nothing leaves the text unchanged.
proof fn lemma_trim_same_len(bytes: Seq<u8>)
    requires
        trim_text(bytes).len() == bytes.len(),
    ensures
        trim_text(bytes) == bytes,
{
    lemma_trim_start_suffix(bytes);
    let start = trim_start_text(bytes);
    lemma_trim_end_prefix(start);
    assert(start =~= bytes);
    assert(trim_end_text(start) =~= start);
}

/// A leading byte order mark is one whole scalar.
proof fn lemma_bom_boundary(bytes: Seq<u8>)
    requires
        valid_utf8(bytes),
        starts_with_bom(bytes),
    ensures
        is_char_boundary(bytes, 3),
{
    reveal_with_fuel(is_char_boundary, 2);
    assert(valid_first_scalar(bytes));
    assert(is_leading_byte_width_3(bytes[0]));
    assert(length_of_first_scalar(bytes) == 3);
}

/// Describes one recognized Markdown code fence opening line.
#[derive(Debug, Clone, Copy)]
pub(crate) struct MarkdownFence {
    /// The byte marker used by the fence.
    pub(crate) marker: u8,
    /// The number of repeated marker bytes in the opening fence.
    pub(crate) marker_len: usize,
    /// The byte index immediately after the opening marker run.
    pub(crate) marker_end: usize,
}

/// Normalizes one raw JSON text input before JSON parsing.
#[derive(Debug, Clone, Copy)]
pub struct LenientJsonNormalizer {
    /// The option set used by the normalizer.
    pub(crate) options: JsonDecodeOptions,
}

impl LenientJsonNormalizer {
    /// Returns a recognized opening Markdown fence when present.
    pub(crate) fn opening_markdown_fence(input: &str) -> (fence: Option<MarkdownFence>)
        ensures
            fence matches Some(f) ==> opening_fence_of(input.spec_bytes()) == Some(
                (f.marker, f.marker_len as int, f.marker_end as int),
            ),
            fence is None ==> opening_fence_of(input.spec_bytes()) is None,
    {
        let bytes = input.as_bytes();
        let indent_len = count_run(bytes, 0x20, 0);
        if indent_len > 3 {
            return None;
        }
        if indent_len >= bytes.len() {
            return None;
        }
        let marker = bytes[indent_len];
        if marker != 0x60 && marker != 0x7e {
            return None;
        }
        let marker_len = count_run(bytes, marker, indent_len);
        proof {
            lemma_run_len_bounds(bytes@, marker, indent_len as int);
        }
        if marker_len >= 3 {
            Some(MarkdownFence { marker, marker_len, marker_end: indent_len + marker_len })
        } else {
            None
        }
    }

    /// Returns the end of the first line and the start of the next line.
    pub(crate) fn first_line_break(input: &str) -> (line_break: Option<(usize, usize)>)
        ensures
            line_break matches Some((end, start)) ==> first_line_break_of(input.spec_bytes()) == Some(
                (end as int, start as int),
            ),
            line_break is None ==> first_line_break_of(input.spec_bytes()) is None,
    {
        let bytes = input.as_bytes();
        let total = bytes.len();
        proof {
            lemma_first_index(bytes@, 0x0a, 0);
            lemma_first_index(bytes@, 0x0d, 0);
        }
        let newline = find_byte(bytes, 0x0a);
        let carriage_return = find_byte(bytes, 0x0d);
        match (newline, carriage_return) {
            (Some(newline), Some(carriage_return)) => {
                if carriage_return < newline {
                    let content_start = if newline == carriage_return + 1 {
                        newline + 1
                    } else {
                        carriage_return + 1
                    };
                    Some((carriage_return, content_start))
                } else {
                    Some((newline, newline + 1))
                }
            },
            (Some(newline), None) => Some((newline, newline + 1)),
            (None, Some(carriage_return)) => Some((carriage_return, carriage_return + 1)),
            (None, None) => None,
        }
    }

    /// Returns whether a fenced info string should be treated as JSON.
    pub(crate) fn is_json_code_fence_tag(tag: &str) -> (is_json: bool)
        ensures
            is_json == is_json_tag(tag.spec_bytes()),
    {
        let language = first_word(tag);
        let empty = language.as_bytes().len() == 0;
        let json = str_eq_ignore_ascii_case(language, "json");
        let jsonc = str_eq_ignore_ascii_case(language, "jsonc");
        assert(json == ascii_case_eq(first_word_text(tag.spec_bytes()), encode_utf8("json"@)));
        assert(jsonc == ascii_case_eq(first_word_text(tag.spec_bytes()), encode_utf8("jsonc"@)));
        empty || json || jsonc
    }

    /// Returns the marker run length when `line` starts with at least three
    /// copies of the fence marker.
    pub(crate) fn same_marker_fence_len(line: &str, marker: u8) -> (count: Option<usize>)
        ensures
            count matches Some(c) ==> marker_run_of(line.spec_bytes(), marker) == Some(c as int),
            count is None ==> marker_run_of(line.spec_bytes(), marker) is None,
    {
        let count = count_run(line.as_bytes(), marker, 0);
        if count >= 3 {
            Some(count)
        } else {
            None
        }
    }

    /// Removes a valid closing Markdown code fence from `content` when
    /// present: the last non-blank line must hold only markers of the
    /// opening kind, at least as many as opened the fence.
    pub(crate) fn strip_markdown_closing_fence<'a>(content: &'a str, opening_fence: MarkdownFence) -> (stripped: Option<&'a str>)
        ensures
            stripped matches Some(text) ==> closing_fence_cut(
                content.spec_bytes(),
                opening_fence.marker,
                opening_fence.marker_len as int,
            ) matches Some(cut) && text.spec_bytes() == content.spec_bytes().subrange(0, cut),
            stripped is None ==> closing_fence_cut(
                content.spec_bytes(),
                opening_fence.marker,
                opening_fence.marker_len as int,
            ) is None,
    {
        let ghost cb = content.spec_bytes();
        let trimmed_end = trim_end_whitespace(content);
        let tb = trimmed_end.as_bytes();
        let total = tb.len();
        proof {
            lemma_trim_end_prefix(cb);
            lemma_last_index(tb@, 0x0a, tb@.len() as int);
            lemma_last_index(tb@, 0x0d, tb@.len() as int);
            vstd::utf8::is_char_boundary_start_end_of_seq(tb@);
            vstd::utf8::is_char_boundary_start_end_of_seq(cb);
        }
        let closing_line_start = match rfind_byte(tb, 0x0a) {
            Some(index) => index + 1,
            None => match rfind_byte(tb, 0x0d) {
                Some(index) => index + 1,
                None => 0,
            },
        };
        assert(closing_line_start as int == closing_line_start_of(tb@));
        proof {
            if closing_line_start > 0 {
                lemma_ascii_boundaries(tb@, closing_line_start - 1);
                assert(cb[closing_line_start - 1] == tb@[closing_line_start - 1]);
                lemma_ascii_boundaries(cb, closing_line_start - 1);
            }
        }
        let last_line = slice_text(trimmed_end, closing_line_start, trimmed_end.len());
        let closing_line = trim_str(last_line);
        let closing_len = match Self::same_marker_fence_len(closing_line, opening_fence.marker) {
            Some(count) => count,
            None => return None,
        };
        assert(closing_line.spec_bytes() == trim_text(tb@.subrange(closing_line_start as int, tb@.len() as int)));
        assert(marker_run_of(closing_line.spec_bytes(), opening_fence.marker) == Some(closing_len as int));
        if closing_len == closing_line.as_bytes().len() && closing_len >= opening_fence.marker_len {
            Some(slice_text(content, 0, closing_line_start))
        } else {
            None
        }
    }

    /// Removes one outer Markdown code fence under the configured policy.
    ///
    /// Only a fence that starts at the beginning of the input with at least
    /// three backticks or tildes (after up to three spaces) is removed. A
    /// valid closing fence is removed with it; without one, the policy
    /// decides whether the opening fence alone is removed.
    pub(crate) fn strip_markdown_code_fence<'a>(&self, input: &'a str) -> (stripped: &'a str)
        ensures
            stripped.spec_bytes() == strip_fence_text(input.spec_bytes(), self.options.spec_markdown_fence_policy()),
    {
        let policy = self.options.markdown_fence_policy();
        let (json_only, closing) = match policy {
            MarkdownFencePolicy::Disabled => {
                return input;
            },
            MarkdownFencePolicy::Any { closing } => (false, closing),
            MarkdownFencePolicy::JsonOnly { closing } => (true, closing),
        };
        let opening_fence = match Self::opening_markdown_fence(input) {
            Some(fence) => fence,
            None => {
                return input;
            },
        };
        let (line_end, content_start) = match Self::first_line_break(input) {
            Some(line_break) => line_break,
            None => {
                return input;
            },
        };
        let ghost bs = input.spec_bytes();
        proof {
            let indent = run_len(bs, 0x20, 0);
            lemma_run_len_bounds(bs, 0x20, 0);
            lemma_run_len_bounds(bs, opening_fence.marker, indent);
            lemma_first_index(bs, 0x0a, 0);
            lemma_first_index(bs, 0x0d, 0);
            assert forall|j: int| 0 <= j < opening_fence.marker_end implies bs[j] != 0x0a && bs[j] != 0x0d by {
                if j < indent {
                    assert(bs[j] == 0x20);
                } else {
                    assert(bs[j] == opening_fence.marker);
                }
            }
            assert(opening_fence.marker_end <= line_end);
            lemma_ascii_boundaries(bs, opening_fence.marker_end - 1);
            lemma_ascii_boundaries(bs, line_end as int);
            lemma_ascii_boundaries(bs, content_start - 1);
            vstd::utf8::is_char_boundary_start_end_of_seq(bs);
        }
        let tag = trim_str(slice_text(input, opening_fence.marker_end, line_end));
        if json_only && !Self::is_json_code_fence_tag(tag) {
            return input;
        }
        let content = slice_text(input, content_start, input.as_bytes().len());
        if let Some(without_close) = Self::strip_markdown_closing_fence(content, opening_fence) {
            return without_close;
        }
        match closing {
            MarkdownFenceClosing::Required => input,
            MarkdownFenceClosing::Optional => content,
        }
    }

    /// Creates a normalizer with the provided lenient decoding options.
    pub fn new(options: JsonDecodeOptions) -> (normalizer: Self)
        ensures
            normalizer.spec_options() == options,
    {
        LenientJsonNormalizer { options }
    }

    /// The option set of the normalizer.
    pub closed spec fn spec_options(self) -> JsonDecodeOptions {
        self.options
    }

    /// Returns the configuration used by this normalizer.
    pub fn options(&self) -> (options: &JsonDecodeOptions)
        ensures
            *options == self.spec_options(),
    {
        &self.options
    }

    /// Trims a borrowed input slice when trimming is enabled.
    pub(crate) fn trim_if_enabled<'a>(&self, input: &'a str) -> (trimmed: &'a str)
        ensures
            trimmed.spec_bytes() == trim_if(input.spec_bytes(), self.options.spec_trim_whitespace()),
    {
        if self.options.trim_whitespace() {
            trim_str(input)
        } else {
            input
        }
    }

    /// Trims normalized text when trimming is enabled; borrowed values stay
    /// borrowed, and owned values are copied only when trimming removes
    /// characters.
    pub(crate) fn trim_cow_if_enabled<'a>(&self, input: Cow<'a, str>) -> (trimmed: Cow<'a, str>)
        ensures
            encode_utf8(trimmed@) == trim_if(encode_utf8(input@), self.options.spec_trim_whitespace()),
            input matches Cow::Borrowed(_) ==> trimmed matches Cow::Borrowed(_),
    {
        if !self.options.trim_whitespace() {
            return input;
        }
        match input {
            Cow::Borrowed(text) => Cow::Borrowed(trim_str(text)),
            Cow::Owned(text) => {
                let trimmed = trim_str(text.as_str());
                if trimmed.as_bytes().len() == text.as_str().as_bytes().len() {
                    proof {
                        lemma_trim_same_len(encode_utf8(text@));
                    }
                    Cow::Owned(text)
                } else {
                    Cow::Owned(trimmed.to_owned())
                }
            },
        }
    }

    /// Removes one leading UTF-8 byte order mark when configured.
    pub(crate) fn strip_utf8_bom<'a>(&self, input: &'a str) -> (stripped: &'a str)
        ensures
            stripped.spec_bytes() == strip_bom_if(input.spec_bytes(), self.options.spec_strip_utf8_bom()),
    {
        if !self.options.strip_utf8_bom() {
            return input;
        }
        let bytes = input.as_bytes();
        if bytes.len() >= 3 && bytes[0] == 0xef && bytes[1] == 0xbb && bytes[2] == 0xbf {
            proof {
                lemma_bom_boundary(bytes@);
                vstd::utf8::is_char_boundary_start_end_of_seq(bytes@);
            }
            slice_text(input, 3, bytes.len())
        } else {
            input
        }
    }

    /// Rejects raw input longer than the configured raw limit.
    pub(crate) fn require_within_size_limit(&self, input: &str) -> (result: Result<(), JsonDecodeError>)
        ensures
            result is Ok <==> !exceeds_raw_limit(input.spec_bytes(), self.options),
            result matches Err(error) ==> error.is_input_too_large(
                input.spec_bytes().len() as usize,
                self.options.spec_max_input_bytes()->0,
                self.options.spec_error_privacy_policy(),
            ),
    {
        if let Some(limit) = self.options.max_input_bytes() {
            let size = input.as_bytes().len();
            if size > limit {
                return Err(JsonDecodeError::input_too_large(size, limit, self.options.error_privacy_policy()));
            }
        }
        Ok(())
    }

    /// Rejects input that is empty under the configured whitespace policy.
    pub(crate) fn require_non_empty<'a>(&self, input: &'a str, raw_input_bytes: usize) -> (result: Result<&'a str, JsonDecodeError>)
        ensures
            result is Ok <==> !empty_raw_input(input.spec_bytes(), self.options),
            result matches Ok(text) ==> text == input,
            result matches Err(error) ==> error.is_empty_input(
                raw_input_bytes,
                None,
                self.options.spec_error_privacy_policy(),
            ),
    {
        if self.options.trim_whitespace() {
            if trim_str(input).as_bytes().len() == 0 {
                return Err(JsonDecodeError::empty_input(raw_input_bytes, None, self.options.error_privacy_policy()));
            }
        } else if input.as_bytes().len() == 0 {
            return Err(JsonDecodeError::empty_input(raw_input_bytes, None, self.options.error_privacy_policy()));
        }
        Ok(input)
    }

    /// Scans normalized input before allocating repaired text; returns the
    /// normalized byte length and whether escaping is required.
    pub(crate) fn scan_normalized_size(&self, input: &str) -> (result: (usize, bool))
        ensures
            result == if self.options.spec_escape_control_chars_in_strings() {
                (capped_len(escape_control_chars(input.spec_bytes()).len() as int), crate::control_character_escaper::needs_control_escape(input.spec_bytes()))
            } else {
                (input.spec_bytes().len() as usize, false)
            },
    {
        ControlCharacterEscaper::scan(input, self.options.escape_control_chars_in_strings())
    }

    /// Rejects a normalized size above the configured normalized limit.
    pub(crate) fn require_normalized_within_limit(
        &self,
        raw_input_bytes: usize,
        normalized_input_bytes: usize,
    ) -> (result: Result<(), JsonDecodeError>)
        ensures
            result is Ok <==> !(self.options.spec_max_normalized_bytes() matches Some(limit) && normalized_input_bytes > limit),
            result matches Err(error) ==> error.is_normalized_input_too_large(
                raw_input_bytes,
                normalized_input_bytes,
                self.options.spec_max_normalized_bytes()->0,
                self.options.spec_error_privacy_policy(),
            ),
    {
        if let Some(limit) = self.options.max_normalized_bytes() {
            if normalized_input_bytes > limit {
                return Err(JsonDecodeError::normalized_input_too_large(
                    raw_input_bytes,
                    normalized_input_bytes,
                    limit,
                    self.options.error_privacy_policy(),
                ));
            }
        }
        Ok(())
    }

    /// Normalizes one raw JSON text input into text ready for parsing.
    ///
    /// The pipeline trims whitespace, strips one byte order mark, removes
    /// one outer Markdown fence, escapes raw control characters inside JSON
    /// strings, and rejects text that is too large or empty. Each step runs
    /// only when configured. The result borrows the input unless control
    /// characters required escaping.
    pub fn normalize<'a>(&self, input: &'a str) -> (result: Result<Cow<'a, str>, JsonDecodeError>)
        ensures
            result is Ok <==> {
                &&& !exceeds_raw_limit(input.spec_bytes(), self.spec_options())
                &&& !empty_raw_input(input.spec_bytes(), self.spec_options())
                &&& !exceeds_normalized_limit(input.spec_bytes(), self.spec_options())
                &&& normalized_text(input.spec_bytes(), self.spec_options()).len() > 0
            },
            result matches Ok(text) ==> encode_utf8(text@) == normalized_text(input.spec_bytes(), self.spec_options()),
            result matches Ok(text) ==> (!needs_repair(input.spec_bytes(), self.spec_options())
                ==> text matches Cow::Borrowed(_)),
            result matches Err(error) ==> {
                let bytes = input.spec_bytes();
                let raw = bytes.len() as usize;
                let policy = self.spec_options().spec_error_privacy_policy();
                if exceeds_raw_limit(bytes, self.spec_options()) {
                    error.is_input_too_large(raw, self.spec_options().spec_max_input_bytes()->0, policy)
                } else if empty_raw_input(bytes, self.spec_options()) {
                    error.is_empty_input(raw, None, policy)
                } else if exceeds_normalized_limit(bytes, self.spec_options()) {
                    error.is_normalized_input_too_large(
                        raw,
                        normalized_size(bytes, self.spec_options()),
                        self.spec_options().spec_max_normalized_bytes()->0,
                        policy,
                    )
                } else {
                    error.is_empty_input(raw, Some(0), policy)
                }
            },
    {
        let raw_input_bytes = input.as_bytes().len();
        self.require_within_size_limit(input)?;
        let input = self.require_non_empty(input, raw_input_bytes)?;
        let input = self.trim_if_enabled(input);
        let input = self.strip_utf8_bom(input);
        let input = self.trim_if_enabled(input);
        let input = self.strip_markdown_code_fence(input);
        let input = self.trim_if_enabled(input);
        let (normalized_len, needs_escape) = self.scan_normalized_size(input);
        self.require_normalized_within_limit(raw_input_bytes, normalized_len)?;
        let escaped = ControlCharacterEscaper::escape_with_scan(input, normalized_len, needs_escape);
        proof {
            if !needs_escape && self.options.spec_escape_control_chars_in_strings() {
                crate::control_character_escaper::lemma_no_escape_identity(input.spec_bytes());
            }
        }
        let output = self.trim_cow_if_enabled(escaped);
        let empty = match &output {
            Cow::Borrowed(text) => text.as_bytes().len() == 0,
            Cow::Owned(text) => text.as_str().as_bytes().len() == 0,
        };
        if empty {
            Err(JsonDecodeError::empty_input(raw_input_bytes, Some(0), self.options.error_privacy_policy()))
        } else {
            Ok(output)
        }
    }
}

/// Text that passed the non-allocating normalization steps, waiting for its
/// normalized size to be charged before control characters are repaired.
pub struct PreparedJsonText<'a> {
    /// The trimmed, BOM-free, unfenced text.
    text: &'a str,
    /// The options the text was prepared with.
    options: JsonDecodeOptions,
    /// The byte length of the raw input.
    raw_input_bytes: usize,
    /// The byte length the text will have once repaired.
    normalized_input_bytes: usize,
    /// Whether repairing changes the text.
    needs_escape: bool,
    /// The raw input the text was prepared from.
    source: Ghost<Seq<u8>>,
}

impl<'a> PreparedJsonText<'a> {
    /// The raw input the text was prepared from.
    pub closed spec fn spec_source(self) -> Seq<u8> {
        self.source@
    }

    /// The options the text was prepared with.
    pub closed spec fn spec_options(self) -> JsonDecodeOptions {
        self.options
    }

    /// The raw input size.
    pub closed spec fn spec_raw_input_bytes(self) -> usize {
        self.raw_input_bytes
    }

    /// The normalized size to charge.
    pub closed spec fn spec_normalized_input_bytes(self) -> usize {
        self.normalized_input_bytes
    }

    /// The fields agree with the raw input and the options.
    pub closed spec fn wf(self) -> bool {
        &&& self.text.spec_bytes() == pre_escape_text(self.source@, self.options)
        &&& self.raw_input_bytes == self.source@.len()
        &&& self.normalized_input_bytes == normalized_size(self.source@, self.options)
        &&& self.needs_escape == (self.options.spec_escape_control_chars_in_strings()
            && crate::control_character_escaper::needs_control_escape(self.text.spec_bytes()))
    }

    /// Returns the raw input size.
    pub fn raw_input_bytes(&self) -> (bytes: usize)
        ensures
            bytes == self.spec_raw_input_bytes(),
    {
        self.raw_input_bytes
    }

    /// Returns the normalized size that a budget charges before repair.
    pub fn normalized_input_bytes(&self) -> (bytes: usize)
        ensures
            bytes == self.spec_normalized_input_bytes(),
    {
        self.normalized_input_bytes
    }

    /// Repairs control characters and rejects text left empty.
    pub fn finish(self) -> (result: Result<Cow<'a, str>, JsonDecodeError>)
        requires
            self.wf(),
        ensures
            result is Ok <==> normalized_text(self.spec_source(), self.spec_options()).len() > 0,
            result matches Ok(text) ==> encode_utf8(text@) == normalized_text(
                self.spec_source(),
                self.spec_options(),
            ),
            result matches Err(error) ==> error.is_empty_input(
                self.spec_raw_input_bytes(),
                Some(0),
                self.spec_options().spec_error_privacy_policy(),
            ),
            result matches Ok(text) ==> (!needs_repair(self.spec_source(), self.spec_options())
                ==> text matches Cow::Borrowed(_)),
    {
        let normalizer = LenientJsonNormalizer::new(self.options);
        let input = self.text;
        let escaped = ControlCharacterEscaper::escape_with_scan(input, self.normalized_input_bytes, self.needs_escape);
        proof {
            if !self.needs_escape && self.options.spec_escape_control_chars_in_strings() {
                crate::control_character_escaper::lemma_no_escape_identity(input.spec_bytes());
            }
        }
        let output = normalizer.trim_cow_if_enabled(escaped);
        let empty = match &output {
            Cow::Borrowed(text) => text.as_bytes().len() == 0,
            Cow::Owned(text) => text.as_str().as_bytes().len() == 0,
        };
        if empty {
            Err(JsonDecodeError::empty_input(self.raw_input_bytes, Some(0), self.options.error_privacy_policy()))
        } else {
            Ok(output)
        }
    }
}

impl LenientJsonNormalizer {
    /// Runs the steps that precede control-character repair: rejects input
    /// that is empty under the whitespace policy, then trims, strips one
    /// byte order mark and one outer Markdown fence, and measures the
    /// repaired size. No size limit of the options is applied: a budget
    /// charges the sizes instead.
    pub fn prepare<'a>(&self, input: &'a str) -> (result: Result<PreparedJsonText<'a>, JsonDecodeError>)
        ensures
            result is Ok <==> !empty_raw_input(input.spec_bytes(), self.spec_options()),
            result matches Ok(prepared) ==> {
                &&& prepared.wf()
                &&& prepared.spec_source() == input.spec_bytes()
                &&& prepared.spec_options() == self.spec_options()
            },
            result matches Err(error) ==> error.is_empty_input(
                input.spec_bytes().len() as usize,
                None,
                self.spec_options().spec_error_privacy_policy(),
            ),
    {
        let raw_input_bytes = input.as_bytes().len();
        let source = input;
        let input = self.require_non_empty(input, raw_input_bytes)?;
        let input = self.trim_if_enabled(input);
        let input = self.strip_utf8_bom(input);
        let input = self.trim_if_enabled(input);
        let input = self.strip_markdown_code_fence(input);
        let input = self.trim_if_enabled(input);
        let (normalized_input_bytes, needs_escape) = self.scan_normalized_size(input);
        Ok(PreparedJsonText {
            text: input,
            options: self.options,
            raw_input_bytes,
            normalized_input_bytes,
            needs_escape,
            source: Ghost(source.spec_bytes()),
        })
    }

    /// The error for raw input that a budget refused: the budget's limit,
    /// or the refused amount when the budget reports none.
    pub fn raw_input_rejection(&self, raw_input_bytes: usize, limit: Option<usize>) -> (error: JsonDecodeError)
        ensures
            error.is_input_too_large(
                raw_input_bytes,
                match limit {
                    Some(maximum) => maximum,
                    None => raw_input_bytes,
                },
                self.spec_options().spec_error_privacy_policy(),
            ),
    {
        let maximum = match limit {
            Some(maximum) => maximum,
            None => raw_input_bytes,
        };
        JsonDecodeError::input_too_large(raw_input_bytes, maximum, self.options.error_privacy_policy())
    }

    /// The error for normalized input that a budget refused: the budget's
    /// limit, or the refused amount when the budget reports none.
    pub fn normalized_input_rejection(
        &self,
        raw_input_bytes: usize,
        normalized_input_bytes: usize,
        limit: Option<usize>,
    ) -> (error: JsonDecodeError)
        ensures
            error.is_normalized_input_too_large(
                raw_input_bytes,
                normalized_input_bytes,
                match limit {
                    Some(maximum) => maximum,
                    None => normalized_input_bytes,
                },
                self.spec_options().spec_error_privacy_policy(),
            ),
    {
        let maximum = match limit {
            Some(maximum) => maximum,
            None => normalized_input_bytes,
        };
        JsonDecodeError::normalized_input_too_large(
            raw_input_bytes,
            normalized_input_bytes,
            maximum,
            self.options.error_privacy_policy(),
        )
    }
}

impl LenientJsonNormalizer {
    /// Normalizes `input` while charging a decode session: first the raw
    /// size, when `charge_raw_input` is set, then, once the text passed the
    /// empty-input check and was trimmed, stripped of a byte order mark and
    /// unfenced, the size it has after repair, before any repaired text is
    /// allocated. A refused charge is answered with the matching size error,
    /// carrying the limit the session reports. The options' own size limits
    /// are not applied: the session's budgets take their place.
    pub fn normalize_with_session<'a>(
        &self,
        input: &'a str,
        session: &mut DecodeSessionRef<'_, '_>,
        charge_raw_input: bool,
    ) -> (result: Result<Cow<'a, str>, JsonDecodeError>)
        ensures
            old(session).spec_charges().len() <= final(session).spec_charges().len(),
            final(session).spec_charges().subrange(0, old(session).spec_charges().len() as int)
                == old(session).spec_charges(),
            charged_normalization(
                result,
                input.spec_bytes(),
                self.spec_options(),
                charge_raw_input,
                final(session).spec_charges().skip(old(session).spec_charges().len() as int),
            ),
    {
        let ghost before = session.spec_charges();
        let raw_input_bytes = input.as_bytes().len();
        if charge_raw_input {
            let admitted = try_charge_input_bytes(session, raw_input_bytes);
            assert(session.spec_charges().skip(before.len() as int) =~= seq![
                SessionCharge::Raw { bytes: raw_input_bytes, admitted },
            ]);
            assert(session.spec_charges().subrange(0, before.len() as int) =~= before);
            if !admitted {
                let limit = session_max_input_bytes(session);
                return Err(self.raw_input_rejection(raw_input_bytes, limit));
            }
        }
        let ghost after_raw = session.spec_charges();
        let prepared = match self.prepare(input) {
            Ok(prepared) => prepared,
            Err(error) => {
                proof {
                    let made = session.spec_charges().skip(before.len() as int);
                    if charge_raw_input {
                        assert(made.drop_first() =~= Seq::<SessionCharge>::empty());
                    } else {
                        assert(made =~= Seq::<SessionCharge>::empty());
                        assert(session.spec_charges().subrange(0, before.len() as int) =~= before);
                    }
                }
                return Err(error);
            },
        };
        let normalized_input_bytes = prepared.normalized_input_bytes();
        let admitted = try_charge_normalized_bytes(session, normalized_input_bytes);
        proof {
            let made = session.spec_charges().skip(before.len() as int);
            let expected = seq![SessionCharge::Normalized { bytes: normalized_input_bytes, admitted }];
            assert(session.spec_charges().subrange(0, before.len() as int) =~= before);
            if charge_raw_input {
                assert(made.drop_first() =~= expected);
                assert(made[0] == after_raw.skip(before.len() as int)[0]);
            } else {
                assert(made =~= expected);
            }
        }
        if !admitted {
            let limit = session_max_normalized_input_bytes(session);
            return Err(self.normalized_input_rejection(raw_input_bytes, normalized_input_bytes, limit));
        }
        proof {
            let made = session.spec_charges().skip(before.len() as int);
            let rest = if charge_raw_input {
                made.drop_first()
            } else {
                made
            };
            let refused = seq![SessionCharge::Normalized { bytes: normalized_input_bytes, admitted: false }];
            assert(rest[0] != refused[0]);
        }
        prepared.finish()
    }

    /// Normalizes `input` whose raw size the caller already charged to the
    /// session, charging only its normalized size.
    pub fn normalize_after_raw_charge<'a>(
        &self,
        input: &'a str,
        session: &mut DecodeSessionRef<'_, '_>,
    ) -> (result: Result<Cow<'a, str>, JsonDecodeError>)
        ensures
            old(session).spec_charges().len() <= final(session).spec_charges().len(),
            final(session).spec_charges().subrange(0, old(session).spec_charges().len() as int)
                == old(session).spec_charges(),
            charged_normalization(
                result,
                input.spec_bytes(),
                self.spec_options(),
                false,
                final(session).spec_charges().skip(old(session).spec_charges().len() as int),
            ),
    {
        self.normalize_with_session(input, session, false)
    }
}

/// Options that disable every normalization rule leave the text unchanged:
/// the normalized text is the raw input, and so is its size.
pub proof fn lemma_disabled_rules_leave_text_unchanged(bytes: Seq<u8>, options: JsonDecodeOptions)
    requires
        !options.spec_trim_whitespace(),
        !options.spec_strip_utf8_bom(),
        options.spec_markdown_fence_policy() == MarkdownFencePolicy::Disabled,
        !options.spec_escape_control_chars_in_strings(),
    ensures
        normalized_text(bytes, options) == bytes,
        normalized_size(bytes, options) == bytes.len() as usize,
{
}

/// Runs of at least three tildes open a fence just as runs of backticks do:
/// after up to three spaces, three or more `~`, or three or more backticks,
/// open a fence whose marker is that byte and whose run is the whole run of
/// that byte.
pub proof fn lemma_tilde_and_backtick_runs_open_fences(bytes: Seq<u8>, indent: int)
    requires
        0 <= indent <= 3,
        indent + 3 <= bytes.len(),
        forall|i: int| 0 <= i < indent ==> bytes[i] == 0x20,
        bytes[indent] == 0x7e || bytes[indent] == 0x60,
        bytes[indent + 1] == bytes[indent],
        bytes[indent + 2] == bytes[indent],
    ensures
        opening_fence_of(bytes) == Some(
            (
                bytes[indent],
                run_len(bytes, bytes[indent], indent),
                indent + run_len(bytes, bytes[indent], indent),
            ),
        ),
{
    reveal_with_fuel(run_len, 5);
    assert(run_len(bytes, 0x20, 0) == indent);
    let m = bytes[indent];
    lemma_run_len_bounds(bytes, m, indent + 3);
    assert(run_len(bytes, m, indent + 2) == 1 + run_len(bytes, m, indent + 3));
    assert(run_len(bytes, m, indent + 1) == 1 + run_len(bytes, m, indent + 2));
    assert(run_len(bytes, m, indent) == 1 + run_len(bytes, m, indent + 1));
}

/// Under a policy that strips any fence and needs no closing fence, a text
/// opened by a tilde or backtick fence loses at least its opening line: what
/// remains is a part of the text that starts right after the first line
/// break.
pub proof fn lemma_fenced_text_loses_its_opening_line(bytes: Seq<u8>, indent: int)
    requires
        0 <= indent <= 3,
        indent + 3 <= bytes.len(),
        forall|i: int| 0 <= i < indent ==> bytes[i] == 0x20,
        bytes[indent] == 0x7e || bytes[indent] == 0x60,
        bytes[indent + 1] == bytes[indent],
        bytes[indent + 2] == bytes[indent],
    ensures
        first_line_break_of(bytes) matches Some((_, start)) ==> {
            let stripped = strip_fence_text(
                bytes,
                MarkdownFencePolicy::Any { closing: MarkdownFenceClosing::Optional },
            );
            &&& start + stripped.len() <= bytes.len()
            &&& stripped == bytes.subrange(start, start + stripped.len())
        },
{
    lemma_tilde_and_backtick_runs_open_fences(bytes, indent);
    lemma_first_index(bytes, 0x0a, 0);
    lemma_first_index(bytes, 0x0d, 0);
    if let Some((line_end, start)) = first_line_break_of(bytes) {
        let content = bytes.subrange(start, bytes.len() as int);
        let trimmed_end = trim_end_text(content);
        lemma_trim_end_prefix(content);
        lemma_last_index(trimmed_end, 0x0a, trimmed_end.len() as int);
        lemma_last_index(trimmed_end, 0x0d, trimmed_end.len() as int);
        let stripped = strip_fence_text(bytes, MarkdownFencePolicy::Any { closing: MarkdownFenceClosing::Optional });
        if let Some(cut) = closing_fence_cut(content, bytes[indent], run_len(bytes, bytes[indent], indent)) {
            assert(cut <= trimmed_end.len());
            assert(stripped =~= bytes.subrange(start, start + cut));
        } else {
            assert(stripped =~= bytes.subrange(start, bytes.len() as int));
        }
    }
}

} // verus!
