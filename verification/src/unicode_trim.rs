//! Unicode whitespace trimming and word splitting over UTF-8 bytes.

use vstd::prelude::*;
use vstd::string::StringSliceAdditionalSpecFns;
use vstd::utf8::*;

use crate::utf8_text::slice_text;

verus! {

/// A scalar with the Unicode `White_Space` property.
pub open spec fn is_white_space(c: u32) -> bool {
    ||| 0x09 <= c <= 0x0d
    ||| c == 0x20
    ||| c == 0x85
    ||| c == 0xa0
    ||| c == 0x1680
    ||| 0x2000 <= c <= 0x200a
    ||| c == 0x2028
    ||| c == 0x2029
    ||| c == 0x202f
    ||| c == 0x205f
    ||| c == 0x3000
}

/// The encoded text begins with a whitespace scalar.
pub open spec fn starts_with_white_space(bytes: Seq<u8>) -> bool {
    bytes.len() > 0 && valid_first_scalar(bytes) && is_white_space(decode_first_scalar(bytes))
}

/// The encoded text ends with a whitespace scalar.
pub open spec fn ends_with_white_space(bytes: Seq<u8>) -> bool {
    &&& bytes.len() > 0
    &&& length_of_last_scalar(bytes) <= bytes.len()
    &&& is_white_space(decode_last_scalar(bytes))
}

/// The encoded text without its leading whitespace scalars.
pub open spec fn trim_start_text(bytes: Seq<u8>) -> Seq<u8>
    decreases bytes.len(),
{
    if starts_with_white_space(bytes) {
        trim_start_text(pop_first_scalar(bytes))
    } else {
        bytes
    }
}

/// The encoded text without its trailing whitespace scalars.
pub open spec fn trim_end_text(bytes: Seq<u8>) -> Seq<u8>
    decreases bytes.len(),
{
    if ends_with_white_space(bytes) {
        trim_end_text(bytes.subrange(0, bytes.len() - length_of_last_scalar(bytes)))
    } else {
        bytes
    }
}

/// The encoded text without leading and trailing whitespace scalars.
pub open spec fn trim_text(bytes: Seq<u8>) -> Seq<u8> {
    trim_end_text(trim_start_text(bytes))
}

/// The leading run of non-whitespace scalars of the encoded text.
pub open spec fn leading_word(bytes: Seq<u8>) -> Seq<u8>
    decreases bytes.len(),
{
    if bytes.len() > 0 && valid_first_scalar(bytes) && !is_white_space(decode_first_scalar(bytes)) {
        take_first_scalar(bytes) + leading_word(pop_first_scalar(bytes))
    } else {
        Seq::empty()
    }
}

/// The first whitespace-separated word of the encoded text, or nothing.
pub open spec fn first_word_text(bytes: Seq<u8>) -> Seq<u8> {
    leading_word(trim_start_text(bytes))
}

/// Trimming the end keeps a prefix of the text.
pub proof fn lemma_trim_end_prefix(bytes: Seq<u8>)
    ensures
        trim_end_text(bytes).len() <= bytes.len(),
        trim_end_text(bytes) == bytes.subrange(0, trim_end_text(bytes).len() as int),
    decreases bytes.len(),
{
    if ends_with_white_space(bytes) {
        let shorter = bytes.subrange(0, bytes.len() - length_of_last_scalar(bytes));
        lemma_trim_end_prefix(shorter);
        assert(shorter.subrange(0, trim_end_text(shorter).len() as int)
            =~= bytes.subrange(0, trim_end_text(shorter).len() as int));
    } else {
        assert(bytes.subrange(0, bytes.len() as int) =~= bytes);
    }
}

/// Returns `s` with leading and trailing Unicode whitespace removed.
#[verifier::external_body]
pub(crate) fn trim_str(s: &str) -> (trimmed: &str)
    ensures
        trimmed.spec_bytes() == trim_text(s.spec_bytes()),
{
    s.trim()
}

/// Returns `s` with trailing Unicode whitespace removed, through
/// `str::trim_end`, which removes the trailing scalars that have the
/// `White_Space` property.
#[verifier::external_body]
pub(crate) fn trim_end_whitespace(s: &str) -> (trimmed: &str)
    ensures
        trimmed.spec_bytes() == trim_end_text(s.spec_bytes()),
{
    s.trim_end()
}

/// Returns `s` with leading Unicode whitespace removed, through
/// `str::trim_start`, which removes the leading scalars that have the
/// `White_Space` property.
#[verifier::external_body]
fn trim_start_whitespace(s: &str) -> (trimmed: &str)
    ensures
        trimmed.spec_bytes() == trim_start_text(s.spec_bytes()),
{
    s.trim_start()
}

/// Returns whether `c` has the Unicode `White_Space` property.
pub(crate) fn is_white_space_char(c: char) -> (white: bool)
    ensures
        white == is_white_space(c as u32),
{
    let v = c as u32;
    (0x09 <= v && v <= 0x0d) || v == 0x20 || v == 0x85 || v == 0xa0 || v == 0x1680 || (0x2000 <= v && v
        <= 0x200a) || v == 0x2028 || v == 0x2029 || v == 0x202f || v == 0x205f || v == 0x3000
}

/// Finds the first whitespace scalar of `s` through `str::find` with
/// [`is_white_space_char`] as the pattern: `str::find` returns the byte
/// index of the first character that matches, which starts a scalar, so
/// the text before it is the leading word.
#[verifier::external_body]
fn find_white_space(s: &str) -> (found: Option<usize>)
    ensures
        found matches Some(i) ==> i < s.spec_bytes().len() && is_char_boundary(s.spec_bytes(), i as int)
            && leading_word(s.spec_bytes()) == s.spec_bytes().subrange(0, i as int),
        found is None ==> leading_word(s.spec_bytes()) == s.spec_bytes(),
{
    s.find(is_white_space_char)
}

/// Returns the first whitespace-separated word of `s`, or an empty string.
pub(crate) fn first_word(s: &str) -> (word: &str)
    ensures
        word.spec_bytes() == first_word_text(s.spec_bytes()),
{
    let trimmed = trim_start_whitespace(s);
    match find_white_space(trimmed) {
        Some(end) => {
            proof {
                broadcast use vstd::utf8::encode_utf8_valid_utf8;

                vstd::utf8::is_char_boundary_start_end_of_seq(trimmed.spec_bytes());
            }
            slice_text(trimmed, 0, end)
        },
        None => trimmed,
    }
}

} // verus!
