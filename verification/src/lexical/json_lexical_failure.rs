//! A lexical rejection with its source coordinates.

use vstd::prelude::*;

use super::json_lexical_error_reason::{lexical_reason_text, push_reason_text, JsonLexicalErrorReason};
use crate::text::{decimal_chars, push_decimal, push_str};

verus! {

/// A lexical rejection together with the place where it occurred.
#[derive(Clone, Copy, Debug, Eq, PartialEq, Structural)]
pub struct JsonLexicalFailure {
    /// Zero-based input byte offset.
    pub offset: usize,
    /// One-based input line.
    pub line: usize,
    /// One-based UTF-8 character column.
    pub column: usize,
    /// Stable lexical rejection reason.
    pub reason: JsonLexicalErrorReason,
}

/// The privacy-safe description of a failure and its coordinates.
pub open spec fn failure_text(reason: JsonLexicalErrorReason, line: usize, column: usize, offset: usize) -> Seq<char> {
    lexical_reason_text(reason) + " at line "@ + decimal_chars(line as nat) + " column "@ + decimal_chars(
        column as nat,
    ) + " (byte offset "@ + decimal_chars(offset as nat) + ")"@
}

impl JsonLexicalFailure {
    /// Returns a privacy-safe diagnostic with the source coordinates.
    pub fn to_text(&self) -> (text: String)
        ensures
            text@ == failure_text(self.reason, self.line, self.column, self.offset),
    {
        let mut text = String::new();
        push_reason_text(&mut text, self.reason);
        push_str(&mut text, " at line ");
        push_decimal(&mut text, self.line as u128);
        push_str(&mut text, " column ");
        push_decimal(&mut text, self.column as u128);
        push_str(&mut text, " (byte offset ");
        push_decimal(&mut text, self.offset as u128);
        push_str(&mut text, ")");
        assert(text@ =~= failure_text(self.reason, self.line, self.column, self.offset));
        text
    }
}

} // verus!
