//! A lexical JSON syntax rejection reported by strict text decoding.

use vstd::prelude::*;

use crate::lexical::json_lexical_error_reason::{push_reason_text, JsonLexicalErrorReason};
use crate::lexical::json_lexical_failure::{failure_text, JsonLexicalFailure};
use crate::text::{push_decimal, push_str};

verus! {

/// A syntax rejection with its byte offset, line, column and reason.
#[derive(Clone, Copy, Debug, PartialEq, Eq, Structural)]
pub struct JsonSyntaxError {
    /// Zero-based input byte offset.
    offset: usize,
    /// One-based input line.
    line: usize,
    /// One-based UTF-8 character column.
    column: usize,
    /// Stable rejection reason.
    reason: JsonLexicalErrorReason,
}

impl JsonSyntaxError {
    /// The byte offset.
    pub closed spec fn spec_offset(self) -> usize {
        self.offset
    }

    /// The line.
    pub closed spec fn spec_line(self) -> usize {
        self.line
    }

    /// The column.
    pub closed spec fn spec_column(self) -> usize {
        self.column
    }

    /// The reason.
    pub closed spec fn spec_reason(self) -> JsonLexicalErrorReason {
        self.reason
    }

    /// Creates a syntax error.
    pub fn new(offset: usize, line: usize, column: usize, reason: JsonLexicalErrorReason) -> (error:
        Self)
        ensures
            error.spec_offset() == offset,
            error.spec_line() == line,
            error.spec_column() == column,
            error.spec_reason() == reason,
    {
        JsonSyntaxError { offset, line, column, reason }
    }

    /// Creates a syntax error from a lexical failure, keeping its place and
    /// reason.
    pub fn from_lexical(failure: JsonLexicalFailure) -> (error: Self)
        ensures
            error.spec_offset() == failure.offset,
            error.spec_line() == failure.line,
            error.spec_column() == failure.column,
            error.spec_reason() == failure.reason,
    {
        Self::new(failure.offset, failure.line, failure.column, failure.reason)
    }

    /// Returns the zero-based byte offset.
    pub fn offset(&self) -> (offset: usize)
        ensures
            offset == self.spec_offset(),
    {
        self.offset
    }

    /// Returns the one-based line.
    pub fn line(&self) -> (line: usize)
        ensures
            line == self.spec_line(),
    {
        self.line
    }

    /// Returns the one-based UTF-8 character column.
    pub fn column(&self) -> (column: usize)
        ensures
            column == self.spec_column(),
    {
        self.column
    }

    /// Returns the stable rejection reason.
    pub fn reason(&self) -> (reason: JsonLexicalErrorReason)
        ensures
            reason == self.spec_reason(),
    {
        self.reason
    }

    /// Returns the description: the reason, then the line, column and byte
    /// offset.
    pub fn to_text(&self) -> (text: String)
        ensures
            text@ == failure_text(
                self.spec_reason(),
                self.spec_line(),
                self.spec_column(),
                self.spec_offset(),
            ),
    {
        let mut text = String::new();
        push_reason_text(&mut text, self.reason);
        push_str(&mut text, " at line ");
        push_decimal(&mut text, self.line as u128);
        push_str(&mut text, " column ");
        push_decimal(&mut text, self.column as u128);
        push_str(&mut text, " (byte offset ");
        push_decimal(&mut text, self.offset as u128);
        push_str(&mut text, ")");
        assert(text@ =~= failure_text(self.reason, self.line, self.column, self.offset));
        text
    }
}

} // verus!
