//! Failures of typed JSON deserialization, by category and position.

use vstd::prelude::*;

use crate::text::{decimal_chars, push_decimal, push_str};

verus! {

/// The category of a typed JSON deserialization failure.
#[derive(Clone, Copy, Debug, PartialEq, Eq, Structural)]
pub enum JsonDeserializeErrorCategory {
    /// Valid JSON did not match the target type.
    Data,
    /// The input ended before one complete JSON value.
    Eof,
    /// Reading the input failed.
    Io,
    /// The input is not valid JSON syntax.
    Syntax,
}

/// The lowercase name of a category.
pub open spec fn category_name(category: JsonDeserializeErrorCategory) -> Seq<char> {
    match category {
        JsonDeserializeErrorCategory::Data => "data"@,
        JsonDeserializeErrorCategory::Eof => "eof"@,
        JsonDeserializeErrorCategory::Io => "io"@,
        JsonDeserializeErrorCategory::Syntax => "syntax"@,
    }
}

impl JsonDeserializeErrorCategory {
    /// Returns the lowercase name of this category.
    pub fn name(&self) -> (name: &'static str)
        ensures
            name@ == category_name(*self),
    {
        match self {
            JsonDeserializeErrorCategory::Data => "data",
            JsonDeserializeErrorCategory::Eof => "eof",
            JsonDeserializeErrorCategory::Io => "io",
            JsonDeserializeErrorCategory::Syntax => "syntax",
        }
    }
}

/// A typed deserialization failure with its one-based position.
#[derive(Clone, Copy, Debug, PartialEq, Eq, Structural)]
pub struct JsonDeserializeError {
    /// The failure category.
    category: JsonDeserializeErrorCategory,
    /// One-based line, or zero when unknown.
    line: usize,
    /// One-based column, or zero when unknown.
    column: usize,
}

/// The description of a deserialization failure.
pub open spec fn deserialize_error_text(
    category: JsonDeserializeErrorCategory,
    line: usize,
    column: usize,
) -> Seq<char> {
    "JSON deserialization failed ("@ + category_name(category) + ") at line "@ + decimal_chars(
        line as nat,
    ) + ", column "@ + decimal_chars(column as nat)
}

impl JsonDeserializeError {
    /// The failure category.
    pub closed spec fn spec_category(self) -> JsonDeserializeErrorCategory {
        self.category
    }

    /// The failure line.
    pub closed spec fn spec_line(self) -> usize {
        self.line
    }

    /// The failure column.
    pub closed spec fn spec_column(self) -> usize {
        self.column
    }

    /// Creates a failure of `category` at `line` and `column`.
    pub fn new(category: JsonDeserializeErrorCategory, line: usize, column: usize) -> (error: Self)
        ensures
            error.spec_category() == category,
            error.spec_line() == line,
            error.spec_column() == column,
    {
        JsonDeserializeError { category, line, column }
    }

    /// The failure of an input that could not be read, with no position.
    pub fn io() -> (error: Self)
        ensures
            error.spec_category() == JsonDeserializeErrorCategory::Io,
            error.spec_line() == 0,
            error.spec_column() == 0,
    {
        JsonDeserializeError { category: JsonDeserializeErrorCategory::Io, line: 0, column: 0 }
    }

    /// Returns the failure category.
    pub fn category(&self) -> (category: JsonDeserializeErrorCategory)
        ensures
            category == self.spec_category(),
    {
        self.category
    }

    /// Returns the one-based line, or zero when unknown.
    pub fn line(&self) -> (line: usize)
        ensures
            line == self.spec_line(),
    {
        self.line
    }

    /// Returns the one-based column, or zero when unknown.
    pub fn column(&self) -> (column: usize)
        ensures
            column == self.spec_column(),
    {
        self.column
    }

    /// Returns the description of this failure.
    pub fn to_text(&self) -> (text: String)
        ensures
            text@ == deserialize_error_text(self.spec_category(), self.spec_line(), self.spec_column()),
    {
        let mut text = String::new();
        push_str(&mut text, "JSON deserialization failed (");
        push_str(&mut text, self.category.name());
        push_str(&mut text, ") at line ");
        push_decimal(&mut text, self.line as u128);
        push_str(&mut text, ", column ");
        push_decimal(&mut text, self.column as u128);
        assert(text@ =~= deserialize_error_text(self.category, self.line, self.column));
        text
    }
}

} // verus!
