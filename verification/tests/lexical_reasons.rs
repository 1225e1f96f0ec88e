use qubit_json::{JsonLexicalErrorReason, JsonLexicalFailure, JsonSyntaxError};

#[test]
fn test_json_lexical_error_reason_formats_every_variant() {
    let cases = [
        (JsonLexicalErrorReason::UnexpectedEnd, "unexpected end of input"),
        (
            JsonLexicalErrorReason::UnexpectedByte { byte: 0x1f },
            "unexpected byte 0x1f",
        ),
        (JsonLexicalErrorReason::ExpectedColon, "expected ':'"),
        (
            JsonLexicalErrorReason::ExpectedCommaOrArrayEnd,
            "expected ',' or ']' in array",
        ),
        (
            JsonLexicalErrorReason::ExpectedCommaOrObjectEnd,
            "expected ',' or '}' in object",
        ),
        (JsonLexicalErrorReason::ExpectedObjectKey, "expected object key"),
        (JsonLexicalErrorReason::InvalidEscape, "invalid string escape"),
        (JsonLexicalErrorReason::InvalidUnicodeEscape, "invalid Unicode escape"),
        (JsonLexicalErrorReason::UnpairedSurrogate, "unpaired Unicode surrogate"),
        (JsonLexicalErrorReason::InvalidUtf8, "invalid UTF-8"),
        (JsonLexicalErrorReason::InvalidNumber, "invalid JSON number"),
        (
            JsonLexicalErrorReason::IntegerOutOfRange,
            "JSON integer is outside the supported 64-bit range",
        ),
        (
            JsonLexicalErrorReason::FloatOutOfRange,
            "JSON number is outside the finite f64 range",
        ),
        (JsonLexicalErrorReason::TrailingCharacters, "trailing characters"),
        (JsonLexicalErrorReason::NestingOverflow, "JSON nesting overflow"),
    ];

    for (reason, expected) in cases {
        assert_eq!(reason.to_text(), expected);
    }
}

#[test]
fn unexpected_byte_is_shown_in_two_lowercase_hex_digits() {
    assert_eq!(
        JsonLexicalErrorReason::UnexpectedByte { byte: 0xAB }.to_text(),
        "unexpected byte 0xab"
    );
    assert_eq!(
        JsonLexicalErrorReason::UnexpectedByte { byte: 0x05 }.to_text(),
        "unexpected byte 0x05"
    );
}

#[test]
fn lexical_failure_text_holds_reason_and_coordinates() {
    let failure = JsonLexicalFailure {
        offset: 12,
        line: 3,
        column: 4,
        reason: JsonLexicalErrorReason::ExpectedColon,
    };
    assert_eq!(failure.to_text(), "expected ':' at line 3 column 4 (byte offset 12)");
}

#[test]
fn syntax_error_keeps_the_lexical_failure() {
    let failure = JsonLexicalFailure {
        offset: 7,
        line: 1,
        column: 8,
        reason: JsonLexicalErrorReason::TrailingCharacters,
    };
    let error = JsonSyntaxError::from_lexical(failure);
    assert_eq!(
        (error.offset(), error.line(), error.column(), error.reason()),
        (7, 1, 8, JsonLexicalErrorReason::TrailingCharacters)
    );
    assert_eq!(error.to_text(), "trailing characters at line 1 column 8 (byte offset 7)");
    assert_eq!(
        JsonSyntaxError::new(1, 2, 3, JsonLexicalErrorReason::InvalidEscape),
        JsonSyntaxError::new(1, 2, 3, JsonLexicalErrorReason::InvalidEscape)
    );
}
