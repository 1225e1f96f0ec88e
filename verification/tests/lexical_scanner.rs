use qubit_json::{
    line_column_at, line_column_at_with_inspection, JsonBudgetRequest, JsonLexicalErrorReason,
    JsonLexicalFailure, JsonLexicalScanner, JsonLexicalStep, JsonValueContainerKind,
    JsonValueMeasurement,
};

fn scan(input: &str) -> Result<(), JsonLexicalFailure> {
    JsonLexicalScanner::scan_unbudgeted(input.as_bytes())
}

fn reason(input: &str) -> JsonLexicalErrorReason {
    scan(input).expect_err("the input must be rejected").reason
}

fn charges(input: &str) -> (Vec<JsonBudgetRequest>, Result<(), JsonLexicalFailure>) {
    let mut scanner = JsonLexicalScanner::new(input.as_bytes());
    let mut requests = Vec::new();
    loop {
        match scanner.next_step() {
            JsonLexicalStep::Charge(request) => requests.push(request),
            JsonLexicalStep::Finished(result) => return (requests, result),
        }
    }
}

#[test]
fn test_line_column_at_scans_input_linearly() {
    let input = format!("{}\r\n@", "α".repeat(4_096));
    let (coordinates, steps) = line_column_at_with_inspection(input.as_bytes(), input.len());
    let mut examined_bytes = 0_usize;
    for bytes in steps {
        examined_bytes = examined_bytes.saturating_add(bytes);
    }

    assert_eq!(coordinates, (2, 2));
    assert!(
        examined_bytes <= input.len(),
        "line/column calculation examined {examined_bytes} bytes for an {}-byte input",
        input.len(),
    );

    let invalid_utf8 = [0xC2, b'@'];
    assert_eq!(
        line_column_at_with_inspection(&invalid_utf8, invalid_utf8.len()).0,
        (1, 3),
        "invalid UTF-8 must advance one byte at a time",
    );
}

#[test]
fn line_column_counts_crlf_cr_and_lf_as_one_line_break_each() {
    let input = b"a\r\nb\rc\nd";
    assert_eq!(line_column_at(input, 0), (1, 1));
    assert_eq!(line_column_at(input, 3), (2, 1));
    assert_eq!(line_column_at(input, 5), (3, 1));
    assert_eq!(line_column_at(input, 7), (4, 1));
    assert_eq!(line_column_at(input, 8), (4, 2));
}

#[test]
fn line_column_clamps_offsets_past_the_input() {
    let (coordinates, steps) = line_column_at_with_inspection(b"ab", 10);
    assert_eq!(coordinates, (1, 3));
    assert_eq!(steps, vec![1, 1]);
}

#[test]
fn line_column_steps_take_whole_scalars_and_crlf_pairs() {
    let input = "α\r\n€x\n";
    let (coordinates, steps) = line_column_at_with_inspection(input.as_bytes(), input.len());
    assert_eq!(coordinates, (3, 1));
    assert_eq!(steps, vec![2, 2, 3, 1, 1]);
    let (coordinates, steps) = line_column_at_with_inspection(input.as_bytes(), 1);
    assert_eq!(coordinates, (1, 2));
    assert_eq!(steps, vec![1]);
}

#[test]
fn scanner_accepts_complete_documents() {
    for input in [
        "null",
        " true ",
        "false",
        "0",
        "-0",
        "12.5e-3",
        "\"text\"",
        "[]",
        "{}",
        "[1, [2, {\"a\": [true, null]}], \"x\"]",
        "{\"k\": {\"n\": -1}, \"s\": \"\\u00e9\\n\\ud83d\\ude00\"}",
        "\"caf\u{e9} \u{1F600}\"",
        "\t\r\n {\"a\":1}\n",
    ] {
        assert_eq!(scan(input), Ok(()), "{input}");
    }
}

#[test]
fn scanner_rejects_syntax_that_normalization_never_invents() {
    assert_eq!(reason("[1,]"), JsonLexicalErrorReason::UnexpectedByte { byte: b']' });
    assert_eq!(reason("{\"a\":1,}"), JsonLexicalErrorReason::UnexpectedByte { byte: b'}' });
    assert_eq!(reason("{a:1}"), JsonLexicalErrorReason::ExpectedObjectKey);
    assert_eq!(reason("// c\n1"), JsonLexicalErrorReason::UnexpectedByte { byte: b'/' });
    assert_eq!(reason("[1 2]"), JsonLexicalErrorReason::ExpectedCommaOrArrayEnd);
    assert_eq!(reason("{\"a\" 1}"), JsonLexicalErrorReason::ExpectedColon);
    assert_eq!(reason("{\"a\":1 \"b\":2}"), JsonLexicalErrorReason::ExpectedCommaOrObjectEnd);
}

#[test]
fn scanner_reports_each_reason_at_its_place() {
    let failure = scan("[1,\n  tru]").unwrap_err();
    assert_eq!(failure.reason, JsonLexicalErrorReason::UnexpectedByte { byte: b't' });
    assert_eq!((failure.offset, failure.line, failure.column), (6, 2, 3));

    let failure = scan("[").unwrap_err();
    assert_eq!((failure.offset, failure.reason), (1, JsonLexicalErrorReason::UnexpectedEnd));

    let failure = scan("").unwrap_err();
    assert_eq!((failure.offset, failure.reason), (0, JsonLexicalErrorReason::UnexpectedEnd));

    let failure = scan("1 2").unwrap_err();
    assert_eq!((failure.offset, failure.reason), (2, JsonLexicalErrorReason::TrailingCharacters));

    assert_eq!(reason("\"a\\x\""), JsonLexicalErrorReason::InvalidEscape);
    assert_eq!(reason("\"\\u12G4\""), JsonLexicalErrorReason::InvalidUnicodeEscape);
    assert_eq!(reason("\"\\ud800x\""), JsonLexicalErrorReason::UnpairedSurrogate);
    assert_eq!(reason("\"\\udc00\""), JsonLexicalErrorReason::UnpairedSurrogate);
    assert_eq!(reason("\"\\ud800\\u0041\""), JsonLexicalErrorReason::UnpairedSurrogate);
    assert_eq!(reason("01"), JsonLexicalErrorReason::InvalidNumber);
    assert_eq!(reason("1."), JsonLexicalErrorReason::InvalidNumber);
    assert_eq!(reason("1e+"), JsonLexicalErrorReason::InvalidNumber);
    assert_eq!(reason("-"), JsonLexicalErrorReason::UnexpectedEnd);
    assert_eq!(reason("nul"), JsonLexicalErrorReason::UnexpectedByte { byte: b'n' });
    assert_eq!(reason("nullx"), JsonLexicalErrorReason::UnexpectedByte { byte: b'x' });
    assert_eq!(reason("\"a\u{1}\""), JsonLexicalErrorReason::UnexpectedByte { byte: 0x01 });
    assert_eq!(reason("\"abc"), JsonLexicalErrorReason::UnexpectedEnd);
}

#[test]
fn scanner_rejects_invalid_utf8_inside_strings() {
    let overlong = [b'"', 0xC0, 0x80, b'"'];
    let failure = JsonLexicalScanner::scan_unbudgeted(&overlong).unwrap_err();
    assert_eq!((failure.offset, failure.reason), (1, JsonLexicalErrorReason::InvalidUtf8));

    let surrogate = [b'"', 0xED, 0xA0, 0x80, b'"'];
    let failure = JsonLexicalScanner::scan_unbudgeted(&surrogate).unwrap_err();
    assert_eq!(failure.reason, JsonLexicalErrorReason::InvalidUtf8);

    let truncated = [b'"', 0xE2, 0x82];
    let failure = JsonLexicalScanner::scan_unbudgeted(&truncated).unwrap_err();
    assert_eq!(failure.reason, JsonLexicalErrorReason::UnexpectedEnd);
}

#[test]
fn integers_must_fit_i64_or_u64() {
    assert_eq!(scan("18446744073709551615"), Ok(()));
    assert_eq!(reason("18446744073709551616"), JsonLexicalErrorReason::IntegerOutOfRange);
    assert_eq!(scan("-9223372036854775808"), Ok(()));
    assert_eq!(reason("-9223372036854775809"), JsonLexicalErrorReason::IntegerOutOfRange);
    let failure = scan("[0, 99999999999999999999]").unwrap_err();
    assert_eq!(failure.offset, 4);
}

#[test]
fn fractional_numbers_must_be_finite_f64() {
    assert_eq!(scan("1e308"), Ok(()));
    assert_eq!(reason("1e309"), JsonLexicalErrorReason::FloatOutOfRange);
    assert_eq!(scan("1.7976931348623158e308"), Ok(()));
    assert_eq!(reason("1.7976931348623159e308"), JsonLexicalErrorReason::FloatOutOfRange);
    assert_eq!(scan("0.0000e99999999999999999999999"), Ok(()));
    assert_eq!(scan("1e-99999999999999999999999"), Ok(()));
    assert_eq!(reason("1e99999999999999999999999"), JsonLexicalErrorReason::FloatOutOfRange);
    assert_eq!(scan("-1.5"), Ok(()));
    let threshold = format!(
        "{}e0",
        "179769313486231580793728971405303415079934132710037826936173778980444968292764750946649017977587207096330286416692887910946555547851940402630657488671505820681908902000708383676273854845817711531764475730270069855571366959622842914819860834936475292719074168444365510704342711559699508093042880177904174497792"
    );
    assert_eq!(reason(&threshold), JsonLexicalErrorReason::FloatOutOfRange);
    let below = format!(
        "{}e0",
        "179769313486231580793728971405303415079934132710037826936173778980444968292764750946649017977587207096330286416692887910946555547851940402630657488671505820681908902000708383676273854845817711531764475730270069855571366959622842914819860834936475292719074168444365510704342711559699508093042880177904174497791"
    );
    assert_eq!(scan(&below), Ok(()));
}

#[test]
fn scanning_charges_every_value_in_document_order() {
    let (requests, result) = charges("{\"ab\":[1,\"\\u00e9\"],\"c\":null}");
    assert_eq!(result, Ok(()));
    assert_eq!(
        requests,
        vec![
            JsonBudgetRequest::EnterContainer { kind: JsonValueContainerKind::Object, depth: 1 },
            JsonBudgetRequest::CheckContainerCount { kind: JsonValueContainerKind::Object, count: 1 },
            JsonBudgetRequest::Admit(JsonValueMeasurement::Key { bytes: 2 }),
            JsonBudgetRequest::EnterContainer { kind: JsonValueContainerKind::Array, depth: 2 },
            JsonBudgetRequest::CheckContainerCount { kind: JsonValueContainerKind::Array, count: 1 },
            JsonBudgetRequest::Admit(JsonValueMeasurement::Number { depth: 3, bytes: 1 }),
            JsonBudgetRequest::CheckContainerCount { kind: JsonValueContainerKind::Array, count: 2 },
            JsonBudgetRequest::Admit(JsonValueMeasurement::String { depth: 3, bytes: 2 }),
            JsonBudgetRequest::CheckContainerCount { kind: JsonValueContainerKind::Object, count: 2 },
            JsonBudgetRequest::Admit(JsonValueMeasurement::Key { bytes: 1 }),
            JsonBudgetRequest::Admit(JsonValueMeasurement::Null { depth: 2 }),
        ]
    );
}

#[test]
fn scanning_at_an_enclosing_depth_shifts_every_depth() {
    let mut scanner = JsonLexicalScanner::at_depth(b"[true]", 4);
    assert!(!scanner.finished());
    match scanner.next_step() {
        JsonLexicalStep::Charge(request) => assert_eq!(
            request,
            JsonBudgetRequest::EnterContainer { kind: JsonValueContainerKind::Array, depth: 4 }
        ),
        JsonLexicalStep::Finished(_) => panic!("a charge is expected"),
    }
    let _ = scanner.next_step();
    match scanner.next_step() {
        JsonLexicalStep::Charge(request) => assert_eq!(
            request,
            JsonBudgetRequest::Admit(JsonValueMeasurement::Boolean { depth: 5 })
        ),
        JsonLexicalStep::Finished(_) => panic!("a charge is expected"),
    }
    match scanner.next_step() {
        JsonLexicalStep::Finished(result) => assert_eq!(result, Ok(())),
        JsonLexicalStep::Charge(_) => panic!("the scan is over"),
    }
    assert!(scanner.finished());
}

#[test]
fn number_range_is_checked_after_its_charge() {
    let (requests, result) = charges("1e400");
    assert_eq!(requests, vec![JsonBudgetRequest::Admit(JsonValueMeasurement::Number { depth: 1, bytes: 5 })]);
    assert_eq!(result.unwrap_err().reason, JsonLexicalErrorReason::FloatOutOfRange);
}

#[test]
fn charges_stop_at_the_first_rejection() {
    let (requests, result) = charges("[1, x]");
    assert_eq!(
        requests,
        vec![
            JsonBudgetRequest::EnterContainer { kind: JsonValueContainerKind::Array, depth: 1 },
            JsonBudgetRequest::CheckContainerCount { kind: JsonValueContainerKind::Array, count: 1 },
            JsonBudgetRequest::Admit(JsonValueMeasurement::Number { depth: 2, bytes: 1 }),
            JsonBudgetRequest::CheckContainerCount { kind: JsonValueContainerKind::Array, count: 2 },
        ]
    );
    assert_eq!(result.unwrap_err().reason, JsonLexicalErrorReason::UnexpectedByte { byte: b'x' });
}

#[test]
fn string_charges_count_decoded_bytes() {
    let (requests, _) = charges("\"a\\n\\ud83d\\ude00\u{e9}\"");
    assert_eq!(
        requests,
        vec![JsonBudgetRequest::Admit(JsonValueMeasurement::String { depth: 1, bytes: 8 })]
    );
}
