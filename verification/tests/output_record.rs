use qubit_json::{encode_outcome, JsonEncodeOutcome, JsonOutputRecord};

#[test]
fn output_record_keeps_first_violation() {
    let mut record: JsonOutputRecord<&str, u32> = JsonOutputRecord::new();
    record.record_violation("first");
    record.record_violation("second");
    record.record_syntax_error(7);
    record.record_syntax_error(8);
    assert_eq!(record.take_violation(), Some("first"));
    assert_eq!(record.take_violation(), None);
    assert_eq!(record.take_syntax_error(), Some(7));
    assert_eq!(record.take_syntax_error(), None);
}

#[test]
fn encode_outcome_precedence() {
    assert_eq!(encode_outcome(true, true, true, false), JsonEncodeOutcome::Budget);
    assert_eq!(encode_outcome(false, true, true, false), JsonEncodeOutcome::InvalidRawJson);
    assert_eq!(encode_outcome(false, false, true, true), JsonEncodeOutcome::Write);
    assert_eq!(encode_outcome(false, false, false, false), JsonEncodeOutcome::Serialize);
    assert_eq!(encode_outcome(false, false, false, true), JsonEncodeOutcome::Written);
}
