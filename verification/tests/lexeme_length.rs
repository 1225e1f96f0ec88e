use qubit_json::{JsonLexemeLength, JsonLexemeLengthWriter, JsonMapKey};

#[test]
fn integer_lexeme_lengths_count_decimal_digits_and_sign() {
    assert_eq!(JsonLexemeLength::unsigned_integer(0), 1);
    assert_eq!(JsonLexemeLength::unsigned_integer(9), 1);
    assert_eq!(JsonLexemeLength::unsigned_integer(10), 2);
    assert_eq!(JsonLexemeLength::unsigned_integer(u64::MAX as u128), 20);
    assert_eq!(JsonLexemeLength::unsigned_integer(u128::MAX), 39);
    assert_eq!(JsonLexemeLength::signed_integer(-1), 2);
    assert_eq!(JsonLexemeLength::signed_integer(0), 1);
    assert_eq!(JsonLexemeLength::signed_integer(i128::MIN), 40);
    assert_eq!(JsonLexemeLength::signed_integer(i128::MAX), 39);
    assert_eq!(JsonLexemeLength::byte(7), 1);
    assert_eq!(JsonLexemeLength::byte(42), 2);
    assert_eq!(JsonLexemeLength::byte(255), 3);
}

#[test]
fn map_keys_render_wide_integers_in_decimal() {
    assert_eq!(JsonMapKey::signed_wide(-170141183460469231731687303715884105728), "-170141183460469231731687303715884105728");
    assert_eq!(JsonMapKey::signed_wide(42), "42");
    assert_eq!(JsonMapKey::unsigned_wide(u128::MAX), "340282366920938463463374607431768211455");
    assert_eq!(JsonMapKey::unsigned_wide(0), "0");
    for value in [0i128, -5, 123456789, i128::MIN, i128::MAX] {
        assert_eq!(JsonMapKey::signed_wide(value).len(), JsonLexemeLength::signed_integer(value));
    }
}

#[test]
fn lexeme_length_writer_counts_until_the_total_overflows() {
    let mut writer = JsonLexemeLengthWriter::new();
    assert_eq!(writer.len(), 0);
    assert_eq!(writer.record(3), Some(3));
    assert_eq!(writer.record(4), Some(4));
    assert_eq!(writer.len(), 7);
    assert_eq!(writer.record(usize::MAX), None);
    assert_eq!(writer.len(), 7);
}
