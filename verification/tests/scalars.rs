use libconfig_ser::error::Error;
use libconfig_ser::to_string;
use libconfig_ser::value::Value;

fn format(v: Value) -> String {
    to_string(&v).unwrap()
}

#[test]
fn booleans_are_written_as_words() {
    assert_eq!(format(Value::Bool(true)), "true");
    assert_eq!(format(Value::Bool(false)), "false");
}

#[test]
fn signed_long_ends_with_l() {
    assert_eq!(format(Value::I64(16)), "16L");
    assert_eq!(format(Value::I64(0)), "0L");
    assert_eq!(format(Value::I64(-1)), "-1L");
    assert_eq!(format(Value::I64(i64::MAX)), "9223372036854775807L");
    assert_eq!(format(Value::I64(i64::MIN)), "-9223372036854775808L");
}

#[test]
fn unsigned_long_ends_with_ul() {
    assert_eq!(format(Value::U64(16)), "16UL");
    assert_eq!(format(Value::U64(0)), "0UL");
    assert_eq!(format(Value::U64(10)), "10UL");
    assert_eq!(format(Value::U64(u64::MAX)), "18446744073709551615UL");
}

#[test]
fn narrow_integers_have_no_suffix() {
    assert_eq!(format(Value::I8(-128)), "-128");
    assert_eq!(format(Value::I8(127)), "127");
    assert_eq!(format(Value::I16(-32768)), "-32768");
    assert_eq!(format(Value::I16(16)), "16");
    assert_eq!(format(Value::I32(i32::MIN)), "-2147483648");
    assert_eq!(format(Value::I32(i32::MAX)), "2147483647");
    assert_eq!(format(Value::I32(0)), "0");
    assert_eq!(format(Value::U8(0)), "0");
    assert_eq!(format(Value::U8(255)), "255");
    assert_eq!(format(Value::U16(65535)), "65535");
    assert_eq!(format(Value::U32(100)), "100");
    assert_eq!(format(Value::U32(u32::MAX)), "4294967295");
}

#[test]
fn decimal_digits_match_the_standard_formatting() {
    let samples: [u64; 12] =
        [0, 1, 9, 10, 11, 99, 100, 101, 1000, 123456789, 9999999999, 10000000000000000000];
    for v in samples {
        assert_eq!(format(Value::U64(v)), format!("{}UL", v));
    }
    let signed: [i64; 8] = [0, -1, -9, -10, -100, 42, -1234567890123, 1000000];
    for v in signed {
        assert_eq!(format(Value::I64(v)), format!("{}L", v));
    }
}

#[test]
fn real_numbers_are_written_as_given() {
    assert_eq!(format(Value::Real((1.5f64).to_string())), "1.5");
    assert_eq!(format(Value::Real((-0.25f64).to_string())), "-0.25");
    assert_eq!(format(Value::Real(f64::from(2.0f32).to_string())), "2");
}

#[test]
fn strings_are_quoted_and_not_escaped() {
    assert_eq!(format(Value::Str("ajo".to_string())), "\"ajo\"");
    assert_eq!(format(Value::Str(String::new())), "\"\"");
    assert_eq!(format(Value::Str("a\"b".to_string())), "\"a\"b\"");
    assert_eq!(format(Value::Str("line\nbreak".to_string())), "\"line\nbreak\"");
    assert_eq!(format(Value::Str("grüße ✓".to_string())), "\"grüße ✓\"");
}

#[test]
fn a_character_is_a_string_of_one() {
    assert_eq!(format(Value::Char('x')), "\"x\"");
    assert_eq!(format(Value::Char('ß')), "\"ß\"");
    assert_eq!(format(Value::Char('"')), "\"\"\"");
}

#[test]
fn absent_and_unit_are_null() {
    assert_eq!(format(Value::Absent), "null");
    assert_eq!(format(Value::Unit), "null");
}

#[test]
fn a_present_value_is_written_without_a_wrapper() {
    assert_eq!(format(Value::Present(Box::new(Value::U32(5)))), "5");
    assert_eq!(
        format(Value::Present(Box::new(Value::Present(Box::new(Value::Str("s".to_string())))))),
        "\"s\""
    );
}

#[test]
fn bytes_are_a_sequence_of_small_integers() {
    assert_eq!(format(Value::Bytes(vec![1, 2, 255])), "[1,2,255]");
    assert_eq!(format(Value::Bytes(vec![7])), "[7]");
    assert_eq!(format(Value::Bytes(Vec::new())), "[]");
    assert_eq!(
        format(Value::Bytes(vec![0, 10])),
        format(Value::Sequence(vec![Value::U8(0), Value::U8(10)]))
    );
}

#[test]
fn custom_error_carries_its_message() {
    assert_eq!(Error::custom("no such key"), Error::Custom("no such key".to_string()));
    assert_ne!(Error::custom("a"), Error::custom("b"));
    assert_ne!(Error::custom("Eof"), Error::Eof);
}
