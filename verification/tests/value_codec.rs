//! Tests of the tolerant scalar value codec.

use vda5050::value::ActionParameterValue;
use vda5050::value::ModelError;

fn decode(s: &str) -> Result<ActionParameterValue, ModelError> {
    ActionParameterValue::decode(s)
}

fn roundtrip(v: &ActionParameterValue) -> ActionParameterValue {
    let wire = v.encode();
    decode(&wire).expect("canonical wire form must decode")
}

#[test]
fn decode_integer_literal() {
    assert!(matches!(decode("42"), Ok(ActionParameterValue::Integer(42))));
}

#[test]
fn decode_float_literal() {
    match decode("42.73") {
        Ok(ActionParameterValue::Float(s)) => {
            assert_eq!(s, "42.73");
            assert_eq!(s.parse::<f64>().unwrap(), 42.73f64);
        }
        other => panic!("expected a floating value, got {:?}", other),
    }
}

#[test]
fn decode_boolean_literal() {
    assert!(matches!(decode("true"), Ok(ActionParameterValue::Boolean(true))));
    assert!(matches!(decode("false"), Ok(ActionParameterValue::Boolean(false))));
}

#[test]
fn decode_null_literal() {
    assert!(matches!(decode("null"), Ok(ActionParameterValue::Null)));
}

#[test]
fn decode_string_literal() {
    match decode("\"left\"") {
        Ok(ActionParameterValue::String(s)) => assert_eq!(s, "left"),
        other => panic!("expected a string value, got {:?}", other),
    }
}

#[test]
fn decode_two_to_the_sixty_third_is_overflow() {
    // 2^63 exceeds the signed 64-bit range: an overflow error, not a
    // silent wraparound.
    assert_eq!(decode("9223372036854775808"), Err(ModelError::Overflow));
}

#[test]
fn decode_signed_sixty_four_bit_bounds() {
    assert!(matches!(
        decode("9223372036854775807"),
        Ok(ActionParameterValue::Integer(i64::MAX))
    ));
    assert!(matches!(
        decode("-9223372036854775808"),
        Ok(ActionParameterValue::Integer(i64::MIN))
    ));
    assert_eq!(decode("-9223372036854775809"), Err(ModelError::Overflow));
    assert_eq!(
        decode("99999999999999999999999999999999999"),
        Err(ModelError::Overflow)
    );
}

#[test]
fn decode_rejects_malformed_scalars() {
    assert_eq!(decode(""), Err(ModelError::TypeMismatch));
    assert_eq!(decode("tru"), Err(ModelError::TypeMismatch));
    assert_eq!(decode("TRUE"), Err(ModelError::TypeMismatch));
    assert_eq!(decode("nil"), Err(ModelError::TypeMismatch));
    assert_eq!(decode("01"), Err(ModelError::TypeMismatch));
    assert_eq!(decode("1."), Err(ModelError::TypeMismatch));
    assert_eq!(decode(".5"), Err(ModelError::TypeMismatch));
    assert_eq!(decode("1e"), Err(ModelError::TypeMismatch));
    assert_eq!(decode("1e+"), Err(ModelError::TypeMismatch));
    assert_eq!(decode("+1"), Err(ModelError::TypeMismatch));
    assert_eq!(decode("abc"), Err(ModelError::TypeMismatch));
    assert_eq!(decode("42 "), Err(ModelError::TypeMismatch));
}

#[test]
fn decode_rejects_malformed_strings() {
    assert_eq!(decode("\"unterminated"), Err(ModelError::TypeMismatch));
    assert_eq!(decode("\""), Err(ModelError::TypeMismatch));
    assert_eq!(decode("\"bad \\x escape\""), Err(ModelError::TypeMismatch));
    assert_eq!(decode("\"bare \" quote\""), Err(ModelError::TypeMismatch));
    assert_eq!(decode("\"raw \u{0007} control\""), Err(ModelError::TypeMismatch));
    assert_eq!(decode("\"lone surrogate \\ud800\""), Err(ModelError::TypeMismatch));
    assert_eq!(decode("\"short \\u12\""), Err(ModelError::TypeMismatch));
}

#[test]
fn decode_resolves_escapes() {
    match decode("\"a\\\"b\\\\c\\/d\\ne\\tf\\u0041g\"") {
        Ok(ActionParameterValue::String(s)) => assert_eq!(s, "a\"b\\c/d\ne\tfAg"),
        other => panic!("expected a string value, got {:?}", other),
    }
}

#[test]
fn decode_accepts_exponent_forms() {
    match decode("1e3") {
        Ok(ActionParameterValue::Float(s)) => assert_eq!(s, "1e3"),
        other => panic!("expected a floating value, got {:?}", other),
    }
    assert!(matches!(decode("-2.5E-10"), Ok(ActionParameterValue::Float(_))));
    assert!(matches!(decode("0.5"), Ok(ActionParameterValue::Float(_))));
}

#[test]
fn encode_emits_natural_scalars() {
    assert_eq!(ActionParameterValue::Null.encode(), "null");
    assert_eq!(ActionParameterValue::Boolean(true).encode(), "true");
    assert_eq!(ActionParameterValue::Boolean(false).encode(), "false");
    assert_eq!(ActionParameterValue::Integer(0).encode(), "0");
    assert_eq!(ActionParameterValue::Integer(-42).encode(), "-42");
    assert_eq!(
        ActionParameterValue::Integer(i64::MIN).encode(),
        "-9223372036854775808"
    );
    assert_eq!(
        ActionParameterValue::Float("42.73".to_string()).encode(),
        "42.73"
    );
    assert_eq!(
        ActionParameterValue::String("left".to_string()).encode(),
        "\"left\""
    );
    assert_eq!(
        ActionParameterValue::String("a\"b\\c\nd".to_string()).encode(),
        "\"a\\\"b\\\\c\\nd\""
    );
    assert_eq!(
        ActionParameterValue::String("bell\u{0007}".to_string()).encode(),
        "\"bell\\u0007\""
    );
}

#[test]
fn roundtrip_null() {
    assert!(matches!(roundtrip(&ActionParameterValue::Null), ActionParameterValue::Null));
}

#[test]
fn roundtrip_booleans() {
    assert!(matches!(
        roundtrip(&ActionParameterValue::Boolean(true)),
        ActionParameterValue::Boolean(true)
    ));
    assert!(matches!(
        roundtrip(&ActionParameterValue::Boolean(false)),
        ActionParameterValue::Boolean(false)
    ));
}

#[test]
fn roundtrip_integers() {
    for i in [0i64, 1, -1, 7, 10, 42, -42, 1000000007, i64::MAX, i64::MIN] {
        match roundtrip(&ActionParameterValue::Integer(i)) {
            ActionParameterValue::Integer(j) => assert_eq!(i, j),
            other => panic!("expected an integer, got {:?}", other),
        }
    }
}

#[test]
fn roundtrip_floats() {
    for t in ["42.73", "-0.5", "1e3", "2.5E-10", "1.0"] {
        match roundtrip(&ActionParameterValue::Float(t.to_string())) {
            ActionParameterValue::Float(u) => assert_eq!(t, u),
            other => panic!("expected a floating value, got {:?}", other),
        }
    }
}

#[test]
fn roundtrip_strings() {
    for t in [
        "",
        "left",
        "Hello World",
        "quotes \" and \\ slashes / mixed",
        "tabs\tnewlines\nreturns\r",
        "control \u{0001}\u{001F} chars",
        "beyond ascii \u{00e9}\u{4e16}\u{1F600}",
    ] {
        match roundtrip(&ActionParameterValue::String(t.to_string())) {
            ActionParameterValue::String(u) => assert_eq!(t, u),
            other => panic!("expected a string value, got {:?}", other),
        }
    }
}

#[test]
fn reencoding_a_decoded_canonical_form_is_identity() {
    for wire in [
        "null",
        "true",
        "false",
        "0",
        "-42",
        "9223372036854775807",
        "42.73",
        "1e3",
        "\"left\"",
        "\"a\\\"b\\\\c\"",
    ] {
        let v = decode(wire).expect("canonical wire form must decode");
        assert_eq!(v.encode(), wire);
    }
}

#[test]
fn decode_negative_zero_is_integer_zero() {
    assert!(matches!(decode("-0"), Ok(ActionParameterValue::Integer(0))));
}

#[test]
fn decode_zero_point_zero_is_float() {
    match decode("0.0") {
        Ok(ActionParameterValue::Float(s)) => assert_eq!(s, "0.0"),
        other => panic!("expected a floating value, got {:?}", other),
    }
}

#[test]
fn decode_large_exponent_stays_lexical() {
    match decode("1E308") {
        Ok(ActionParameterValue::Float(s)) => assert_eq!(s, "1E308"),
        other => panic!("expected a floating value, got {:?}", other),
    }
}
