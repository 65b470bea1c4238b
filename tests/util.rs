use apca::util::{parse_i64, parse_u64, u64_from_i64_from_str, u64_from_str, u64_to_str, WireError};

fn malformed(s: &str) -> WireError {
    WireError::MalformedInteger(s.to_string())
}

#[test]
fn parse_i64_reads_signed_values() {
    assert_eq!(parse_i64("123"), Ok(123));
    assert_eq!(parse_i64("-123"), Ok(-123));
    assert_eq!(parse_i64("+7"), Ok(7));
    assert_eq!(parse_i64("0"), Ok(0));
    assert_eq!(parse_i64("-0"), Ok(0));
    assert_eq!(parse_i64("007"), Ok(7));
}

#[test]
fn parse_i64_reads_the_extremes() {
    assert_eq!(parse_i64("9223372036854775807"), Ok(i64::MAX));
    assert_eq!(parse_i64("-9223372036854775808"), Ok(i64::MIN));
}

#[test]
fn parse_i64_rejects_malformed_text() {
    for s in ["", "-", "+", "12a", "a12", " 1", "1 ", "1.5", "--1", "+-1", "\u{ff11}"] {
        assert_eq!(parse_i64(s), Err(malformed(s)), "{:?}", s);
    }
}

#[test]
fn parse_i64_rejects_overflow() {
    assert_eq!(parse_i64("9223372036854775808"), Err(malformed("9223372036854775808")));
    assert_eq!(parse_i64("-9223372036854775809"), Err(malformed("-9223372036854775809")));
    assert_eq!(
        parse_i64("123456789012345678901234567890"),
        Err(malformed("123456789012345678901234567890"))
    );
}

#[test]
fn parse_u64_reads_unsigned_values() {
    assert_eq!(parse_u64("42"), Ok(42));
    assert_eq!(parse_u64("+42"), Ok(42));
    assert_eq!(parse_u64("18446744073709551615"), Ok(u64::MAX));
}

#[test]
fn parse_u64_rejects_sign_and_overflow() {
    for s in ["-1", "-0", "", "+", "18446744073709551616", "4x"] {
        assert_eq!(parse_u64(s), Err(malformed(s)), "{:?}", s);
    }
}

#[test]
fn u64_from_str_matches_parse_u64() {
    assert_eq!(u64_from_str("1234"), Ok(1234));
    assert_eq!(u64_from_str("-1234"), Err(malformed("-1234")));
}

#[test]
fn dropping_sign_keeps_the_magnitude() {
    assert_eq!(u64_from_i64_from_str("-42"), Ok(42));
    assert_eq!(u64_from_i64_from_str("42"), Ok(42));
    assert_eq!(u64_from_i64_from_str("-9223372036854775807"), Ok(9223372036854775807));
    assert_eq!(u64_from_i64_from_str("-9223372036854775808"), Ok(9223372036854775808));
}

#[test]
fn dropping_sign_passes_integer_errors_on() {
    assert_eq!(u64_from_i64_from_str("abc"), Err(malformed("abc")));
    assert_eq!(u64_from_i64_from_str("18446744073709551615"), Err(malformed("18446744073709551615")));
}

#[test]
fn dropping_sign_gives_abs_of_signed_text() {
    for v in [0i64, 1, -1, 17, -17, 1_000_000, -1_000_000, i64::MAX, i64::MIN + 1] {
        assert_eq!(u64_from_i64_from_str(&v.to_string()), Ok(v.unsigned_abs()), "{}", v);
    }
}

#[test]
fn u64_to_str_writes_canonical_decimal() {
    assert_eq!(u64_to_str(&0), "0");
    assert_eq!(u64_to_str(&7), "7");
    assert_eq!(u64_to_str(&10), "10");
    assert_eq!(u64_to_str(&1234567890), "1234567890");
    assert_eq!(u64_to_str(&u64::MAX), "18446744073709551615");
}

#[test]
fn u64_round_trips_through_text() {
    for v in [0u64, 9, 10, 99, 100, 65535, 1 << 40, u64::MAX] {
        assert_eq!(parse_u64(&u64_to_str(&v)), Ok(v));
    }
}

#[test]
fn i64_round_trips_through_text() {
    for v in [0i64, 5, -5, 1 << 40, -(1 << 40), i64::MAX, i64::MIN] {
        assert_eq!(parse_i64(&v.to_string()), Ok(v));
    }
}
