use routiq::text::{format_i64, format_u128, parse_u128_radix, str_to_chars};

fn parse(s: &str, radix: u32) -> Option<u128> {
    parse_u128_radix(&str_to_chars(s), radix)
}

#[test]
fn format_u128_matches_to_string() {
    for v in [0u128, 7, 10, 99, 100, 123456789, u128::MAX] {
        assert_eq!(format_u128(v), v.to_string());
    }
}

#[test]
fn format_i64_matches_to_string() {
    for v in [0i64, -1, 42, -1720000000000, i64::MIN, i64::MAX] {
        assert_eq!(format_i64(v), v.to_string());
    }
}

#[test]
fn parse_decimal_like_from_str_radix() {
    assert_eq!(parse("0", 10), Some(0));
    assert_eq!(parse("+42", 10), Some(42));
    assert_eq!(parse("007", 10), Some(7));
    assert_eq!(parse("340282366920938463463374607431768211455", 10), Some(u128::MAX));
    assert_eq!(parse("340282366920938463463374607431768211456", 10), None);
    assert_eq!(parse("", 10), None);
    assert_eq!(parse("+", 10), None);
    assert_eq!(parse("-1", 10), None);
    assert_eq!(parse("1 2", 10), None);
    assert_eq!(parse("ff", 10), None);
    for s in ["0", "+42", "007", "", "+", "-1", "1x", "99999999999999999999999999999999999999999"] {
        assert_eq!(parse(s, 10), u128::from_str_radix(s, 10).ok(), "{s}");
    }
}

#[test]
fn parse_hex_like_from_str_radix() {
    assert_eq!(parse("ff", 16), Some(255));
    assert_eq!(parse("FF", 16), Some(255));
    assert_eq!(parse("+1a", 16), Some(26));
    assert_eq!(parse("g", 16), None);
    for s in ["3b9aca00", "ABCdef", "", "+", "x1", "ffffffffffffffffffffffffffffffff", "1ffffffffffffffffffffffffffffffff"] {
        assert_eq!(parse(s, 16), u128::from_str_radix(s, 16).ok(), "{s}");
    }
}

#[test]
fn decimal_roundtrip_on_concrete_values() {
    for v in [0u128, 5, 1_000_000, 12345678901234567890, u128::MAX] {
        assert_eq!(parse(&format_u128(v), 10), Some(v));
    }
}
