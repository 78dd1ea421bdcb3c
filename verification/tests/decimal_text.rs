use vvtec::decimal::{parse_u128_decimal, u128_decimal_bytes, u128_to_decimal};

#[test]
fn formatting_is_canonical() {
    assert_eq!(u128_decimal_bytes(0), b"0".to_vec());
    assert_eq!(u128_decimal_bytes(7), b"7".to_vec());
    assert_eq!(u128_decimal_bytes(12345), b"12345".to_vec());
    assert_eq!(u128_decimal_bytes(1_000_000), b"1000000".to_vec());
    assert_eq!(
        u128_decimal_bytes(u128::MAX),
        b"340282366920938463463374607431768211455".to_vec()
    );
}

#[test]
fn display_formatting_matches() {
    assert_eq!(u128_to_decimal(0), "0");
    assert_eq!(u128_to_decimal(9876543210), "9876543210");
    assert_eq!(u128_to_decimal(u128::MAX), "340282366920938463463374607431768211455");
}

#[test]
fn parsing_accepts_the_integer_grammar() {
    assert_eq!(parse_u128_decimal(b"0"), Some(0));
    assert_eq!(parse_u128_decimal(b"42"), Some(42));
    assert_eq!(parse_u128_decimal(b"00123"), Some(123));
    assert_eq!(parse_u128_decimal(b"+42"), Some(42));
    assert_eq!(
        parse_u128_decimal(b"340282366920938463463374607431768211455"),
        Some(u128::MAX)
    );
}

#[test]
fn parsing_rejects_everything_else() {
    assert_eq!(parse_u128_decimal(b""), None);
    assert_eq!(parse_u128_decimal(b"+"), None);
    assert_eq!(parse_u128_decimal(b"-1"), None);
    assert_eq!(parse_u128_decimal(b"12x3"), None);
    assert_eq!(parse_u128_decimal(b" 1"), None);
    // one past the 128-bit range
    assert_eq!(parse_u128_decimal(b"340282366920938463463374607431768211456"), None);
    // far past it
    assert_eq!(parse_u128_decimal(b"9999999999999999999999999999999999999999999"), None);
}

#[test]
fn formatting_round_trips_through_parsing() {
    for v in [0u128, 1, 9, 10, 255, 1_000_000_007, u128::MAX / 2, u128::MAX] {
        assert_eq!(parse_u128_decimal(&u128_decimal_bytes(v)), Some(v));
    }
}
