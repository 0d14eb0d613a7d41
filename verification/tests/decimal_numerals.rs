use ref_aggregator::decimal::{parse_u128, push_decimal, u64_to_decimal};

#[test]
fn parses_plain_numerals() {
    assert_eq!(parse_u128("0"), Some(0));
    assert_eq!(parse_u128("7"), Some(7));
    assert_eq!(parse_u128("100"), Some(100));
    assert_eq!(parse_u128("1000000000000000000000000"), Some(1_000_000_000_000_000_000_000_000));
}

#[test]
fn parses_leading_zeros_and_plus_sign() {
    assert_eq!(parse_u128("007"), Some(7));
    assert_eq!(parse_u128("+5"), Some(5));
    assert_eq!(parse_u128("+0012"), Some(12));
}

#[test]
fn refuses_what_is_no_numeral() {
    assert_eq!(parse_u128(""), None);
    assert_eq!(parse_u128("+"), None);
    assert_eq!(parse_u128("-"), None);
    assert_eq!(parse_u128("-1"), None);
    assert_eq!(parse_u128("++1"), None);
    assert_eq!(parse_u128("1+"), None);
    assert_eq!(parse_u128("12a"), None);
    assert_eq!(parse_u128(" 12"), None);
    assert_eq!(parse_u128("12 "), None);
    assert_eq!(parse_u128("1.5"), None);
    assert_eq!(parse_u128("1e3"), None);
    assert_eq!(parse_u128("0x10"), None);
    assert_eq!(parse_u128("\u{ff11}\u{ff12}"), None);
    assert_eq!(parse_u128("1\u{e9}"), None);
}

#[test]
fn parses_up_to_the_maximum_and_no_further() {
    assert_eq!(parse_u128("340282366920938463463374607431768211455"), Some(u128::MAX));
    assert_eq!(parse_u128("340282366920938463463374607431768211456"), None);
    assert_eq!(parse_u128("340282366920938463463374607431768211460"), None);
    assert_eq!(parse_u128("3402823669209384634633746074317682114550"), None);
    assert_eq!(parse_u128("999999999999999999999999999999999999999"), None);
    assert_eq!(parse_u128("0340282366920938463463374607431768211455"), Some(u128::MAX));
}

#[test]
fn parser_agrees_with_the_standard_library() {
    let samples = [
        "", "0", "1", "+1", "-1", "+", "00", "18446744073709551615", "18446744073709551616",
        "340282366920938463463374607431768211455", "340282366920938463463374607431768211456",
        "12_3", "abc", "9", "80", "+-3", "٣",
    ];
    for text in samples {
        assert_eq!(parse_u128(text), text.parse::<u128>().ok(), "numeral {:?}", text);
    }
}

#[test]
fn writes_numerals() {
    assert_eq!(u64_to_decimal(0), "0");
    assert_eq!(u64_to_decimal(7), "7");
    assert_eq!(u64_to_decimal(10), "10");
    assert_eq!(u64_to_decimal(42), "42");
    assert_eq!(u64_to_decimal(1009), "1009");
    assert_eq!(u64_to_decimal(u64::MAX), "18446744073709551615");
}

#[test]
fn appends_numerals() {
    let mut text = String::from("pool-");
    push_decimal(&mut text, 305);
    assert_eq!(text, "pool-305");
    push_decimal(&mut text, 0);
    assert_eq!(text, "pool-3050");
}

#[test]
fn written_numerals_read_back() {
    for n in [0u64, 1, 9, 10, 11, 99, 100, 101, 65535, 4294967296, u64::MAX] {
        assert_eq!(parse_u128(&u64_to_decimal(n)), Some(n as u128));
        assert_eq!(u64_to_decimal(n), n.to_string());
    }
}
