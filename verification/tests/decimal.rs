use maika::decimal::{i64_text, parse_isize, parse_u64, u64_text};

#[test]
fn prints_unsigned_numbers() {
    assert_eq!(u64_text(0), "0");
    assert_eq!(u64_text(7), "7");
    assert_eq!(u64_text(10), "10");
    assert_eq!(u64_text(1234567890), "1234567890");
    assert_eq!(u64_text(u64::MAX), "18446744073709551615");
}

#[test]
fn prints_signed_numbers() {
    assert_eq!(i64_text(0), "0");
    assert_eq!(i64_text(-42), "-42");
    assert_eq!(i64_text(42), "42");
    assert_eq!(i64_text(i64::MIN), "-9223372036854775808");
    assert_eq!(i64_text(i64::MAX), "9223372036854775807");
}

#[test]
fn prints_as_to_string_does() {
    for n in [0i64, 1, -1, 9, -9, 99, 100, -100, 65535, -65536, 123456789012345] {
        assert_eq!(i64_text(n), n.to_string());
    }
}

#[test]
fn parses_signed_numbers() {
    assert_eq!(parse_isize("42"), Some(42));
    assert_eq!(parse_isize("+7"), Some(7));
    assert_eq!(parse_isize("-0"), Some(0));
    assert_eq!(parse_isize("007"), Some(7));
    assert_eq!(parse_isize("-15"), Some(-15));
    assert_eq!(parse_isize(""), None);
    assert_eq!(parse_isize("-"), None);
    assert_eq!(parse_isize("+"), None);
    assert_eq!(parse_isize("4a"), None);
    assert_eq!(parse_isize(" 4"), None);
    assert_eq!(parse_isize("--4"), None);
    assert_eq!(parse_isize("+-4"), None);
}

#[test]
fn parses_signed_bounds() {
    let max = isize::MAX.to_string();
    let min = isize::MIN.to_string();
    assert_eq!(parse_isize(&max), Some(isize::MAX));
    assert_eq!(parse_isize(&min), Some(isize::MIN));
    assert_eq!(parse_isize("99999999999999999999999"), None);
    assert_eq!(parse_isize("-99999999999999999999999"), None);
}

#[test]
fn parses_as_std_does() {
    let samples = [
        "0", "1", "-1", "+1", "", "-", "+", "12x", "x12", "9223372036854775807", "9223372036854775808",
        "-9223372036854775808", "-9223372036854775809", "00000", "-0000012", "1 2", "٣",
        "184467440737095516150",
    ];
    for s in samples {
        assert_eq!(parse_isize(s), s.parse::<isize>().ok(), "isize {:?}", s);
        assert_eq!(parse_u64(s), s.parse::<u64>().ok(), "u64 {:?}", s);
    }
}

#[test]
fn parses_unsigned_numbers() {
    assert_eq!(parse_u64("18446744073709551615"), Some(u64::MAX));
    assert_eq!(parse_u64("18446744073709551616"), None);
    assert_eq!(parse_u64("-1"), None);
    assert_eq!(parse_u64("+5"), Some(5));
    assert_eq!(parse_u64("381870553235193857"), Some(381870553235193857));
}

#[test]
fn printed_numbers_read_back() {
    for n in [0isize, 1, -1, 5, -5, 1000, -1000, isize::MAX, isize::MIN] {
        assert_eq!(parse_isize(&i64_text(n as i64)), Some(n));
    }
    for n in [0u64, 1, 99, u64::MAX] {
        assert_eq!(parse_u64(&u64_text(n)), Some(n));
    }
}
