use mev_indexer::indexer::utils::parse_i64;

#[test]
fn plain_numbers_parse_exactly() {
    assert_eq!(parse_i64(b"0"), Some(0));
    assert_eq!(parse_i64(b"42"), Some(42));
    assert_eq!(parse_i64(b"007"), Some(7));
    assert_eq!(parse_i64(b"1000000000000"), Some(1_000_000_000_000));
}

#[test]
fn signs_are_accepted() {
    assert_eq!(parse_i64(b"-42"), Some(-42));
    assert_eq!(parse_i64(b"+42"), Some(42));
    assert_eq!(parse_i64(b"-0"), Some(0));
}

#[test]
fn malformed_text_is_rejected() {
    assert_eq!(parse_i64(b""), None);
    assert_eq!(parse_i64(b"-"), None);
    assert_eq!(parse_i64(b"+"), None);
    assert_eq!(parse_i64(b"abc"), None);
    assert_eq!(parse_i64(b"12a3"), None);
    assert_eq!(parse_i64(b" 12"), None);
    assert_eq!(parse_i64(b"12 "), None);
    assert_eq!(parse_i64(b"--1"), None);
    assert_eq!(parse_i64(b"1.5"), None);
}

#[test]
fn boundaries_of_the_signed_range() {
    assert_eq!(parse_i64(b"9223372036854775807"), Some(i64::MAX));
    assert_eq!(parse_i64(b"9223372036854775808"), None);
    assert_eq!(parse_i64(b"-9223372036854775808"), Some(i64::MIN));
    assert_eq!(parse_i64(b"-9223372036854775809"), None);
    assert_eq!(parse_i64(b"99999999999999999999999999"), None);
}

#[test]
fn parser_agrees_with_the_standard_library() {
    for s in ["0", "-1", "+17", "9223372036854775807", "-9223372036854775808",
        "9223372036854775808", "18446744073709551615", "x", "", "3_0"] {
        assert_eq!(parse_i64(s.as_bytes()), s.parse::<i64>().ok(), "input {:?}", s);
    }
}
