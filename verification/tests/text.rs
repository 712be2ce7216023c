use hath_cache::text::{append, find, parse_i64, same_bytes, starts_with};

#[test]
fn find_stops_at_the_first_delimiter() {
    assert_eq!(find(b"12-34-56", b'-', 0), 2);
    assert_eq!(find(b"12-34-56", b'-', 2), 2);
    assert_eq!(find(b"12-34-56", b'-', 3), 5);
}

#[test]
fn find_without_delimiter_gives_the_length() {
    assert_eq!(find(b"1234", b'-', 0), 4);
    assert_eq!(find(b"1234", b'-', 4), 4);
    assert_eq!(find(b"", b'-', 0), 0);
    assert_eq!(find(b"12-4", b'-', 9), 4);
}

#[test]
fn starts_with_is_a_prefix_match() {
    assert!(starts_with(b"4df41e08", b"4df4"));
    assert!(starts_with(b"4df41e08", b"4df41e08"));
    assert!(starts_with(b"4df41e08", b""));
    assert!(!starts_with(b"4df41e08", b"4df5"));
    assert!(!starts_with(b"4df4", b"4df41e08"));
    assert!(!starts_with(b"4df41e08", b"4DF4"));
}

#[test]
fn same_bytes_needs_the_same_length() {
    assert!(same_bytes(b"keystamp", b"keystamp"));
    assert!(!same_bytes(b"keystamp", b"keystam"));
    assert!(!same_bytes(b"keystam", b"keystamp"));
    assert!(same_bytes(b"", b""));
}

#[test]
fn append_keeps_what_was_there() {
    let mut v = b"ab".to_vec();
    append(&mut v, b"cd");
    append(&mut v, b"");
    assert_eq!(v, b"abcd".to_vec());
}

#[test]
fn parse_plain_digits() {
    assert_eq!(parse_i64(b"0"), Some(0));
    assert_eq!(parse_i64(b"1700000000"), Some(1_700_000_000));
    assert_eq!(parse_i64(b"000123"), Some(123));
}

#[test]
fn parse_signs() {
    assert_eq!(parse_i64(b"+900"), Some(900));
    assert_eq!(parse_i64(b"-900"), Some(-900));
    assert_eq!(parse_i64(b"-0"), Some(0));
}

#[test]
fn parse_refuses_what_is_no_number() {
    assert_eq!(parse_i64(b""), None);
    assert_eq!(parse_i64(b"+"), None);
    assert_eq!(parse_i64(b"-"), None);
    assert_eq!(parse_i64(b"12a"), None);
    assert_eq!(parse_i64(b" 12"), None);
    assert_eq!(parse_i64(b"1 2"), None);
    assert_eq!(parse_i64(b"--1"), None);
    assert_eq!(parse_i64(b"1.5"), None);
}

#[test]
fn parse_at_the_limits_of_i64() {
    assert_eq!(parse_i64(b"9223372036854775807"), Some(i64::MAX));
    assert_eq!(parse_i64(b"-9223372036854775808"), Some(i64::MIN));
    assert_eq!(parse_i64(b"9223372036854775808"), None);
    assert_eq!(parse_i64(b"-9223372036854775809"), None);
    assert_eq!(parse_i64(b"99999999999999999999999999999999999999999999"), None);
    assert_eq!(parse_i64(b"00000000000000000000000000000000000000000007"), Some(7));
}

#[test]
fn parse_agrees_with_std() {
    let cases: [&str; 10] =
        ["", "0", "-1", "+1", "12-", "0x10", "123456789012345678", "١٢٣", "+-1", "18446744073709551616"];
    for case in cases {
        assert_eq!(parse_i64(case.as_bytes()), case.parse::<i64>().ok(), "on {:?}", case);
    }
}
