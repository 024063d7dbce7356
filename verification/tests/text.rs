use fapt::checksum::{parse_md5, parse_sha256};
use fapt::error::Error;
use fapt::number::{decimal_string, parse_u64};
use fapt::text::{join, split_char, split_whitespace, str_eq, substring, trim_str};

#[test]
fn words_and_trimming() {
    assert_eq!(split_whitespace("  foo \t bar\nbaz  "), vec!["foo", "bar", "baz"]);
    assert!(split_whitespace(" \t ").is_empty());
    assert_eq!(trim_str("  a b  "), "a b");
    assert_eq!(trim_str("   "), "");
    assert_eq!(split_char("a,,b,", ','), vec!["a", "", "b", ""]);
    assert_eq!(split_char("", ','), vec![""]);
    assert_eq!(join(&vec!["a".to_string(), "b".to_string()], "_"), "a_b");
    assert_eq!(join(&vec![], "_"), "");
    assert!(str_eq("abc", "abc"));
    assert!(!str_eq("abc", "abd"));
    assert_eq!(substring("héllo", 1, 3), "él");
}

#[test]
fn numbers() {
    assert_eq!(parse_u64("0"), Some(0));
    assert_eq!(parse_u64("+42"), Some(42));
    assert_eq!(parse_u64("18446744073709551615"), Some(u64::MAX));
    assert_eq!(parse_u64("18446744073709551616"), None);
    assert_eq!(parse_u64("184467440737095516150"), None);
    assert_eq!(parse_u64(""), None);
    assert_eq!(parse_u64("+"), None);
    assert_eq!(parse_u64("-1"), None);
    assert_eq!(parse_u64("1 "), None);
    assert_eq!(parse_u64("12a"), None);
    assert_eq!(decimal_string(0), "0");
    assert_eq!(decimal_string(1234567890), "1234567890");
    assert_eq!(decimal_string(u64::MAX), "18446744073709551615");
    for n in [0u64, 7, 10, 99, 100, 65535, 262144001] {
        assert_eq!(parse_u64(&decimal_string(n)), Some(n));
    }
}

#[test]
fn checksums() {
    let md5 = parse_md5("0123456789abcdefABCDEF0123456789").unwrap();
    assert_eq!(md5[0], 0x01);
    assert_eq!(md5[7], 0xef);
    assert_eq!(md5[8], 0xab);
    assert_eq!(md5[15], 0x89);
    assert_eq!(parse_md5("0123"), Err(Error::BadChecksum("0123".to_string())));
    assert_eq!(
        parse_md5("0123456789abcdefABCDEF012345678g"),
        Err(Error::BadChecksum("0123456789abcdefABCDEF012345678g".to_string()))
    );
    let sha = parse_sha256(&"ff".repeat(32)).unwrap();
    assert_eq!(sha, [0xffu8; 32]);
    assert!(parse_sha256(&"ff".repeat(16)).is_err());
}
