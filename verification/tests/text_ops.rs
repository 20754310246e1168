use extractor::text::{find_char, join_space, parse_i32_digits, parse_u64_digits, split_char,
    trim_str};

#[test]
fn split_basic() {
    let r = split_char("a/b/c", '/');
    assert_eq!(r, vec!["a".to_string(), "b".to_string(), "c".to_string()]);
}

#[test]
fn split_empty_string_is_one_empty_token() {
    assert_eq!(split_char("", '/'), vec!["".to_string()]);
}

#[test]
fn split_adjacent_separators_keep_empty_tokens() {
    assert_eq!(split_char("a--b", '-'), vec!["a".to_string(), "".to_string(), "b".to_string()]);
    assert_eq!(split_char("/x/", '/'), vec!["".to_string(), "x".to_string(), "".to_string()]);
}

#[test]
fn find_char_first_occurrence() {
    assert_eq!(find_char("post-9001", '-'), 4);
    assert_eq!(find_char("abc", '-'), 3);
}

#[test]
fn parse_u64_plain() {
    assert_eq!(parse_u64_digits("1234"), Some(1234));
    assert_eq!(parse_u64_digits("0"), Some(0));
}

#[test]
fn parse_u64_rejects_empty_and_nondigits() {
    assert_eq!(parse_u64_digits(""), None);
    assert_eq!(parse_u64_digits("12a4"), None);
    assert_eq!(parse_u64_digits("+5"), None);
    assert_eq!(parse_u64_digits("-5"), None);
}

#[test]
fn parse_u64_boundary() {
    assert_eq!(parse_u64_digits("18446744073709551615"), Some(u64::MAX));
    assert_eq!(parse_u64_digits("18446744073709551616"), None);
    assert_eq!(parse_u64_digits("99999999999999999999999"), None);
}

#[test]
fn parse_i32_boundary() {
    assert_eq!(parse_i32_digits("2147483647"), Some(i32::MAX));
    assert_eq!(parse_i32_digits("2147483648"), None);
    assert_eq!(parse_i32_digits("3"), Some(3));
    assert_eq!(parse_i32_digits(""), None);
}

#[test]
fn trim_ascii_and_unicode_whitespace() {
    assert_eq!(trim_str("  x  "), "x");
    assert_eq!(trim_str("\t\nhello world\r\n"), "hello world");
    assert_eq!(trim_str("\u{3000}wide\u{00A0}"), "wide");
    assert_eq!(trim_str("   "), "");
    assert_eq!(trim_str(""), "");
    assert_eq!(trim_str("inner  space kept"), "inner  space kept");
}

#[test]
fn join_space_cases() {
    assert_eq!(join_space(&vec!["Alice".to_string()]), "Alice");
    assert_eq!(join_space(&vec!["a".to_string(), "b".to_string(), "c".to_string()]), "a b c");
    assert_eq!(join_space(&Vec::new()), "");
}
