//! Text functions.

use hope_core::text::{
    chars_of, contains, decimal, find, join, parse_decimal, rfind, same_text, starts_with,
    string_of, trim, white,
};

#[test]
fn white_space_is_that_of_unicode() {
    for code in 0..=0x10FFFF {
        if let Some(c) = char::from_u32(code) {
            assert_eq!(white(c), c.is_whitespace(), "{:?}", c);
        }
    }
}

#[test]
fn searching_finds_first_and_last() {
    let v = chars_of("abcabc");
    assert_eq!(find(&v, "bc", 0, 6), Some(1));
    assert_eq!(find(&v, "bc", 2, 6), Some(4));
    assert_eq!(find(&v, "bc", 2, 5), None);
    assert_eq!(rfind(&v, "bc", 6), Some(4));
    assert_eq!(rfind(&v, "bc", 5), Some(1));
    assert_eq!(rfind(&v, "bc", 2), None);
    assert!(contains(&v, "cab") && !contains(&v, "cb"));
    assert!(starts_with(&v, "ab") && starts_with(&v, "") && !starts_with(&v, "b"));
}

#[test]
fn texts_are_cut_trimmed_and_joined() {
    let v = chars_of("é日x");
    assert_eq!(string_of(&v, 1, 3), "日x");
    assert_eq!(trim(" \u{3000}a b\n"), "a b");
    assert_eq!(trim(" \t"), "");
    assert_eq!(join(&vec!["a".to_string(), String::new(), "b".to_string()], ", "), "a, , b");
    assert_eq!(join(&Vec::new(), ", "), "");
    assert!(same_text("é", "é") && !same_text("e", "é") && !same_text("a", "ab"));
}

#[test]
fn numbers_are_written_and_read() {
    for n in [0, 7, 10, 999, 18446744073709551615] {
        assert_eq!(decimal(n), format!("{}", n));
        assert_eq!(parse_decimal(&decimal(n), u64::MAX), Some(n));
    }
    assert_eq!(parse_decimal("00300", 300), Some(300));
    assert_eq!(parse_decimal("301", 300), None);
    assert_eq!(parse_decimal("+5", 300), Some(5));
    assert_eq!(parse_decimal("+", 300), None);
    assert_eq!(parse_decimal("", 300), None);
    assert_eq!(parse_decimal("٣", 300), None);
}
