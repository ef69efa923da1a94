use fetcher::text::{
    chars_of, contains, decimal_text, ends_with, eq_ignore_case, parse_number, starts_with,
    tail_after,
};

#[test]
fn numbers_are_read() {
    assert_eq!(parse_number("42"), Some(42));
    assert_eq!(parse_number("+7"), Some(7));
    assert_eq!(parse_number("0000"), Some(0));
    assert_eq!(parse_number("18446744073709551615"), Some(u64::MAX));
}

#[test]
fn other_texts_are_no_numbers() {
    assert_eq!(parse_number("18446744073709551616"), None);
    assert_eq!(parse_number("99999999999999999999999"), None);
    assert_eq!(parse_number(""), None);
    assert_eq!(parse_number("+"), None);
    assert_eq!(parse_number("++1"), None);
    assert_eq!(parse_number("-1"), None);
    assert_eq!(parse_number(" 1"), None);
    assert_eq!(parse_number("1_000"), None);
    assert_eq!(parse_number("*"), None);
    for text in ["42", "+7", "", "+", "-1", "1 ", "٣", "18446744073709551616", "0x10"] {
        assert_eq!(parse_number(text), text.parse::<u64>().ok());
    }
}

#[test]
fn decimal_texts_read_back() {
    assert_eq!(decimal_text(0), "0");
    assert_eq!(decimal_text(1205), "1205");
    assert_eq!(decimal_text(u64::MAX), "18446744073709551615");
    for n in [0u64, 9, 10, 99, 100, 10485759, u64::MAX] {
        assert_eq!(parse_number(&decimal_text(n)), Some(n));
        assert_eq!(decimal_text(n), format!("{}", n));
    }
}

#[test]
fn parts_are_found() {
    assert!(starts_with("bytes 0-0/5", "bytes "));
    assert!(!starts_with("byte", "bytes "));
    assert!(starts_with("x", ""));
    assert!(ends_with("a/b.html", ".html"));
    assert!(!ends_with("html", ".html"));
    assert!(contains("text/html; charset=utf-8", "html"));
    assert!(contains("ab", ""));
    assert!(!contains("text/plain", "html"));
    assert!(contains("äöü", "öü"));
    assert_eq!(chars_of("aä━"), vec!['a', 'ä', '━']);
}

#[test]
fn tail_is_behind_the_last_mark() {
    assert_eq!(tail_after("bytes 0-0/1234", '/'), "1234");
    assert_eq!(tail_after("a/b/", '/'), "");
    assert_eq!(tail_after("none", '/'), "none");
    assert_eq!(tail_after("", '/'), "");
    assert_eq!(tail_after("ä/ö/ü", '/'), "ü");
}

#[test]
fn case_of_letters_does_not_count() {
    assert!(eq_ignore_case(b"Bytes", b"bytes"));
    assert!(eq_ignore_case(b"", b""));
    assert!(!eq_ignore_case(b"byte", b"bytes"));
    assert!(!eq_ignore_case(b"none!", b"bytes"));
    assert!(!eq_ignore_case(b"[", b"{"));
}
