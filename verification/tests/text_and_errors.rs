use graphon::error::GraphonError;
use graphon::text::{contains, eq_ignore_ascii_case, split_and_trim, starts_with, str_eq, trim, trim_end_char};

#[test]
fn ascii_case_equality() {
    assert!(eq_ignore_ascii_case("Hello", "hELLO"));
    assert!(!eq_ignore_ascii_case("Hello", "Hell"));
    assert!(!eq_ignore_ascii_case("É", "é"));
}

#[test]
fn substring_search() {
    assert!(contains("limited time offer", "time"));
    assert!(contains("abc", ""));
    assert!(!contains("ab", "abc"));
    assert!(starts_with("promo-news", "promo"));
    assert!(!starts_with("pro", "promo"));
    assert!(str_eq("x", "x"));
}

#[test]
fn split_at_commas_and_trim() {
    let parts = split_and_trim(" a@x.com, b@y.org ,c", ',');
    assert_eq!(parts, vec!["a@x.com", "b@y.org", "c"]);
    assert_eq!(split_and_trim("", ','), vec![""]);
    assert_eq!(split_and_trim("a,,b", ','), vec!["a", "", "b"]);
}

#[test]
fn unicode_white_space_is_trimmed() {
    let parts = split_and_trim("\u{3000}a\u{00A0},\t\u{2009}b\u{85}\n, c\u{200B}", ',');
    assert_eq!(parts, vec!["a", "b", "c\u{200B}"]);
    assert_eq!(trim(" \t\r\n x y \u{2028}"), "x y");
    assert_eq!(trim("   "), "");
    assert_eq!(trim(""), "");
}

#[test]
fn trailing_slashes_are_removed() {
    assert_eq!(trim_end_char("http://h:3000//", '/'), "http://h:3000");
    assert_eq!(trim_end_char("///", '/'), "");
}

#[test]
fn error_messages_name_their_kind() {
    assert_eq!(GraphonError::NotFound("x".to_string()).message(), "Not found: x");
    assert_eq!(GraphonError::Gmail("y".to_string()).message(), "Gmail API error: y");
    assert_eq!(GraphonError::Database("z".to_string()).message(), "Database error: z");
}
