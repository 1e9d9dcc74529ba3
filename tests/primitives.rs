use id3handler::number::{find_verified_number, parse_i32, parse_u32, verify_number};
use id3handler::scan::{find_first_char, find_last_char, find_number, get_char_count};
use id3handler::text::{get_string_between, remove_whitespace, same_text};

fn chars(s: &str) -> Vec<char> {
    s.chars().collect()
}

#[test]
fn first_and_last_char() {
    let s = chars("a-b-c");
    assert_eq!(find_first_char(&s, '-'), Some(1));
    assert_eq!(find_last_char(&s, '-'), Some(3));
    assert_eq!(find_first_char(&s, '/'), None);
    assert_eq!(find_last_char(&s, '/'), None);
    assert_eq!(find_first_char(&chars("/x"), '/'), Some(0));
}

#[test]
fn char_count() {
    assert_eq!(get_char_count(&chars("a-b-c-"), '-'), 3);
    assert_eq!(get_char_count(&chars(""), '-'), 0);
}

#[test]
fn numeric_run_exact_length() {
    assert_eq!(find_number(&chars("ab123cd"), 0, 2), None);
    assert_eq!(find_number(&chars("ab123cd"), 0, 3), Some(2));
    assert_eq!(find_number(&chars("1 123 45x"), 0, 2), Some(6));
    assert_eq!(find_number(&chars("12 34 "), 1, 2), Some(3));
    assert_eq!(find_number(&chars("a12"), 0, 2), None);
    assert_eq!(find_number(&chars(""), 0, 2), None);
    assert_eq!(find_number(&chars("ab"), 5, 2), None);
}

#[test]
fn verified_number_skips_out_of_range_runs() {
    assert_eq!(find_verified_number("Cat 1234 - 1999 - X", 1800, 2026, 4), Some(11));
    assert_eq!(find_verified_number("Cat 1234 - 0999 - X", 1800, 2026, 4), None);
    assert_eq!(find_verified_number("Best of 1999", 1800, 2026, 4), None);
}

#[test]
fn trim_separators() {
    assert_eq!(remove_whitespace("  -_Hello World_- /"), "Hello World");
    assert_eq!(remove_whitespace("\t\nx\n"), "x");
    assert_eq!(remove_whitespace("---"), "");
    assert_eq!(remove_whitespace(""), "");
    assert_eq!(remove_whitespace("a - b"), "a - b");
}

#[test]
fn trim_twice_is_trim_once() {
    for s in ["  a b ", "--x--", "///", "", "a", " -_\t\n/ y /"] {
        let once = remove_whitespace(s);
        assert_eq!(remove_whitespace(&once), once);
    }
}

#[test]
fn verify_number_bounds() {
    assert_eq!(verify_number("abc", 1, 99), 0);
    assert_eq!(verify_number("150", 1, 99), 0);
    assert_eq!(verify_number("0", 1, 99), 0);
    assert_eq!(verify_number("42", 1, 99), 42);
    assert_eq!(verify_number(" 07 ", 1, 99), 7);
    assert_eq!(verify_number("+5", 1, 99), 5);
    assert_eq!(verify_number("-5", 1, 99), 5);
    assert_eq!(verify_number("1 2", 1, 99), 0);
    assert_eq!(verify_number("", 1, 99), 0);
    assert_eq!(verify_number("1999", 1900, 2026), 1999);
    assert_eq!(verify_number("99999999999", 0, 2147483647), 0);
}

#[test]
fn parse_i32_limits() {
    assert_eq!(parse_i32(&chars("2147483647")), Some(2147483647));
    assert_eq!(parse_i32(&chars("2147483648")), None);
    assert_eq!(parse_i32(&chars("-2147483648")), Some(-2147483648));
    assert_eq!(parse_i32(&chars("-2147483649")), None);
    assert_eq!(parse_i32(&chars("+12")), Some(12));
    assert_eq!(parse_i32(&chars("+")), None);
    assert_eq!(parse_i32(&chars("-")), None);
    assert_eq!(parse_i32(&chars("")), None);
    assert_eq!(parse_i32(&chars("1a")), None);
}

#[test]
fn parse_u32_limits() {
    assert_eq!(parse_u32(&chars("4294967295")), Some(4294967295));
    assert_eq!(parse_u32(&chars("4294967296")), None);
    assert_eq!(parse_u32(&chars("-5")), None);
    assert_eq!(parse_u32(&chars("-0")), None);
    assert_eq!(parse_u32(&chars("+7")), Some(7));
    assert_eq!(parse_u32(&chars("007")), Some(7));
}

#[test]
fn substring_and_equality() {
    assert_eq!(get_string_between("abcdef", 1, 4), "bcd");
    assert_eq!(get_string_between("äöü", 1, 3), "öü");
    assert!(same_text("abc", "abc"));
    assert!(!same_text("abc", "abd"));
    assert!(!same_text("abc", "ab"));
}
