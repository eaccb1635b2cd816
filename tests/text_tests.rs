use tokio_lsp::text::{find_str, int_to_string, parse_usize, str_eq_ignore_case};

#[test]
fn integers_are_written_in_decimal() {
    assert_eq!(int_to_string(0), "0");
    assert_eq!(int_to_string(42), "42");
    assert_eq!(int_to_string(-7), "-7");
    assert_eq!(int_to_string(i64::MAX), "9223372036854775807");
    assert_eq!(int_to_string(i64::MIN), "-9223372036854775808");
}

#[test]
fn unsigned_numbers_are_parsed_as_std_does() {
    assert_eq!(parse_usize("123"), Some(123));
    assert_eq!(parse_usize("+7"), Some(7));
    assert_eq!(parse_usize("007"), Some(7));
    assert_eq!(parse_usize(""), None);
    assert_eq!(parse_usize("+"), None);
    assert_eq!(parse_usize("-1"), None);
    assert_eq!(parse_usize("1 2"), None);
    assert_eq!(parse_usize("18446744073709551615"), Some(usize::MAX));
    assert_eq!(parse_usize("18446744073709551616"), None);
}

#[test]
fn names_compare_ignoring_ascii_case() {
    assert!(str_eq_ignore_case("Content-Length", "content-length"));
    assert!(!str_eq_ignore_case("Content-Type", "content-length"));
}

#[test]
fn substrings_are_found_by_character_index() {
    assert_eq!(find_str("a; charset=utf-8", "charset="), Some(3));
    assert_eq!(find_str("é charset=", "charset="), Some(2));
    assert_eq!(find_str("abc", "x"), None);
}
