use wasm_worker::{parse_number, parse_string, parse_two_numbers};

#[test]
fn parse_number_reads_decimal_values() {
    assert_eq!(parse_number("a=5&b=3", "a"), Some(5));
    assert_eq!(parse_number("a=5&b=3", "b"), Some(3));
    assert_eq!(parse_number("n=-12", "n"), Some(-12));
    assert_eq!(parse_number("n=+7", "n"), Some(7));
}

#[test]
fn parse_number_absent_or_malformed_is_none() {
    assert_eq!(parse_number("", "n"), None);
    assert_eq!(parse_number("a=5", "n"), None);
    assert_eq!(parse_number("n=abc", "n"), None);
    assert_eq!(parse_number("n=", "n"), None);
    assert_eq!(parse_number("n=1.5", "n"), None);
    assert_eq!(parse_number("n", "n"), None);
}

#[test]
fn parse_number_rejects_out_of_range_values() {
    assert_eq!(parse_number("n=2147483647", "n"), Some(i32::MAX));
    assert_eq!(parse_number("n=-2147483648", "n"), Some(i32::MIN));
    assert_eq!(parse_number("n=2147483648", "n"), None);
    assert_eq!(parse_number("n=-2147483649", "n"), None);
    assert_eq!(parse_number("n=99999999999999999999", "n"), None);
}

#[test]
fn first_binding_wins_on_duplicates() {
    assert_eq!(parse_number("x=1&x=2", "x"), Some(1));
}

#[test]
fn key_match_is_exact_prefix() {
    assert_eq!(parse_number("ab=1&a=2", "a"), Some(2));
    assert_eq!(parse_number("b=9", "a"), None);
}

#[test]
fn bindings_without_equals_are_ignored() {
    assert_eq!(parse_number("noequals&n=4", "n"), Some(4));
}

#[test]
fn parse_two_numbers_defaults_to_zero() {
    assert_eq!(parse_two_numbers("a=5&b=3", "a", "b"), (5, 3));
    assert_eq!(parse_two_numbers("a=5", "a", "b"), (5, 0));
    assert_eq!(parse_two_numbers("", "a", "b"), (0, 0));
    assert_eq!(parse_two_numbers("a=bad&b=2", "a", "b"), (0, 2));
}

#[test]
fn parse_string_url_decodes() {
    assert_eq!(parse_string("input=hello", "input"), Some("hello".to_string()));
    assert_eq!(parse_string("input=a%20b", "input"), Some("a b".to_string()));
    assert_eq!(parse_string("input=hello+world", "input"), Some("hello world".to_string()));
    assert_eq!(parse_string("input=a%2Bb", "input"), Some("a+b".to_string()));
    assert_eq!(parse_string("other=x", "input"), None);
}

#[test]
fn parse_string_keeps_malformed_percent_sequences() {
    assert_eq!(parse_string("input=%zz", "input"), Some("%zz".to_string()));
    assert_eq!(parse_string("input=100%", "input"), Some("100%".to_string()));
}

#[test]
fn parse_string_invalid_utf8_decodes_to_empty() {
    assert_eq!(parse_string("input=%FF", "input"), Some(String::new()));
}

#[test]
fn value_is_everything_after_first_equals() {
    assert_eq!(parse_string("input=a=b", "input"), Some("a=b".to_string()));
}
