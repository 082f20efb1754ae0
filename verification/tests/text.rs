use vizardra::text::{decimal_string, hex_digit_str, same_text, without_leading_hashes};

#[test]
fn decimal_strings() {
    assert_eq!(decimal_string(0), "0");
    assert_eq!(decimal_string(9), "9");
    assert_eq!(decimal_string(10), "10");
    assert_eq!(decimal_string(u64::MAX), "18446744073709551615");
}

#[test]
fn hex_digits() {
    assert_eq!(hex_digit_str(0), "0");
    assert_eq!(hex_digit_str(10), "A");
    assert_eq!(hex_digit_str(15), "F");
}

#[test]
fn same_text_compares() {
    assert!(same_text("ab", "ab"));
    assert!(!same_text("ab", "abc"));
}

#[test]
fn leading_hashes() {
    assert_eq!(without_leading_hashes("##a#b"), "a#b");
    assert_eq!(without_leading_hashes("###"), "");
    assert_eq!(without_leading_hashes("x"), "x");
}
