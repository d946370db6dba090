use cepheus_trader::admin_wire::valid_backup_label;
use cepheus_trader::atlas::{json_option_number, json_option_string, json_string};
use cepheus_trader::bbs_polity::gcd;

#[test]
fn json_strings_are_quoted_and_escaped() {
    assert_eq!(json_string("plain"), "\"plain\"");
    assert_eq!(
        json_string("a\"b\\c\nd\te\u{1}f\u{1f}"),
        "\"a\\\"b\\\\c\\nd\\te\\u0001f\\u001f\""
    );
    assert_eq!(json_string("\u{8}\u{c}\r"), "\"\\b\\f\\r\"");
    assert_eq!(json_string("Sol ☉"), "\"Sol ☉\"");
}

#[test]
fn optional_json_values_are_null_when_absent() {
    assert_eq!(json_option_number(Some(12)), "12");
    assert_eq!(json_option_number(None), "null");
    assert_eq!(json_option_string(Some("x\"")), "\"x\\\"\"");
    assert_eq!(json_option_string(None), "null");
}

#[test]
fn direction_steps_reduce_by_their_common_divisor() {
    assert_eq!(gcd(6, -4), 2);
    assert_eq!(gcd(-3, 0), 3);
    assert_eq!(gcd(0, 0), 0);
    assert_eq!(gcd(7, 5), 1);
}

#[test]
fn backup_labels_are_short_ascii_words() {
    assert!(valid_backup_label("nightly-2024_01"));
    assert!(!valid_backup_label(""));
    assert!(!valid_backup_label("has space"));
    assert!(!valid_backup_label("ünicode"));
    assert!(valid_backup_label(&"a".repeat(64)));
    assert!(!valid_backup_label(&"a".repeat(65)));
}
