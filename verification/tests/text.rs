//! Texts.

use ember::command::{check_command, check_fsck, CommandOutput};
use ember::error::Error;
use ember::number::{format_size, percent, two_decimals, Fraction};
use ember::path::join;
use ember::text::{
    decimal, decimal_padded, lines, parse_u32, parse_u64, split_once, split_words, to_lower, trim,
};

#[test]
fn texts_are_taken_apart() {
    assert_eq!(lines("a\r\nb\n\nc"), vec!["a", "b", "", "c"]);
    assert_eq!(split_words("  a\tb \n c "), vec!["a", "b", "c"]);
    assert_eq!(split_once("a:b:c", ':'), Some(("a", "b:c")));
    assert_eq!(split_once("abc", ':'), None);
    assert_eq!(trim("\t a b \n"), "a b");
    assert_eq!(to_lower("AbC"), "abc");
    assert_eq!(join("/a", "b"), "/a/b");
    assert_eq!(join("/a/", "b"), "/a/b");
    assert_eq!(join("/a", "/b"), "/b");
}

#[test]
fn numbers_are_written_and_read() {
    assert_eq!(decimal(u64::MAX), "18446744073709551615");
    assert_eq!(decimal_padded(7, 3), "007");
    assert_eq!(parse_u64("+42"), Some(42));
    assert_eq!(parse_u64("18446744073709551616"), None);
    assert_eq!(parse_u32("4294967296"), None);
    assert_eq!(parse_u64(""), None);
    assert_eq!(format_size(1536), "1536 B");
    assert_eq!(format_size(1536 * 1024), "1.5 MiB");
    assert_eq!(two_decimals(Fraction { num: 1, den: 3 }), "0.33");
    assert_eq!(percent(Fraction { num: 1, den: 8 }), format!("{:.1}", 12.5));
}

fn output(code: Option<i32>) -> CommandOutput {
    CommandOutput {
        exit_code: code,
        stdout: String::new(),
        stderr: "why\n".to_string(),
    }
}

#[test]
fn a_failed_command_is_an_error() {
    assert!(check_command("x", output(Some(0))).is_ok());
    let err = check_command("x", output(Some(2))).unwrap_err();
    assert!(matches!(err, Error::Command { exit_code: 2, .. }));
    assert!(check_command("x", output(None)).is_err());
    assert!(check_fsck(&output(Some(1))).is_ok());
    assert!(check_fsck(&output(Some(4))).is_err());
}
