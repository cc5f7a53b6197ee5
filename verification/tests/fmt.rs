//! Numbers and tables for people.

use ember::cli::fmt::{
    format_bytes_binary, format_bytes_opt, format_percent, format_ratio, print_table, Align, GIB, KIB, MIB,
};
use ember::number::Fraction;

#[test]
fn unknown_values_render_as_dash() {
    assert_eq!(format_bytes_opt(None), "-");
    assert_eq!(format_ratio(None), "-");
    // A measured zero must stay distinguishable from unknown.
    assert_eq!(format_bytes_opt(Some(0)), "0 B");
}

#[test]
fn ratios_keep_two_decimals() {
    assert_eq!(format_ratio(Some(Fraction { num: 2, den: 1 })), "2.00x");
    assert_eq!(format_ratio(Some(Fraction { num: 19666, den: 10000 })), "1.97x");
}

#[test]
fn percentages_round_and_guard_zero_capacity() {
    assert_eq!(format_percent(0, 0), "0%");
    assert_eq!(format_percent(1, 4), "25%");
    assert_eq!(format_percent(2, 3), "67%");
}

#[test]
fn whole_values_have_no_decimal() {
    assert_eq!(format_bytes_binary(512 * MIB), "512 MiB");
    assert_eq!(format_bytes_binary(8 * GIB), "8 GiB");
    assert_eq!(format_bytes_binary(KIB), "1 KiB");
}

#[test]
fn fractional_values_keep_decimal() {
    assert_eq!(format_bytes_binary(3 * MIB + 200 * KIB), "3.2 MiB");
    assert_eq!(format_bytes_binary(GIB + 512 * MIB), "1.5 GiB");
}

#[test]
fn auto_promotes_unit() {
    assert_eq!(format_bytes_binary(2048 * MIB), "2 GiB");
    assert_eq!(format_bytes_binary(1024 * KIB), "1 MiB");
}

#[test]
fn small_values() {
    assert_eq!(format_bytes_binary(0), "0 B");
    assert_eq!(format_bytes_binary(42), "42 B");
    assert_eq!(format_bytes_binary(1023), "1023 B");
}

#[test]
fn columns_are_as_wide_as_their_widest_cell() {
    let rows = vec![
        vec!["web".to_string(), "10".to_string()],
        vec!["database".to_string(), "9".to_string()],
    ];
    let lines = print_table(&["NAME", "N"], &[Align::Left, Align::Right], &rows);
    assert_eq!(lines.len(), 3);
    assert_eq!(lines[1].trim_end(), "web      10");
    assert_eq!(lines[2].trim_end(), "database  9");
}
