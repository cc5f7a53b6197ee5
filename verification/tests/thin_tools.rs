//! What the tools for thin pools print.

use ember::error::Error;
use ember::thin_tools::{parse_metadata_size, parse_thin_ls, ThinRow};

#[test]
fn parses_thin_ls_rows() {
    let out = "  1234    10737418240     8589934592\n\
               5678     2147483648      1073741824\n";
    let rows = parse_thin_ls(out).unwrap();
    assert_eq!(
        rows,
        vec![
            ThinRow {
                dev_id: 1234,
                mapped_bytes: 10_737_418_240,
                exclusive_bytes: 8_589_934_592,
            },
            ThinRow {
                dev_id: 5678,
                mapped_bytes: 2_147_483_648,
                exclusive_bytes: 1_073_741_824,
            },
        ]
    );
}

/// A pool that holds no thin devices yet.
#[test]
fn tools_parses_empty_listing() {
    assert_eq!(parse_thin_ls("").unwrap(), vec![]);
    assert_eq!(parse_thin_ls("\n\n").unwrap(), vec![]);
}

/// If `--no-headers` ever stops suppressing the header we want a
/// hard failure, not a row with a garbage device id.
#[test]
fn rejects_header_row() {
    assert!(parse_thin_ls("DEV MAPPED_BYTES EXCLUSIVE_BYTES\n").is_err());
}

#[test]
fn tools_rejects_short_row() {
    assert!(parse_thin_ls("1234 10737418240\n").is_err());
}

#[test]
fn the_recommended_size_is_a_number() {
    assert_eq!(parse_metadata_size("16777216\n").unwrap(), 16777216);
    assert!(matches!(parse_metadata_size("16m"), Err(Error::Pool(_)) | Err(Error::Command { .. })));
}
