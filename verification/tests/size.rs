//! Sizes as people write them.

use ember::size::{number_without_unit, ByteSize, GIB, MIB, TIB};

#[test]
fn parse_mib() {
    let s: ByteSize = "512M".parse().unwrap();
    assert_eq!(s.bytes(), 512 * MIB);
    assert_eq!(s.to_mib().unwrap(), 512);
}

#[test]
fn parse_gib() {
    let s: ByteSize = "8G".parse().unwrap();
    assert_eq!(s.bytes(), 8 * GIB);
    assert_eq!(s.to_gib().unwrap(), 8);
}

#[test]
fn parse_tib() {
    let s: ByteSize = "2T".parse().unwrap();
    assert_eq!(s.bytes(), 2 * TIB);
}

#[test]
fn parse_kib() {
    let s: ByteSize = "1024K".parse().unwrap();
    assert_eq!(s.to_mib().unwrap(), 1);
}

#[test]
fn parse_long_suffix() {
    assert_eq!("16GiB".parse::<ByteSize>().unwrap().to_gib().unwrap(), 16);
    assert_eq!("512MiB".parse::<ByteSize>().unwrap().to_mib().unwrap(), 512);
    assert_eq!("1024KiB".parse::<ByteSize>().unwrap().to_mib().unwrap(), 1);
    assert_eq!("1TiB".parse::<ByteSize>().unwrap().bytes(), TIB);
}

#[test]
fn parse_case_insensitive() {
    assert_eq!("512m".parse::<ByteSize>().unwrap().to_mib().unwrap(), 512);
    assert_eq!("8g".parse::<ByteSize>().unwrap().to_gib().unwrap(), 8);
    assert_eq!("2t".parse::<ByteSize>().unwrap().bytes(), 2 * TIB);
    assert_eq!("1024k".parse::<ByteSize>().unwrap().to_mib().unwrap(), 1);
}

#[test]
fn parse_zero() {
    let s: ByteSize = "0M".parse().unwrap();
    assert_eq!(s.bytes(), 0);
    assert_eq!(s.to_mib().unwrap(), 0);
}

#[test]
fn reject_bare_integer() {
    let err = "512".parse::<ByteSize>().unwrap_err();
    assert!(err.contains("requires a unit suffix"), "got: {err}");
}

#[test]
fn reject_empty() {
    assert!("".parse::<ByteSize>().is_err());
}

#[test]
fn reject_suffix_only() {
    let err = "M".parse::<ByteSize>().unwrap_err();
    assert!(err.contains("missing number"), "got: {err}");
}

#[test]
fn reject_unknown_suffix() {
    let err = "512X".parse::<ByteSize>().unwrap_err();
    assert!(err.contains("unknown unit"), "got: {err}");
}

#[test]
fn reject_decimal_suffix() {
    // MB/GB are ambiguous (decimal vs binary) — reject them.
    assert!("512MB".parse::<ByteSize>().is_err());
    assert!("8GB".parse::<ByteSize>().is_err());
}

#[test]
fn reject_float() {
    assert!("1.5G".parse::<ByteSize>().is_err());
}

#[test]
fn reject_negative() {
    assert!("-1G".parse::<ByteSize>().is_err());
}

#[test]
fn reject_overflow() {
    let err = "99999999999T".parse::<ByteSize>().unwrap_err();
    assert!(err.contains("overflows"), "got: {err}");
}

#[test]
fn to_mib_not_divisible() {
    let s: ByteSize = "500K".parse().unwrap();
    let err = s.to_mib().unwrap_err();
    assert!(err.contains("not a whole number of MiB"), "got: {err}");
}

#[test]
fn to_gib_not_divisible() {
    let s: ByteSize = "1500M".parse().unwrap();
    let err = s.to_gib().unwrap_err();
    assert!(err.contains("not a whole number of GiB"), "got: {err}");
}

#[test]
fn gib_to_mib() {
    let s: ByteSize = "2G".parse().unwrap();
    assert_eq!(s.to_mib().unwrap(), 2048);
}

#[test]
fn display_natural_unit() {
    assert_eq!(ByteSize::from_gib(16).to_string(), "16G");
    assert_eq!(ByteSize::from_mib(512).to_string(), "512M");
    assert_eq!(ByteSize::from_mib(2048).to_string(), "2G");
    assert_eq!(ByteSize::from_bytes(0).to_string(), "0M");
}

#[test]
fn what_is_written_is_read_back() {
    for text in ["0M", "1K", "512M", "2G", "2048G", "3T", "17179869183G"] {
        let size = ByteSize::parse(text).unwrap();
        let again = ByteSize::parse(&size.to_string()).unwrap();
        assert_eq!(again.bytes(), size.bytes(), "{text}");
    }
}

#[test]
fn too_large_for_the_target() {
    let size = ByteSize::parse("4096T").unwrap();
    assert_eq!(size.to_gib().unwrap(), 4194304);
    assert!(ByteSize::parse("8192T").unwrap().to_mib().is_err());
}

#[test]
fn numbers_are_no_sizes() {
    assert_eq!(
        number_without_unit(512),
        "bare number 512 requires a unit suffix — use \"512M\" for MiB or \"512G\" for GiB"
    );
}

#[test]
fn units_are_read_in_either_case() {
    for (text, bytes) in [("3k", 3 << 10), (" 3 KiB ", 3 << 10), ("5mib", 5 << 20), ("2T", 2 << 40)] {
        assert_eq!(text.parse::<ByteSize>().unwrap().bytes(), bytes, "{text}");
    }
    for text in ["", "M", "512", "512X", "512MB", "1.5G", "-1G", "99999999999T"] {
        assert!(text.parse::<ByteSize>().is_err(), "{text}");
    }
}
