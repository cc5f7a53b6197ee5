//! What the volumes of ZFS hold.

use ember::zfs::usage::{parse_totals, parse_volumes, DatasetTotals};

/// Captured from a live pool: a clone (no reservation) and an
/// image volume (reserved by `zfs create -V`).
#[test]
fn parses_volume_rows() {
    let out =
        "ember/ember/vms/aj-dev\t214748364800\t104418334720\t0\t105790773760\t208040643072\n\
         ember/ember/images/ubuntu-dev\t6810501120\t2079834112\t1024\t2079834112\t4660178944\n";
    let rows = parse_volumes(out).unwrap();
    assert_eq!(rows.len(), 2);
    assert_eq!(rows[0].name, "ember/ember/vms/aj-dev");
    assert_eq!(rows[0].volsize, 214_748_364_800);
    assert_eq!(rows[0].exclusive(), 104_418_334_720);
    assert_eq!(rows[0].referenced, 105_790_773_760);
    assert_eq!(rows[0].logical_referenced, 208_040_643_072);
    assert_eq!(rows[1].exclusive(), 2_079_834_112 + 1024);
}

/// Regression: an image zvol's `used` includes its refreservation,
/// which would put exclusive above referenced. Exclusive has to
/// stay within referenced for a volume with no snapshots.
#[test]
fn reserved_volume_does_not_exceed_referenced() {
    // volsize, usedbydataset, usedbysnapshots, referenced, logicalreferenced
    let out = "p/images/x\t6810501120\t2079834112\t0\t2079834112\t4660178944\n";
    let row = &parse_volumes(out).unwrap()[0];
    assert!(row.exclusive() <= row.referenced);
}

/// A pool with no zvols yet is not an error.
#[test]
fn usage_parses_empty_listing() {
    assert_eq!(parse_volumes("").unwrap(), vec![]);
    assert_eq!(parse_volumes("\n").unwrap(), vec![]);
}

/// ZFS emits `-` for properties that do not apply. We would rather
/// fail loudly than silently record a zero-sized volume.
#[test]
fn rejects_non_numeric_field() {
    let out = "ember/ember/vms/x\t100\t-\t0\t100\t100\n";
    assert!(parse_volumes(out).is_err());
}

#[test]
fn usage_rejects_short_row() {
    assert!(parse_volumes("ember/ember/vms/x\t100\t100\n").is_err());
}

#[test]
fn parses_totals() {
    let out = "320637513728\n196273849856\n643565009920\n";
    assert_eq!(
        parse_totals(out).unwrap(),
        DatasetTotals {
            used: 320_637_513_728,
            available: 196_273_849_856,
            logical_used: 643_565_009_920,
        }
    );
}

#[test]
fn rejects_truncated_totals() {
    assert!(parse_totals("320637513728\n196273849856\n").is_err());
}
