//! Days and seconds.

use ember::calendar::{date_of, format_epoch};

#[test]
fn days_have_dates() {
    assert_eq!(date_of(0), (1970, 1, 1));
    assert_eq!(date_of(59), (1970, 3, 1));
    assert_eq!(date_of(11016), (2000, 2, 29));
    assert_eq!(date_of(11017), (2000, 3, 1));
    assert_eq!(date_of(47540), (2100, 2, 28));
    assert_eq!(date_of(47541), (2100, 3, 1));
}

#[test]
fn moments_are_written_out() {
    assert_eq!(format_epoch(0), "1970-01-01 00:00:00 UTC");
    assert_eq!(format_epoch(951782399), "2000-02-28 23:59:59 UTC");
    assert_eq!(format_epoch(1700000000), "2023-11-14 22:13:20 UTC");
}
