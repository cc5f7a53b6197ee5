//! Pools of ZFS.

use ember::error::Error;
use ember::zfs::pool::{parse_status, PoolHealth};

#[test]
fn pool_health_from_str() {
    assert_eq!(PoolHealth::from("ONLINE"), PoolHealth::Online);
    assert_eq!(PoolHealth::from("DEGRADED"), PoolHealth::Degraded);
    assert_eq!(PoolHealth::from("FAULTED"), PoolHealth::Faulted);
    assert_eq!(PoolHealth::from("  ONLINE  "), PoolHealth::Online);
    assert_eq!(
        PoolHealth::from("SOMETHING"),
        PoolHealth::Unknown("SOMETHING".to_string())
    );
}

#[test]
fn pool_health_display() {
    assert_eq!(PoolHealth::Online.to_string(), "ONLINE");
    assert_eq!(PoolHealth::Degraded.to_string(), "DEGRADED");
    assert_eq!(PoolHealth::Unknown("FOO".to_string()).to_string(), "FOO");
}

#[test]
fn health_is_read_as_it_is_written() {
    for h in ["ONLINE", "DEGRADED", "FAULTED", "OFFLINE", "REMOVED", "UNAVAIL", "ODD"] {
        assert_eq!(PoolHealth::from(h).to_string(), h);
    }
}

#[test]
fn a_status_line_has_five_fields() {
    let info = parse_status("tank\tONLINE\t1000\t400\t600\n").unwrap();
    assert_eq!(info.name, "tank");
    assert_eq!(info.health, PoolHealth::Online);
    assert_eq!((info.size, info.allocated, info.free), (1000, 400, 600));
    assert!(matches!(parse_status("tank\tONLINE\t1000\n"), Err(Error::Zfs(_))));
    assert!(parse_status("tank\tONLINE\tx\t400\t600\n").is_err());
}
