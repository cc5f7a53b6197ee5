//! Volumes of ZFS.

use ember::zfs::volume::{create, destroy, device_path};

#[test]
fn device_path_construction() {
    assert_eq!(
        device_path("tank/images/ubuntu-22.04"),
        "/dev/zvol/tank/images/ubuntu-22.04"
    );
    assert_eq!(
        device_path("tank/vms/myvm"),
        "/dev/zvol/tank/vms/myvm"
    );
}

#[test]
fn volumes_are_made_and_destroyed() {
    assert_eq!(create("tank/images/x", 64).program, "zfs");
    assert_eq!(destroy("tank/images/x", false).args, vec!["destroy", "tank/images/x"]);
    assert_eq!(destroy("tank/images/x", true).args, vec!["destroy", "-r", "tank/images/x"]);
}
