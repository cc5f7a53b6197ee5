//! Disks that are mounted, and which storage there is.

use ember::config::{DmThinMode, GlobalConfig, StorageKind};
use ember::error::Error;
use ember::mount::{
    ensure_loop_or_block, mount, mount_call, unmount, BlockDevice, MountAction,
};
use ember::network::discover_guest_ip;
use ember::storage::{create_storage, try_usage, Storage};
use ember::vm::{require_stopped, VmMetadata, VmStatus};

#[test]
fn a_mount_point_goes_when_mounting_fails() {
    let steps = mount("/dev/x", true);
    assert_eq!(steps.len(), 3);
    assert_eq!(steps[0].action, MountAction::WaitFor("/dev/x".to_string()));
    assert_eq!(steps[2].undo, vec![MountAction::RemoveMountPoint]);
    assert_eq!(mount("/dev/x", false).len(), 2);
    assert_eq!(mount_call("/dev/x", "/mnt").args, vec!["/dev/x", "/mnt"]);
    let steps = unmount("/mnt");
    assert!(!steps[0].tolerate);
    assert!(steps[1].tolerate);
}

#[test]
fn files_are_used_through_loop_devices() {
    let ready = |p: &str| BlockDevice::Ready(p.to_string());
    assert_eq!(ensure_loop_or_block("/dev/sdb", false, None), ready("/dev/sdb"));
    assert_eq!(ensure_loop_or_block("/d.img", true, Some("/dev/loop3")), ready("/dev/loop3"));
    assert_eq!(
        ensure_loop_or_block("/d.img", true, None),
        BlockDevice::Attach("/d.img".to_string())
    );
}

fn config(kind: StorageKind) -> GlobalConfig {
    GlobalConfig {
        storage_backend: kind,
        pool: "tank".to_string(),
        dataset: "ember".to_string(),
        kernel_path: None,
        wan_iface: None,
        state_dir: "/state".to_string(),
        instance_id: "a3f4".to_string(),
        ip_subnet: "10.100.0.0/16".to_string(),
        storage_path: None,
        dm_thin_block_size: Some(256),
        dm_thin_mode: None,
        vdo: None,
        cpu_weight: None,
    }
}

#[test]
fn the_configuration_says_which_storage() {
    match create_storage(&config(StorageKind::DmThin), false, true) {
        Storage::DmThin(s) => {
            assert_eq!(s.pool_name, "ember-a3f4-pool");
            assert_eq!(s.block_size_sectors, 256);
            assert_eq!(s.storage_path, "/var/lib/ember/dm-thin");
            assert_eq!(s.mode, DmThinMode::RawDevice);
        }
        other => panic!("{other:?}"),
    }
    match create_storage(&config(StorageKind::Zfs), false, true) {
        Storage::Zfs(s) => assert_eq!(s.vms_dataset, "tank/ember/vms"),
        other => panic!("{other:?}"),
    }
    assert!(try_usage(Err(Error::Pool("gone".to_string()))).is_none());
}

#[test]
fn what_runs_has_to_be_stopped_first() {
    let mut m = VmMetadata::default_for_teardown();
    m.name = "web".to_string();
    for (status, ok) in [
        (VmStatus::Created, true),
        (VmStatus::Stopped, true),
        (VmStatus::Running, false),
        (VmStatus::Paused, false),
    ] {
        m.status = status;
        assert_eq!(require_stopped(&m, "resizing").is_ok(), ok, "{status:?}");
    }
    assert!(matches!(discover_guest_ip("aa:bb"), Err(Error::Network(_))));
}
