//! Storage on ZFS.

use ember::backend::InitConfig;
use ember::config::{GlobalConfig, StorageKind};
use ember::error::Error;
use ember::storage::{init_storage, StorageProbe, StorageSetup};
use ember::vm::VmMetadata;
use ember::size::ByteSize;
use ember::zfs::parse_u64;
use ember::zfs::pool::PoolHealth;
use ember::zfs::storage::{
    dataset_names, init_dataset, init_pool, LinuxStorage, ZfsAction, ZfsProbe, ZfsSnapshot,
};

fn storage() -> LinuxStorage {
    let config = GlobalConfig {
        storage_backend: StorageKind::Zfs,
        pool: "tank".to_string(),
        dataset: "ember".to_string(),
        kernel_path: None,
        wan_iface: None,
        state_dir: "/state".to_string(),
        instance_id: String::new(),
        ip_subnet: "10.100.0.0/16".to_string(),
        storage_path: None,
        dm_thin_block_size: None,
        dm_thin_mode: None,
        vdo: None,
        cpu_weight: None,
    };
    LinuxStorage::new(&config)
}

fn init(device: Option<&str>) -> InitConfig {
    InitConfig {
        storage_backend: StorageKind::Zfs,
        state_dir: "/state".to_string(),
        instance_id: String::new(),
        pool: "tank".to_string(),
        dataset: "ember".to_string(),
        device: device.map(|d| d.to_string()),
        storage_path: None,
        btrfs_size: None,
        dm_thin_size: None,
        dm_thin_metadata_size: None,
        dm_thin_block_size: None,
        dm_thin_mode: None,
        vdo: None,
    }
}

#[test]
fn volumes_lie_below_their_datasets() {
    let s = storage();
    assert_eq!(s.image_zvol("alpine"), "tank/ember/images/alpine");
    assert_eq!(s.vm_zvol("web"), "tank/ember/vms/web");
    assert_eq!(s.disk_device_path("web"), "/dev/zvol/tank/ember/vms/web");
}

#[test]
fn a_pool_is_made_where_there_is_a_device() {
    assert!(matches!(init_pool(&init(None), None), Err(Error::Zfs(_))));
    let steps = init_pool(&init(Some("/dev/sdb")), None).unwrap();
    assert!(steps.iter().any(|s| s.action
        == ZfsAction::CreatePool("tank".to_string(), "/dev/sdb".to_string())));
    let steps = init_pool(&init(None), Some(&PoolHealth::Online)).unwrap();
    assert!(!steps.iter().any(|s| matches!(s.action, ZfsAction::CreatePool(_, _))));
    let (base, images, vms) = dataset_names(&init(None));
    assert_eq!(base, "tank/ember");
    assert_eq!(images, "tank/ember/images");
    assert_eq!(vms, "tank/ember/vms");
    assert!(init_dataset("tank/ember", false)
        .iter()
        .any(|s| s.action == ZfsAction::CreateDataset("tank/ember".to_string())));
}

#[test]
fn a_failed_image_leaves_no_volume() {
    let (steps, path) = storage().create_image_volume("alpine", 64);
    assert_eq!(path, "tank/ember/images/alpine");
    let written = steps
        .iter()
        .find(|s| matches!(s.action, ZfsAction::WriteImage(_)))
        .unwrap();
    assert!(written.undo.iter().any(|a| matches!(a, ZfsAction::DestroyVolume(_))));
}

#[test]
fn disks_are_whole_gibibytes() {
    assert!(storage().resize("web", ByteSize::parse("16G").unwrap()).is_ok());
    assert!(storage().resize("web", ByteSize::parse("1500M").unwrap()).is_err());
}

#[test]
fn the_base_snapshot_is_not_listed() {
    let all = vec![
        ZfsSnapshot {
            short_name: "base".to_string(),
            creation: 1,
            referenced: 2,
        },
        ZfsSnapshot {
            short_name: "before".to_string(),
            creation: 3,
            referenced: 4,
        },
    ];
    let listed = LinuxStorage::list_snapshots(&all);
    assert_eq!(listed.last().unwrap().name, "before");
    assert_eq!(listed.last().unwrap().created_at, 3);
}

#[test]
fn a_fork_goes_back_to_its_origin() {
    let (_, path, origin) = storage().clone_from_snapshot("web", "s1", "web2");
    assert_eq!(path, "tank/ember/vms/web2");
    let gone = LinuxStorage::destroy_fork_origin(&origin).unwrap();
    assert_eq!(
        gone,
        ZfsAction::DestroySnapshot("tank/ember/vms/web".to_string(), "s1".to_string())
    );
    assert!(LinuxStorage::destroy_fork_origin("nothing").is_none());
}

#[test]
fn figures_are_numbers() {
    assert_eq!(parse_u64("42", "size").unwrap(), 42);
    assert!(matches!(parse_u64("-", "size"), Err(Error::Zfs(m)) if m.contains("size")));
}

#[test]
fn storage_is_set_up_from_the_pool_down() {
    let nothing = || ZfsProbe {
        health: None,
        base_there: false,
        images_there: true,
        vms_there: false,
    };
    assert!(init_storage(&init(None), StorageProbe::Zfs(nothing())).is_err());
    let set_up = init_storage(&init(Some("/dev/sdb")), StorageProbe::Zfs(nothing())).unwrap();
    let StorageSetup::Zfs(steps) = set_up else {
        panic!("{set_up:?}");
    };
    let actions: Vec<ZfsAction> = steps.into_iter().map(|s| s.action).collect();
    let say = |words: &str| ZfsAction::Say(words.to_string());
    assert_eq!(
        actions,
        [
            say("Creating ZFS pool 'tank' on /dev/sdb..."),
            ZfsAction::CreatePool("tank".to_string(), "/dev/sdb".to_string()),
            say("Pool 'tank' created."),
            say("Creating dataset 'tank/ember'..."),
            ZfsAction::CreateDataset("tank/ember".to_string()),
            say("Dataset 'tank/ember/images' already exists."),
            say("Creating dataset 'tank/ember/vms'..."),
            ZfsAction::CreateDataset("tank/ember/vms".to_string()),
        ]
    );
}

#[test]
fn copies_depend_on_what_they_were_copied_from() {
    let machine = |name: &str, parent: Option<&str>| {
        let mut m = VmMetadata::default_for_teardown();
        m.name = name.to_string();
        m.parent_vm = parent.map(|p| p.to_string());
        m
    };
    let vms = vec![machine("a", None), machine("b", Some("a")), machine("c", Some("b"))];
    assert_eq!(LinuxStorage::storage_dependents(&vms, "a"), ["b"]);
    assert!(LinuxStorage::storage_dependents(&vms, "c").is_empty());
}
