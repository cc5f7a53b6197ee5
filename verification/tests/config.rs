//! What an installation is called, and what its things are called.

use ember::config::{
    default_ip_subnet, derive_instance_id, derive_ip_subnet, fnv1a_32, GlobalConfig, StorageKind,
};

fn config_with_id(id: &str) -> GlobalConfig {
    GlobalConfig {
        storage_backend: StorageKind::Zfs,
        pool: "tank".to_string(),
        dataset: "ember".to_string(),
        kernel_path: None,
        wan_iface: None,
        state_dir: String::new(),
        instance_id: id.to_string(),
        ip_subnet: "10.100.0.0/16".to_string(),
        storage_path: None,
        dm_thin_block_size: None,
        dm_thin_mode: None,
        vdo: None,
        cpu_weight: None,
    }
}

#[test]
fn instance_id_derived_from_state_dir_is_4_hex_chars() {
    let id = derive_instance_id("/var/lib/ember");
    assert_eq!(id.len(), 4);
    assert!(id.chars().all(|c| c.is_ascii_hexdigit()));
}

#[test]
fn instance_id_is_stable_across_calls() {
    let p = "/some/path/that/does/not/exist";
    assert_eq!(derive_instance_id(p), derive_instance_id(p));
}

#[test]
fn distinct_state_dirs_usually_get_distinct_ids() {
    // 16-bit space, but two unrelated paths almost never collide.
    let a = derive_instance_id("/var/lib/ember");
    let b = derive_instance_id("/tmp/ember-test");
    assert_ne!(a, b);
}

#[test]
fn derived_subnet_lands_in_10_slash_8() {
    let subnet = derive_ip_subnet("a3f4");
    assert!(subnet.starts_with("10."));
    assert!(subnet.ends_with(".0.0/16"));
}

#[test]
fn dm_thin_pool_name_embeds_instance_id() {
    let cfg = config_with_id("a3f4");
    assert_eq!(cfg.dm_thin_pool_name(), "ember-a3f4-pool");
    assert_eq!(cfg.dm_thin_image_prefix(), "ember-a3f4-img-");
    assert_eq!(cfg.dm_thin_vm_prefix(), "ember-a3f4-vm-");
}

#[test]
fn tap_prefix_fits_ifnamsiz_with_7_hex_vm_id() {
    let cfg = config_with_id("ffff");
    let prefix = cfg.tap_prefix();
    assert_eq!(prefix, "emffff-");
    // Linux IFNAMSIZ is 16 with NUL; usable budget is 15. The full
    // device name is `prefix + 7 hex chars` = 14 chars.
    assert!(prefix.len() + 7 <= 15);
}

#[test]
fn iptables_comment_tags_install() {
    let cfg = config_with_id("a3f4");
    assert_eq!(cfg.iptables_comment(), "ember:a3f4");
}

#[test]
fn the_hash_is_the_published_one() {
    assert_eq!(fnv1a_32(b""), 0x811c9dc5);
    assert_eq!(fnv1a_32(b"a"), 0xe40c292c);
    assert_eq!(fnv1a_32(b"foobar"), 0xbf9cf968);
}

#[test]
fn installations_without_an_id_have_plain_names() {
    let cfg = config_with_id("");
    assert_eq!(cfg.instance_namespace(), None);
    assert_eq!(cfg.tap_prefix(), "em-");
    assert_eq!(cfg.images_dataset(), "tank/ember/images");
    assert_eq!(cfg.vms_dataset(), "tank/ember/vms");
    assert_eq!(default_ip_subnet(), "10.100.0.0/16");
}

#[test]
fn storage_kinds_by_name() {
    assert!(matches!(StorageKind::parse("zfs"), Ok(StorageKind::Zfs)));
    assert!(matches!("btrfs".parse(), Ok(StorageKind::Btrfs)));
    assert!(matches!(StorageKind::parse("dm-thin"), Ok(StorageKind::DmThin)));
    assert!(StorageKind::parse("ext4").is_err());
    assert!(matches!("dm_thin".parse::<StorageKind>(), Ok(StorageKind::DmThin)));
    assert!("ext4".parse::<StorageKind>().unwrap_err().contains("'ext4'"));
    assert_eq!(StorageKind::DmThin.name(), "DmThin");
    assert!(matches!(StorageKind::default(), StorageKind::Zfs));
}
