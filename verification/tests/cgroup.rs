//! The share of the processor that machines get.

use ember::cgroup::{
    ensure_cpu_controller, has_controller, made, name, path, place, remove, removed, DirResult,
    GroupAction,
};
use ember::config::{GlobalConfig, StorageKind};

#[test]
fn name_is_scoped_to_the_instance() {
    assert_eq!(name(Some("a3f4")), "ember-a3f4");
}

#[test]
fn legacy_configs_share_one_group() {
    assert_eq!(name(None), "ember");
}

#[test]
fn controller_match_is_token_wise() {
    assert!(has_controller("cpuset cpu io memory", "cpu"));
    assert!(has_controller("cpu", "cpu"));
    assert!(!has_controller("cpuset io memory", "cpu"));
    assert!(!has_controller("", "cpu"));
}

#[test]
fn the_controller_is_switched_on_once() {
    assert_eq!(ensure_cpu_controller("cpuset io"), Some("+cpu".to_string()));
    assert_eq!(ensure_cpu_controller("cpuset cpu io\n"), None);
    assert_eq!(path(Some("a3f4")), "/sys/fs/cgroup/ember-a3f4");
}

fn config() -> GlobalConfig {
    GlobalConfig {
        storage_backend: StorageKind::Zfs,
        pool: "tank".to_string(),
        dataset: "ember".to_string(),
        kernel_path: None,
        wan_iface: None,
        state_dir: "/state".to_string(),
        instance_id: "a3f4".to_string(),
        ip_subnet: "10.100.0.0/16".to_string(),
        storage_path: None,
        dm_thin_block_size: None,
        dm_thin_mode: None,
        vdo: None,
        cpu_weight: None,
    }
}

#[test]
fn a_group_is_made_before_it_is_used() {
    let write = |p: &str, t: &str| GroupAction::Write(p.to_string(), t.to_string());
    let dir = "/sys/fs/cgroup/ember-a3f4";
    let actions: Vec<GroupAction> = place(7, &config(), "io memory")
        .into_iter()
        .map(|s| s.action)
        .collect();
    assert_eq!(
        actions,
        [
            write("/sys/fs/cgroup/cgroup.subtree_control", "+cpu"),
            GroupAction::MakeDir(dir.to_string()),
            write("/sys/fs/cgroup/ember-a3f4/cpu.weight", "50"),
            write("/sys/fs/cgroup/ember-a3f4/cgroup.procs", "7"),
        ]
    );
    assert_eq!(place(7, &config(), "cpu io").len(), 3);
    assert_eq!(remove(&config())[0].action, GroupAction::RemoveDir(dir.to_string()));
    assert!(made(DirResult::AlreadyThere("exists".to_string())).is_ok());
    assert_eq!(made(DirResult::Failed("no".to_string())), Err("no".to_string()));
    assert!(removed(DirResult::NotThere("gone".to_string())).is_ok());
    assert!(removed(DirResult::Failed("no".to_string())).is_err());
}
