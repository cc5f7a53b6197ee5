//! Machines that are made and copied.

use ember::backend::VolumeHandle;
use ember::cli::vm::{
    begin_copy, begin_create, check_new_name, copied_metadata, cp, create, create_post_clone, ensure_kernel, image_not_found,
    load_running_with_ip, pending_metadata, resolve_copy, resolve_create_config, CpArgs, CreateArgs,
    KernelChoice, Refusal, StatusFilter, VmAction, VmFile,
};
use ember::config::{GlobalConfig, StorageKind};
use ember::size::ByteSize;
use ember::vm::{fresh_id, VmMetadata, VmStatus};

fn create_args(name: &str) -> CreateArgs {
    CreateArgs {
        name: name.to_string(),
        image: Some("alpine".to_string()),
        cpus: None,
        memory: None,
        disk_size: None,
        kernel: None,
        network: None,
        vm_config: None,
        no_start: false,
    }
}

fn copy_args(disk: Option<&str>) -> CpArgs {
    CpArgs {
        source: "web".to_string(),
        name: "web2".to_string(),
        cpus: None,
        memory: None,
        disk_size: disk.map(|d| ByteSize::parse(d).unwrap()),
        kernel: None,
        network: None,
        no_start: true,
    }
}

fn machine(name: &str) -> VmMetadata {
    let mut m = VmMetadata::default_for_teardown();
    m.name = name.to_string();
    m.cpus = 2;
    m.memory_mib = 512;
    m.disk_size_gib = 8;
    m
}

#[test]
fn ids_look_like_ids() {
    let id = fresh_id();
    assert_eq!(id.len(), 36);
    for (i, c) in id.char_indices() {
        if [8, 13, 18, 23].contains(&i) {
            assert_eq!(c, '-');
        } else {
            assert!(c.is_ascii_hexdigit());
        }
    }
    assert_ne!(id, fresh_id());
}

#[test]
fn arguments_go_before_the_file_and_the_file_before_defaults() {
    let file = VmFile {
        image: Some("debian".to_string()),
        cpus: Some(4),
        memory: Some(ByteSize::parse("1G").unwrap()),
        disk_size: None,
        kernel: None,
        boot_args: Some("quiet".to_string()),
        subnet: None,
        ssh_user: None,
        ssh_key: Some("~/.ssh/id".to_string()),
    };
    let r = resolve_create_config(&create_args("web"), Some(&file), Some("/home/me")).unwrap();
    assert_eq!(r.image, "alpine");
    assert_eq!(r.cpus, 4);
    assert_eq!(r.memory, 1024);
    assert_eq!(r.disk_size, 8);
    assert_eq!(r.boot_args, Some("quiet".to_string()));
    assert_eq!(r.ssh_key, Some("/home/me/.ssh/id".to_string()));
    let plain = resolve_create_config(&create_args("web"), None, None).unwrap();
    assert_eq!((plain.cpus, plain.memory, plain.disk_size), (1, 16 * 1024, 8));
}

#[test]
fn what_makes_no_sense_is_refused() {
    let mut args = create_args("web");
    args.image = None;
    assert!(resolve_create_config(&args, None, None).unwrap_err().contains("no image specified"));
    let mut args = create_args("web");
    args.memory = Some(ByteSize::parse("500K").unwrap());
    assert!(resolve_create_config(&args, None, None).unwrap_err().contains("invalid memory size"));
    let mut args = create_args("web");
    args.disk_size = Some(ByteSize::parse("1500M").unwrap());
    assert!(resolve_create_config(&args, None, None).unwrap_err().contains("invalid disk size"));
    assert!(check_new_name("web", true).is_err());
    assert!(check_new_name("web", false).is_ok());
    assert!(image_not_found("alpine").contains("alpine"));
}

#[test]
fn a_new_disk_is_destroyed_when_something_goes_wrong() {
    let resolved = resolve_create_config(&create_args("web"), None, None).unwrap();
    let steps = create(&resolved, 64, Some("ssh-ed25519 AAAA"));
    let cloned = steps.iter().position(|s| s.action == VmAction::CloneImage).unwrap();
    let (last, made) = steps[cloned + 1..].split_last().unwrap();
    for step in made {
        assert!(step.undo.contains(&VmAction::DestroyStorage), "{step:?}");
        assert!(!step.tolerate);
    }
    assert_eq!(last.action, VmAction::Start("web".to_string()));
}

#[test]
fn a_disk_is_grown_only_where_it_is_too_small() {
    let small = create_post_clone("web", 8, 64, None);
    assert!(small.contains(&VmAction::Resize(8)));
    let large = create_post_clone("web", 8, 8 * 1024, None);
    assert!(!large.iter().any(|a| matches!(a, VmAction::Resize(_))));
}

#[test]
fn copies_do_not_shrink() {
    let web = machine("web");
    let sizes = resolve_copy(&copy_args(None), &web).unwrap();
    assert_eq!((sizes.cpus, sizes.memory_mib, sizes.disk_size_gib), (2, 512, 8));
    assert_eq!(resolve_copy(&copy_args(Some("16G")), &web).unwrap().disk_size_gib, 16);
    assert!(resolve_copy(&copy_args(Some("4G")), &web).is_err());
}

#[test]
fn a_copy_remembers_where_it_comes_from() {
    let web = machine("web");
    let args = copy_args(None);
    let sizes = resolve_copy(&args, &web).unwrap();
    assert!(!cp(&args, &web, sizes).is_empty());
    let handle = VolumeHandle::from_path("/dev/x".to_string());
    let pending = pending_metadata("web2", &handle, 8);
    let m = copied_metadata(&args, &web, sizes, "/state", &pending, None, "2026-01-01T00:00:00Z");
    assert_eq!(m.name, "web2");
    assert_eq!(m.parent_vm, Some("web".to_string()));
    assert_eq!(m.status, VmStatus::Created);
    assert_eq!(m.disk_path, "/dev/x");
    assert_ne!(m.id, web.id);
}

#[test]
fn kernels_are_chosen_in_this_order() {
    let mut config = GlobalConfig {
        storage_backend: StorageKind::Zfs,
        pool: String::new(),
        dataset: String::new(),
        kernel_path: Some("/k".to_string()),
        wan_iface: None,
        state_dir: String::new(),
        instance_id: String::new(),
        ip_subnet: String::new(),
        storage_path: None,
        dm_thin_block_size: None,
        dm_thin_mode: None,
        vdo: None,
        cpu_weight: None,
    };
    let asked = Some("docker".to_string());
    assert!(matches!(ensure_kernel(&asked, &config), KernelChoice::Asked(k) if k == "docker"));
    assert!(matches!(ensure_kernel(&None, &config), KernelChoice::Configured(k) if k == "/k"));
    config.kernel_path = None;
    assert!(matches!(ensure_kernel(&None, &config), KernelChoice::Usual));
}

#[test]
fn filters_match_their_own_status() {
    assert!(StatusFilter::Paused.matches(VmStatus::Paused));
    assert!(!StatusFilter::Paused.matches(VmStatus::Running));
}

#[test]
fn a_machine_without_an_address_cannot_be_reached() {
    let mut m = machine("web");
    m.status = VmStatus::Stopped;
    assert_eq!(
        load_running_with_ip("web", &m).unwrap_err(),
        "vm 'web' is stopped — start it first with: ember vm start web"
    );
    m.status = VmStatus::Running;
    m.network = None;
    assert_eq!(
        load_running_with_ip("web", &m).unwrap_err(),
        "vm 'web' has no network configured — cannot connect via SSH"
    );
    let mut net = ember::macos_vm::MacosNetwork::new().setup();
    m.network = Some(net.clone());
    assert!(load_running_with_ip("web", &m).unwrap_err().starts_with("guest IP not yet available"));
    net.guest_ip = "192.168.64.2".to_string();
    m.network = Some(net);
    assert_eq!(load_running_with_ip("web", &m).unwrap().guest_ip, "192.168.64.2");
}

#[test]
fn refusals_come_in_order() {
    let mut source = machine("web");
    source.status = VmStatus::Running;
    let small = copy_args(Some("4G"));
    assert!(matches!(begin_copy(&small, &source, true), Err(Refusal::NotStopped(_))));
    source.status = VmStatus::Stopped;
    assert!(matches!(
        begin_copy(&small, &source, true),
        Err(Refusal::Words(t)) if t == "vm 'web2' already exists"
    ));
    assert!(matches!(
        begin_copy(&small, &source, false),
        Err(Refusal::Words(t)) if t.starts_with("cannot shrink disk")
    ));
    let (sizes, steps) = begin_copy(&copy_args(Some("16G")), &source, false).unwrap();
    assert_eq!(sizes.disk_size_gib, 16);
    assert!(steps.iter().any(|s| s.action == VmAction::Resize(16)));
    let resolved = resolve_create_config(&create_args("web"), None, None).unwrap();
    assert_eq!(
        begin_create(&resolved, true, None, None).unwrap_err(),
        "vm 'web' already exists"
    );
    assert!(begin_create(&resolved, false, None, None).unwrap_err().contains("not found locally"));
    assert!(begin_create(&resolved, false, Some(64), None).is_ok());
}
