//! What an installation is set up with.

use ember::cli::init::{
    check_existing, config_error, global_config, init_config, init_steps, ip_subnet, parse_instance_id, resolve_dm_thin_block_size_sectors,
    resolve_storage_path, resolve_vdo, run, Existing, InitAction, InitArgs, InitEnv,
};
use ember::config::{DmThinMode, StorageKind, VdoConfig};
use ember::error::Error;
use ember::size::ByteSize;

fn vdo_args(vdo: bool, logical: Option<&str>, dedup: bool) -> InitArgs {
    InitArgs {
        storage: StorageKind::DmThin,
        pool: "ember".to_string(),
        device: None,
        dataset: "ember".to_string(),
        storage_path: None,
        size: Some("64G".parse().unwrap()),
        metadata_size: None,
        block_size: None,
        vdo,
        vdo_logical_size: logical.map(|s| s.parse().unwrap()),
        vdo_dedup: dedup,
        kernel: None,
        wan_iface: None,
        instance_id: None,
        ip_subnet: None,
    }
}

fn resolve(args: &InitArgs) -> Result<Option<VdoConfig>, String> {
    resolve_vdo(
        args,
        Some("/var/lib/ember/dm-thin"),
        Some(DmThinMode::File),
        Err(Error::Pool("no device".to_string())),
    )
}

#[test]
fn no_vdo_flag_means_no_layer() {
    assert_eq!(resolve(&vdo_args(false, None, false)).unwrap(), None);
}

/// The default is the configuration that does not over-promise:
/// compression buys a smaller footprint, not extra capacity.
#[test]
fn logical_size_defaults_to_the_physical_size() {
    let cfg = resolve(&vdo_args(true, None, false)).unwrap().unwrap();
    assert_eq!(cfg.physical_size, 64 << 30);
    assert_eq!(cfg.logical_size, cfg.physical_size);
    assert!(!cfg.deduplication);
}

#[test]
fn logical_size_can_over_provision_explicitly() {
    let cfg = resolve(&vdo_args(true, Some("128G"), true))
        .unwrap()
        .unwrap();
    assert_eq!(cfg.physical_size, 64 << 30);
    assert_eq!(cfg.logical_size, 128 << 30);
    assert!(cfg.deduplication);
}

/// Both sizes must be whole VDO blocks, or the table claims a
/// sector the formatted volume does not have.
#[test]
fn sizes_are_rounded_to_whole_vdo_blocks() {
    // Both a hair over a whole number of blocks, and both well
    // above the minimum so the floor is not what is being tested.
    let mut args = vdo_args(true, Some("33554433K"), false);
    args.size = Some("67108865K".parse().unwrap());
    let cfg = resolve(&args).unwrap().unwrap();
    assert_eq!(cfg.physical_size, 64 << 30);
    assert_eq!(cfg.logical_size, 32 << 30);
}

/// A logical size small enough to round down to zero would mean
/// "match the physical size" to `vdoformat` and a zero-length
/// device in the table.
#[test]
fn a_logical_size_below_the_floor_is_refused() {
    assert!(resolve(&vdo_args(true, Some("1M"), false)).is_err());
    assert!(resolve(&vdo_args(true, Some("1K"), false)).is_err());
}

/// A file-backed pool has no size to discover, so `--vdo` without
/// `--size` is an error rather than a guess.
#[test]
fn vdo_without_a_size_on_a_file_pool_is_an_error() {
    let mut args = vdo_args(true, None, false);
    args.size = None;
    assert!(resolve(&args).is_err());
}

#[test]
fn instance_ids_are_four_hex_digits() {
    assert_eq!(parse_instance_id("a3f4").unwrap(), "a3f4");
    assert_eq!(parse_instance_id("A3F4").unwrap(), "a3f4");
    assert!(parse_instance_id("a3f").is_err());
    assert!(parse_instance_id("a3g4").is_err());
}

#[test]
fn pool_blocks_have_bounds() {
    assert_eq!(resolve_dm_thin_block_size_sectors(None).unwrap(), 128);
    assert_eq!(
        resolve_dm_thin_block_size_sectors(Some(ByteSize::parse("1M").unwrap())).unwrap(),
        2048
    );
    assert!(resolve_dm_thin_block_size_sectors(Some(ByteSize::parse("4K").unwrap())).is_err());
    assert!(resolve_dm_thin_block_size_sectors(Some(ByteSize::parse("96K").unwrap())).is_err());
    assert!(resolve_dm_thin_block_size_sectors(Some(ByteSize::parse("4096G").unwrap())).is_err());
}

fn env() -> InitEnv {
    InitEnv {
        path_is_dir: true,
        path_exists: true,
        device_size: Err(Error::Pool("no device".to_string())),
        canonical_state_dir: "/var/lib/ember".to_string(),
    }
}

#[test]
fn what_is_settled_is_recorded() {
    let args = vdo_args(true, None, false);
    let path = "/var/lib/ember/config.json";
    let settled = run(&args, &Existing::Absent, path, &env()).unwrap();
    assert_eq!(settled.instance_id.len(), 4);
    let init = init_config(&args, "/var/lib/ember", &settled);
    assert_eq!(init.instance_id, settled.instance_id);
    let config = global_config(
        &args,
        "/var/lib/ember",
        &settled,
        None,
        Some("eth0".to_string()),
        "10.1.0.0/16".to_string(),
    );
    assert_eq!(config.vdo, settled.vdo);
    assert_eq!(config.wan_iface, Some("eth0".to_string()));
    assert!(check_existing(Some(&config), &args, path).is_err());
    assert!(check_existing(None, &args, path).is_ok());
    let mut zfs = vdo_args(false, None, false);
    zfs.storage = StorageKind::Zfs;
    let told = check_existing(Some(&config), &zfs, path).unwrap_err();
    assert!(told.contains("switch to Zfs"), "{told}");
    assert_eq!(resolve_storage_path(&args), settled.storage_path);

    // Whatever is there is not set up again.
    let there = run(&args, &Existing::There(config), path, &env()).unwrap_err();
    assert!(there.contains("already initialized at /var/lib/ember/config.json"), "{there}");
    let broken = Existing::Unreadable("bad JSON".to_string());
    let told = run(&args, &broken, path, &env()).unwrap_err();
    assert!(told.contains("bad JSON") && told.contains("Refusing"), "{told}");
}

#[test]
fn the_layer_needs_a_thin_pool() {
    let mut args = vdo_args(true, None, false);
    args.storage = StorageKind::Zfs;
    let told = run(&args, &Existing::Absent, "/c", &env()).unwrap_err();
    assert!(told.contains("requires --storage dm-thin (got Zfs)"), "{told}");
}

#[test]
fn the_configuration_is_recorded_last() {
    let args = vdo_args(false, None, false);
    let settled = run(&args, &Existing::Absent, "/c", &env()).unwrap();
    let steps = init_steps(&args, "/var/lib/ember", "/c", &settled, "10.1.0.0/16");
    let place = |a: InitAction| steps.iter().position(|s| s.action == a).unwrap();
    assert_eq!(place(InitAction::InitStorage), 0);
    assert!(place(InitAction::InitState) < place(InitAction::CreateConfig));
    assert!(steps[place(InitAction::CreateConfig) + 1..]
        .iter()
        .all(|s| matches!(s.action, InitAction::Say(_))));
    let taken = Error::AlreadyExists {
        path: "/c".to_string(),
    };
    assert!(config_error(&taken, "/c").contains("already initialized at /c"));
    let other = Error::State("disk full".to_string());
    assert_eq!(config_error(&other, "/c"), "disk full");
    assert_eq!(ip_subnet(&args, "10.1.0.0/16"), "10.1.0.0/16");
}
