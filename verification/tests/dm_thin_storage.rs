//! The thin pool.

use ember::backend::{GrowRequest, InitConfig};
use ember::config::{DmThinMode, GlobalConfig, StorageKind, VdoConfig};
use ember::dm::SECTOR_SIZE;
use ember::dm_thin_storage::{
    device_size_bytes, format_bytes, grown_layer_text, grown_text, join_images, join_vms, layer_text, plan_grow,
    pool_usage, probe_mode, torn_down_text, vdo_params, DmThinStorage, GrowContext, InitProbe,
    PoolAction, PoolMode, PoolStatus,
    DEFAULT_BLOCK_SIZE_SECTORS,
};
use ember::error::Error;
use ember::number::Fraction;
use ember::size::ByteSize;
use ember::thin_tools::ThinRow;
use ember::vdo::{VdoMode, VdoStats, VdoStatus, BLOCK_SIZE};
use ember::vm::VmMetadata;

fn float(f: Fraction) -> f64 {
    f.num as f64 / f.den as f64
}

#[test]
fn format_bytes_units() {
    assert_eq!(format_bytes(0), "0 B");
    assert_eq!(format_bytes(2 * 1024 * 1024), "2.0 MiB");
    assert_eq!(format_bytes(3u64 * 1024 * 1024 * 1024), "3.0 GiB");
}

fn status(
    used_data: u64,
    total_data: u64,
    used_meta: u64,
    total_meta: u64,
) -> PoolStatus {
    PoolStatus {
        used_metadata_blocks: used_meta,
        total_metadata_blocks: total_meta,
        used_data_blocks: used_data,
        total_data_blocks: total_data,
        mode: PoolMode::ReadWrite,
    }
}

/// Data blocks scale by the pool's block size, metadata blocks by
/// the kernel's fixed 4 KiB. Mixing the two multipliers up would
/// misreport metadata by a factor of 16 at the default block size.
#[test]
fn pool_usage_scales_data_and_metadata_separately() {
    let block_bytes = DEFAULT_BLOCK_SIZE_SECTORS as u64 * SECTOR_SIZE;
    assert_eq!(block_bytes, 65536);

    let u = pool_usage(&status(100, 1000, 5, 2048), block_bytes, None);
    assert_eq!(u.allocated, 100 * 65536);
    assert_eq!(u.capacity, 1000 * 65536);
    assert_eq!(u.free(), 900 * 65536);
    assert_eq!(u.reserved, 0);
    assert_eq!(u.logical, None);
    assert_eq!(u.addressable, None);
    assert_eq!(u.compression_ratio().map(float), None);

    let meta = u.metadata.expect("dm-thin has a metadata device");
    assert_eq!(meta.used, 5 * 4096);
    assert_eq!(meta.capacity, 2048 * 4096);
}

fn vdo_stats(data_blocks: u64, overhead_blocks: u64, physical_blocks: u64) -> VdoStats {
    VdoStats {
        data_blocks,
        overhead_blocks,
        physical_blocks,
    }
}

/// Over VDO the pool's own figures stop being physical. What the
/// pool has handed out becomes the logical side, and the bytes
/// actually on disk come from VDO, which is the only layer that
/// knows how far the blocks compressed.
#[test]
fn pool_usage_over_vdo_reports_physical_from_below() {
    let block_bytes = DEFAULT_BLOCK_SIZE_SECTORS as u64 * SECTOR_SIZE;
    // Pool: 400 MiB handed out of 1000 blocks. VDO: 200 MiB of data
    // plus 100 MiB of its own metadata, in a 2 GiB volume. So the
    // data compressed 2:1 and the metadata must not dilute that.
    let thin = status(6400, 16_000, 5, 2048);
    let v = vdo_stats(51_200, 25_600, 524_288);

    let u = pool_usage(&thin, block_bytes, Some(&v));
    assert_eq!(u.capacity, 2 * 1024 * 1024 * 1024);
    assert_eq!(u.allocated, 300 * 1024 * 1024);
    assert_eq!(u.reserved, 100 * 1024 * 1024);
    assert_eq!(u.occupied(), 200 * 1024 * 1024);
    assert_eq!(u.logical, Some(400 * 1024 * 1024));
    assert_eq!(u.addressable, Some(1000 * 1024 * 1024));
    assert_eq!(u.compression_ratio().map(float), Some(2.0));
    // Free is real physical headroom, not the pool's idea of it.
    assert_eq!(u.free(), 2 * 1024 * 1024 * 1024 - 300 * 1024 * 1024);
    // Headroom at the addressable level is a different number.
    assert_eq!(u.addressable_free(), Some(600 * 1024 * 1024));
}

/// Regression, measured on a real 60 GiB pool: 6.66 GiB of logical
/// data compressed to 2.64 GiB alongside 4.05 GiB of VDO metadata.
/// Charging the metadata to `allocated` alone reported 1.00x and
/// made the layer look useless.
#[test]
fn vdo_metadata_does_not_dilute_the_compression_ratio() {
    let block_bytes = DEFAULT_BLOCK_SIZE_SECTORS as u64 * SECTOR_SIZE;
    let thin = status(109_150, 983_040, 1434, 8832);
    let v = vdo_stats(692_060, 1_061_683, 15_728_640);

    let u = pool_usage(&thin, block_bytes, Some(&v));
    let ratio = float(u.compression_ratio().expect("a ratio over real data"));
    assert!(
        (2.4..2.7).contains(&ratio),
        "expected roughly 2.5x, got {ratio}"
    );
}

/// The metadata device never goes through VDO, so its figures are
/// unaffected by what sits under the data device.
#[test]
fn pool_usage_metadata_is_unchanged_by_vdo() {
    let block_bytes = DEFAULT_BLOCK_SIZE_SECTORS as u64 * SECTOR_SIZE;
    let thin = status(100, 1000, 5, 2048);
    let bare = pool_usage(&thin, block_bytes, None).metadata.unwrap();
    let over_vdo = pool_usage(&thin, block_bytes, Some(&vdo_stats(10, 5, 100)))
        .metadata
        .unwrap();
    assert_eq!(bare.used, over_vdo.used);
    assert_eq!(bare.capacity, over_vdo.capacity);
}

const GIB: u64 = 1024 * 1024 * 1024;

fn vdo_config(physical: u64, logical: u64) -> VdoConfig {
    VdoConfig {
        physical_size: physical,
        logical_size: logical,
        deduplication: false,
    }
}

fn file_ctx(vdo: Option<VdoConfig>, backing: u64) -> GrowContext {
    GrowContext {
        vdo,
        backing_is_file: true,
        backing_size: backing,
        pool_capacity: backing,
    }
}

fn raw_ctx(vdo: Option<VdoConfig>, device: u64, pool_capacity: u64) -> GrowContext {
    GrowContext {
        vdo,
        backing_is_file: false,
        backing_size: device,
        pool_capacity,
    }
}

fn request(physical: Option<u64>, logical: Option<u64>) -> GrowRequest {
    GrowRequest {
        physical_size: physical.map(ByteSize::from_bytes),
        logical_size: logical.map(ByteSize::from_bytes),
    }
}

#[test]
fn plan_grow_without_vdo_just_resizes_the_backing_file() {
    let plan = plan_grow(&request(Some(64 * GIB), None), &file_ctx(None, 32 * GIB)).unwrap();
    assert_eq!(plan.physical_size, 64 * GIB);
    assert_eq!(plan.vdo, None);
    assert!(plan.resize_backing);
}

#[test]
fn plan_grow_preserves_the_over_provision_ratio() {
    let ctx = file_ctx(Some(vdo_config(32 * GIB, 64 * GIB)), 32 * GIB);
    let plan = plan_grow(&request(Some(64 * GIB), None), &ctx).unwrap();
    let vdo = plan.vdo.unwrap();
    assert_eq!(vdo.physical_size, 64 * GIB);
    assert_eq!(vdo.logical_size, 128 * GIB);
}

/// A logical-only grow must not move physical space. The baseline
/// is the recorded size, not the device's, or a raw device that is
/// deliberately larger than the pool would be swallowed whole.
#[test]
fn plan_grow_logical_only_leaves_physical_alone() {
    let ctx = raw_ctx(Some(vdo_config(32 * GIB, 32 * GIB)), 500 * GIB, 32 * GIB);
    let plan = plan_grow(&request(None, Some(64 * GIB)), &ctx).unwrap();
    assert_eq!(plan.physical_size, 32 * GIB);
    assert_eq!(plan.vdo.unwrap().logical_size, 64 * GIB);
    assert!(!plan.resize_backing);
}

/// Same setup, and the reason it matters: with the device size as
/// the baseline, doubling a 32 GiB pool on a 500 GiB device reads
/// as a shrink and there is no `--size` that works.
#[test]
fn plan_grow_on_an_oversized_raw_device_is_not_a_shrink() {
    let ctx = raw_ctx(Some(vdo_config(32 * GIB, 32 * GIB)), 500 * GIB, 32 * GIB);
    let plan = plan_grow(&request(Some(64 * GIB), None), &ctx).unwrap();
    assert_eq!(plan.physical_size, 64 * GIB);
    assert!(!plan.resize_backing, "a raw device is not ours to resize");
}

/// Regression: `--size` has to reach the pool table. On a raw
/// device nothing gets resized, so the only way the requested size
/// takes effect is by being carried through the plan. Reading the
/// device back instead silently hands out the whole disk.
#[test]
fn plan_grow_carries_the_requested_size_on_a_raw_device() {
    let ctx = raw_ctx(None, 500 * GIB, 100 * GIB);
    let plan = plan_grow(&request(Some(200 * GIB), None), &ctx).unwrap();
    assert_eq!(plan.physical_size, 200 * GIB);
    assert!(!plan.resize_backing);
    assert_ne!(
        plan.physical_size, ctx.backing_size,
        "the plan must not have fallen back to the device size"
    );
}

/// A compression layer cannot address less than it did, and the
/// plan must not represent that state even briefly.
#[test]
fn plan_grow_refuses_a_logical_shrink() {
    let ctx = file_ctx(Some(vdo_config(32 * GIB, 64 * GIB)), 32 * GIB);
    let err = plan_grow(&request(Some(64 * GIB), Some(48 * GIB)), &ctx)
        .unwrap_err()
        .to_string();
    assert!(err.contains("only grows"), "{err}");
}

/// `create_sparse_file` truncates, so the decision to resize is
/// made against the backing store's real size. The two drift if a
/// grow failed between the VDO reload and the config write.
#[test]
fn plan_grow_never_shrinks_a_backing_file_that_ran_ahead() {
    // Config says 32 GiB, the file is already 64 GiB.
    let ctx = file_ctx(Some(vdo_config(32 * GIB, 32 * GIB)), 64 * GIB);
    let plan = plan_grow(&request(Some(40 * GIB), None), &ctx).unwrap();
    assert_eq!(plan.physical_size, 40 * GIB);
    assert!(
        !plan.resize_backing,
        "truncating to 40 GiB would shrink a 64 GiB file"
    );
}

/// A raw device the operator grew externally can be picked up with
/// no `--size` at all, which is what the flag's help promises.
#[test]
fn plan_grow_picks_up_a_grown_raw_device() {
    let ctx = raw_ctx(None, 500 * GIB, 100 * GIB);
    let plan = plan_grow(&request(None, None), &ctx).unwrap();
    assert_eq!(plan.physical_size, 500 * GIB);
}

#[test]
fn plan_grow_refuses_a_shrink() {
    let err = plan_grow(&request(Some(16 * GIB), None), &file_ctx(None, 32 * GIB))
        .unwrap_err()
        .to_string();
    assert!(err.contains("only grows"), "{err}");
}

#[test]
fn plan_grow_refuses_to_outgrow_a_raw_device() {
    let ctx = raw_ctx(None, 32 * GIB, 32 * GIB);
    let err = plan_grow(&request(Some(64 * GIB), None), &ctx)
        .unwrap_err()
        .to_string();
    assert!(err.contains("resize a device it does not own"), "{err}");
}

#[test]
fn plan_grow_refuses_logical_size_without_a_compression_layer() {
    let err = plan_grow(&request(None, Some(64 * GIB)), &file_ctx(None, 32 * GIB))
        .unwrap_err()
        .to_string();
    assert!(err.contains("compression layer"), "{err}");
}

/// A grow that changes nothing must say so rather than suspend the
/// live stack and print two success lines.
#[test]
fn plan_grow_refuses_a_no_op() {
    for req in [
        request(None, None),
        request(Some(32 * GIB), None),
        request(Some(32 * GIB), Some(32 * GIB)),
    ] {
        let ctx = file_ctx(Some(vdo_config(32 * GIB, 32 * GIB)), 32 * GIB);
        let err = plan_grow(&req, &ctx).unwrap_err().to_string();
        assert!(err.contains("nothing to grow"), "{err}");
    }
}

/// Sizes that are not a whole VDO block are rounded rather than
/// passed through to produce a table the kernel rejects.
#[test]
fn plan_grow_aligns_sizes_for_a_compressed_pool() {
    let ctx = file_ctx(Some(vdo_config(32 * GIB, 32 * GIB)), 32 * GIB);
    let odd = 64 * GIB + 1025;
    let plan = plan_grow(&request(Some(odd), None), &ctx).unwrap();
    assert_eq!(plan.physical_size % BLOCK_SIZE, 0);
    assert_eq!(plan.physical_size, 64 * GIB);
    // A pool with no layer has no such constraint.
    let plain = plan_grow(&request(Some(odd), None), &file_ctx(None, 32 * GIB)).unwrap();
    assert_eq!(plain.physical_size, odd);
}

/// One pool-block discard has to reach VDO as a single bio, or
/// reclaim is split into a bio per 4 KiB.
#[test]
fn vdo_max_discard_matches_the_pool_block_size() {
    let config = VdoConfig {
        physical_size: 8 << 30,
        logical_size: 8 << 30,
        deduplication: false,
    };
    // Default 64 KiB pool block is 16 of VDO's 4 KiB blocks.
    assert_eq!(
        vdo_params(config, DEFAULT_BLOCK_SIZE_SECTORS).max_discard_blocks,
        16
    );
    // A 1 MiB pool block is 256 of them.
    assert_eq!(vdo_params(config, 2048).max_discard_blocks, 256);
}

fn row(dev_id: u64, mapped: u64, exclusive: u64) -> ThinRow {
    ThinRow {
        dev_id,
        mapped_bytes: mapped,
        exclusive_bytes: exclusive,
    }
}

fn vm_record(name: &str, thin_id: Option<u64>, disk_size_gib: u32) -> VmMetadata {
    let mut m = VmMetadata::default_for_teardown();
    m.name = name.to_string();
    m.thin_id = thin_id;
    m.disk_size_gib = disk_size_gib;
    m
}

#[test]
fn join_matches_records_to_rows_by_thin_id() {
    let rows = vec![row(42, 3000, 2000), row(7, 500, 500)];
    let vms = [vm_record("a", Some(42), 1)];

    let joined = join_vms(&vms, &rows);
    let a = joined.get("a").expect("matched by thin id");
    assert_eq!(a.exclusive, 2000);
    assert_eq!(a.referenced, Some(3000));
    assert_eq!(a.shared(), Some(1000));
    assert_eq!(a.provisioned, 1024 * 1024 * 1024);
}

/// A record the pool cannot account for is absent from the map, not
/// present with zeroes. The CLI renders absent as `-`.
#[test]
fn join_omits_unaccountable_records() {
    let rows = vec![row(42, 3000, 2000)];
    let vms = [
        // Never got a thin id (ZFS record, or a half-created VM).
        vm_record("no-id", None, 1),
        // Has an id the pool no longer knows about.
        vm_record("stale", Some(999), 1),
    ];

    let joined = join_vms(&vms, &rows);
    assert!(joined.is_empty(), "{joined:?}");
}

/// Thin ids the pool holds but no record claims (leaked staging
/// volumes, another install) contribute to the pool figure and must
/// not invent rows.
#[test]
fn join_ignores_rows_no_record_claims() {
    let rows = vec![row(42, 3000, 2000), row(7, 500, 500)];
    assert_eq!(join_vms(&[vm_record("a", Some(42), 1)], &rows).len(), 1);
    assert!(join_images(&[], &rows).is_empty());
}

fn storage() -> DmThinStorage {
    let config = GlobalConfig {
        storage_backend: StorageKind::DmThin,
        pool: String::new(),
        dataset: String::new(),
        kernel_path: None,
        wan_iface: None,
        state_dir: "/var/lib/ember".to_string(),
        instance_id: "a3f4".to_string(),
        ip_subnet: "10.100.0.0/16".to_string(),
        storage_path: Some("/dev/sdb".to_string()),
        dm_thin_block_size: None,
        dm_thin_mode: Some(DmThinMode::RawDevice),
        vdo: None,
        cpu_weight: None,
    };
    DmThinStorage::new(&config, false, true)
}

#[test]
fn a_volume_without_an_id_is_refused() {
    let vm = vm_record("half", None, 1);
    let err = DmThinStorage::require_vm_thin_id(&vm).unwrap_err();
    assert!(err.to_string().contains("half"), "{}", err.to_string());
    assert_eq!(DmThinStorage::require_vm_thin_id(&vm_record("b", Some(9), 1)).unwrap(), 9);
}

#[test]
fn a_pool_that_cannot_be_written_is_refused() {
    let mut st = status(1, 10, 1, 10);
    let (warnings, verdict) = storage().assert_pool_healthy(None, &st);
    assert!(warnings.is_empty() && verdict.is_ok());
    st.mode = PoolMode::ReadOnly;
    let rebuilding = VdoStatus {
        mode: VdoMode::Recovering,
        compression_online: true,
        used_blocks: 1,
        total_blocks: 100,
    };
    let (warnings, verdict) = storage().assert_pool_healthy(Some(rebuilding), &st);
    assert!(warnings[0].contains("is rebuilding its metadata"), "{warnings:?}");
    assert!(matches!(verdict, Err(Error::Pool(_))));
    assert!(matches!(storage().assert_pool_healthy(None, &st).1, Err(Error::Pool(_))));
}

#[test]
fn a_device_size_is_a_number() {
    assert_eq!(device_size_bytes("1048576\n").unwrap(), 1048576);
    let err = device_size_bytes("big\n").unwrap_err();
    assert!(err.to_string().contains("non-numeric size \"big\""), "{}", err.to_string());
}

#[test]
fn what_lies_there_decides_the_mode() {
    assert!(matches!(probe_mode(true, true), DmThinMode::File));
    assert!(matches!(probe_mode(false, false), DmThinMode::File));
    assert!(matches!(probe_mode(false, true), DmThinMode::RawDevice));
}

#[test]
fn an_active_volume_is_left_alone() {
    let s = storage();
    let (call, path) = s.ensure_thin_active("ember-a3f4-vm-a", 7, 2048, true);
    assert!(call.is_none());
    assert_eq!(path, "/dev/mapper/ember-a3f4-vm-a");
    let (call, _) = s.ensure_thin_active("ember-a3f4-vm-a", 7, 2048, false);
    assert!(call.unwrap().args.iter().any(|a| a.contains("thin /dev/mapper/ember-a3f4-pool 7")));
}

#[test]
fn a_failed_pool_is_taken_apart_again() {
    let steps = storage().ensure_pool_active(false, false);
    assert!(!steps.is_empty());
    let last = steps.last().unwrap();
    assert!(matches!(last.action, PoolAction::CreatePool(_, _) | PoolAction::AssertReadWrite | PoolAction::CheckMetadata(_)));
}

#[test]
fn a_failed_clone_leaves_nothing() {
    let steps = storage().clone_vm_storage(&vm_record("a", Some(7), 1), "b");
    let last = steps.last().unwrap();
    assert!(last.undo.iter().any(|a| matches!(a, PoolAction::DeleteNew)));
    let refused = storage().clone_vm_storage(&vm_record("a", None, 1), "b");
    assert!(matches!(refused.last().unwrap().action, PoolAction::Refuse(_)));
}

#[test]
fn destroying_goes_on_whatever_happens() {
    let steps = storage().destroy_vm_storage(&vm_record("a", Some(7), 1));
    assert_eq!(steps.len(), 3);
    assert!(steps.iter().all(|s| s.tolerate));
}

fn init_config() -> InitConfig {
    InitConfig {
        storage_backend: StorageKind::DmThin,
        state_dir: "/state".to_string(),
        instance_id: "a3f4".to_string(),
        pool: String::new(),
        dataset: String::new(),
        device: None,
        storage_path: Some("/pool".to_string()),
        btrfs_size: None,
        dm_thin_size: Some(ByteSize::parse("10G").unwrap()),
        dm_thin_metadata_size: None,
        dm_thin_block_size: None,
        dm_thin_mode: Some(DmThinMode::File),
        vdo: None,
    }
}

fn nothing_there() -> InitProbe {
    InitProbe {
        targets: "thin-pool        v1.22.0\n".to_string(),
        format_tool: false,
        data_exists: false,
        data_is_file: false,
        data_size: Err(Error::Config("no device".to_string())),
        metadata_exists: false,
    }
}

#[test]
fn a_pool_is_set_up_from_nothing() {
    let (steps, text) = DmThinStorage::init(&init_config(), &nothing_there(), Ok(1)).unwrap();
    assert_eq!(
        text,
        "dm-thin pool 'ember-a3f4-pool' active (10.0 GiB data capacity, 65536 B block size)."
    );
    assert!(matches!(
        &steps[1].action,
        PoolAction::SparseFile(p, n) if p == "/pool/metadata.img" && *n == 32 * 1024 * 1024
    ));
    assert!(matches!(
        &steps[3].action,
        PoolAction::SparseFile(p, n) if p == "/pool/data.img" && *n == 10 * 1024 * 1024 * 1024
    ));
    assert!(steps
        .last()
        .unwrap()
        .undo
        .iter()
        .any(|a| matches!(a, PoolAction::RemoveFile(p) if p == "/pool/data.img")));
    assert_eq!(torn_down_text("p"), "dm-thin pool 'p' torn down.");
    let config = vdo_config(10 << 30, 20 << 30);
    assert!(layer_text("v", config, 128)
        .starts_with("VDO volume 'v' active: 10.0 GiB physical, 20.0 GiB addressable, compression on"));
    assert_eq!(
        grown_layer_text("v", &config),
        "Grew VDO volume 'v' to 10.0 GiB physical, 20.0 GiB addressable."
    );
    assert_eq!(grown_text(2048), "Grew dm-thin pool data capacity to 1.0 MiB.");
}

#[test]
fn a_pool_that_cannot_be_is_refused() {
    let refused = |config: &InitConfig, probe: &InitProbe| {
        DmThinStorage::init(config, probe, Ok(1)).unwrap_err()
    };
    let mut config = init_config();
    config.storage_path = None;
    assert!(matches!(refused(&config, &nothing_there()), Error::Config(t) if t.contains("--storage-path")));
    let mut probe = nothing_there();
    probe.targets = "linear v1.4.0\n".to_string();
    assert!(matches!(refused(&init_config(), &probe), Error::Command { .. }));
    let mut config = init_config();
    config.dm_thin_mode = None;
    assert!(matches!(refused(&config, &nothing_there()), Error::Config(t) if t.contains("layout mode")));
    let no_tool = Err(Error::Config("no tool".to_string()));
    assert!(matches!(
        DmThinStorage::init(&init_config(), &nothing_there(), no_tool),
        Err(Error::Config(t)) if t == "no tool"
    ));
    let mut config = init_config();
    config.dm_thin_metadata_size = Some(ByteSize::parse("1G").unwrap());
    let no_tool = Err(Error::Config("no tool".to_string()));
    assert!(DmThinStorage::init(&config, &nothing_there(), no_tool).is_ok());
}
