//! What volumes and pools hold.

use ember::number::Fraction;
use ember::usage::{PoolUsage, StorageUsage, VolumeTable, VolumeUsage};

fn float(f: Fraction) -> f64 {
    f.num as f64 / f.den as f64
}

fn volume(exclusive: u64, referenced: Option<u64>, logical: Option<u64>) -> VolumeUsage {
    VolumeUsage {
        provisioned: 1024,
        exclusive,
        referenced,
        logical,
    }
}

#[test]
fn shared_is_the_gap_between_referenced_and_exclusive() {
    assert_eq!(volume(80, Some(100), None).shared(), Some(20));
    assert_eq!(volume(100, Some(100), None).shared(), Some(0));
}

/// Backends that cannot separate shared from exclusive report
/// nothing rather than claiming zero sharing.
#[test]
fn shared_is_unknown_without_referenced() {
    assert_eq!(volume(80, None, None).shared(), None);
}

/// `exclusive` is contractually within `referenced`, but the
/// saturating subtraction keeps a backend bug from producing a
/// wrapped, astronomically large shared figure.
#[test]
fn shared_saturates_instead_of_wrapping() {
    assert_eq!(volume(120, Some(100), None).shared(), Some(0));
}

#[test]
fn compression_ratio_divides_logical_by_referenced() {
    let r = volume(80, Some(100), Some(200)).compression_ratio();
    assert_eq!(r.map(float), Some(2.0));
}

/// An untouched volume would divide by zero. `None` renders as `-`
/// where an infinity would render as `inf`.
#[test]
fn compression_ratio_guards_empty_volume() {
    assert_eq!(volume(0, Some(0), Some(0)).compression_ratio().map(float), None);
    assert_eq!(volume(0, None, Some(200)).compression_ratio().map(float), None);
    assert_eq!(volume(0, Some(100), None).compression_ratio().map(float), None);
}

fn usage(pool: PoolUsage, volumes: &[VolumeUsage]) -> StorageUsage {
    let mut vms = VolumeTable::new();
    for (i, v) in volumes.iter().enumerate() {
        vms = vms.insert(format!("vm{i}"), *v);
    }
    StorageUsage {
        pool,
        vms,
        images: VolumeTable::new(),
    }
}

/// A layer below the pool cannot say which volume a block belongs
/// to, so the pool reports a logical size and no volume does. That
/// exact shape is what the CLI footnote keys off.
#[test]
fn volumes_above_compression_detects_a_layer_below_the_pool() {
    let compressed_pool = pool(400, 0, Some(800));
    let opaque = volume(1000, Some(400), None);
    assert!(usage(compressed_pool, &[opaque]).volumes_above_compression());
}

/// A backend that compresses within each volume reports both, and
/// its per-volume figures need no disclaimer.
#[test]
fn volumes_above_compression_is_false_when_volumes_report_their_own() {
    let compressed_pool = pool(400, 0, Some(800));
    let transparent = volume(1000, Some(400), Some(800));
    assert!(!usage(compressed_pool, &[transparent]).volumes_above_compression());
    // Mixed is not the shape either: one volume knowing is enough.
    let mixed = [
        volume(1000, Some(400), Some(800)),
        volume(1000, Some(1), None),
    ];
    assert!(!usage(compressed_pool, &mixed).volumes_above_compression());
}

/// A pool that does not compress at all has nothing to disclaim,
/// whatever its volumes report.
#[test]
fn volumes_above_compression_is_false_without_a_compressing_pool() {
    let plain = pool(400, 0, None);
    assert!(!usage(plain, &[volume(1000, Some(400), None)]).volumes_above_compression());
}

/// An install with no VMs and no images has no per-volume figures
/// to qualify, so there is nothing to say.
#[test]
fn volumes_above_compression_is_false_with_no_volumes() {
    assert!(!usage(pool(400, 0, Some(800)), &[]).volumes_above_compression());
}

#[test]
fn addressable_free_is_absent_unless_the_pool_over_promises() {
    assert_eq!(pool(400, 0, None).addressable_free(), None);
}

/// Headroom at the addressable level is measured against what has
/// been handed out, which is the logical figure, not the physical
/// bytes those blocks compressed down to.
#[test]
fn addressable_free_counts_what_is_still_unhanded_out() {
    let mut p = pool(400, 0, Some(800));
    p.addressable = Some(2000);
    assert_eq!(p.addressable_free(), Some(1200));
    assert_eq!(p.free(), 600);

    // Fully handed out, and not wrapping past it.
    p.logical = Some(2500);
    assert_eq!(p.addressable_free(), Some(0));
}

/// A pool that holds nothing has no ratio. Reporting `0.00x` reads
/// as catastrophic compression, and a compressing layer's own
/// metadata reserve makes that state reachable the moment a pool is
/// created.
#[test]
fn an_empty_compressing_pool_reports_no_ratio() {
    let mut p = pool(3_500, 0, Some(0));
    p.addressable = Some(8_000);
    assert_eq!(p.compression_ratio().map(float), None);
    assert_eq!(volume(1000, Some(400), Some(0)).compression_ratio().map(float), None);
}

fn pool(allocated: u64, reserved: u64, logical: Option<u64>) -> PoolUsage {
    PoolUsage {
        capacity: 1000,
        allocated,
        reserved,
        logical,
        addressable: None,
        metadata: None,
    }
}

#[test]
fn free_is_capacity_minus_allocated() {
    assert_eq!(pool(400, 0, None).free(), 600);
    // A pool reporting more allocated than capacity must not wrap.
    assert_eq!(pool(1200, 0, None).free(), 0);
}

/// Empty reservation is charged to the pool but has no logical
/// counterpart, so leaving it in the denominator understates
/// compression.
#[test]
fn pool_ratio_excludes_reservation() {
    let p = pool(300, 100, Some(400));
    assert_eq!(p.occupied(), 200);
    assert_eq!(p.compression_ratio().map(float), Some(2.0));
}

#[test]
fn pool_ratio_guards_fully_reserved_pool() {
    assert_eq!(pool(100, 100, Some(0)).compression_ratio().map(float), None);
    assert_eq!(pool(0, 0, Some(0)).compression_ratio().map(float), None);
    assert_eq!(pool(100, 0, None).compression_ratio().map(float), None);
}

#[test]
fn a_table_keeps_its_rows_in_the_order_of_their_names() {
    let v = volume(1, None, None);
    let w = volume(2, None, None);
    let table = VolumeTable::new()
        .insert("web".to_string(), v)
        .insert("db".to_string(), v)
        .insert("web".to_string(), w);
    assert_eq!(table.len(), 2);
    assert_eq!(table.row(0).name, "db");
    assert_eq!(table.row(1).name, "web");
    assert_eq!(table.get("web").unwrap().exclusive, 2);
    assert!(table.get("mail").is_none());
}
