//! The compression layer below a pool.

use ember::error::Error;
use ember::number::{format_size, Fraction};
use ember::vdo::{
    align_down, assert_healthy, assert_read_write, check_growth, check_logical_size,
    check_physical_size, ensure_format_tool, ensure_target_loaded, explain_einval, name, parse_stats,
    parse_status, ram_estimate_bytes, scale_logical, table, warnings, IndexMemory, Params, VdoMode,
    BLOCK_SIZE, MAX_LOGICAL_BYTES, MAX_PHYSICAL_BYTES, MIN_PHYSICAL_BYTES, SLAB_BYTES,
};

fn float(f: Fraction) -> f64 {
    f.num as f64 / f.den as f64
}

const MIB: u64 = 1024 * 1024;
const GIB: u64 = 1024 * MIB;
const TIB: u64 = 1024 * GIB;

fn params(logical: u64, physical: u64) -> Params {
    Params {
        logical_size: logical,
        physical_size: physical,
        deduplication: false,
        max_discard_blocks: 16,
    }
}

#[test]
fn table_matches_documented_shape() {
    let t = table("/dev/loop3", &params(2 * GIB, GIB));
    assert_eq!(
        t,
        "0 4194304 vdo V4 /dev/loop3 262144 4096 32768 16380 \
         compression on deduplication off maxDiscard 16"
    );
}

/// Compression is the reason the layer exists and the kernel
/// defaults it off, so it must always be in the table.
#[test]
fn table_always_enables_compression() {
    let mut p = params(GIB, GIB);
    p.deduplication = true;
    let t = table("/dev/loop0", &p);
    assert!(t.contains("compression on"), "{t}");
    assert!(t.contains("deduplication on"), "{t}");
}

/// The kernel rejects maxDiscard 0. A pool block size below 4 KiB
/// is not reachable today, but the floor keeps a future one from
/// producing an unloadable table.
#[test]
fn table_floors_max_discard_at_one() {
    let mut p = params(GIB, GIB);
    p.max_discard_blocks = 0;
    assert!(table("/dev/loop0", &p).ends_with("maxDiscard 1"));
}

#[test]
fn index_memory_rounds_up_to_accepted_values() {
    // Below a terabyte lands on the fractional settings.
    assert_eq!(IndexMemory::for_physical_size(32 * GIB).arg(), "0.25");
    assert_eq!(IndexMemory::for_physical_size(256 * GIB).arg(), "0.25");
    assert_eq!(IndexMemory::for_physical_size(257 * GIB).arg(), "0.5");
    assert_eq!(IndexMemory::for_physical_size(512 * GIB).arg(), "0.5");
    assert_eq!(IndexMemory::for_physical_size(600 * GIB).arg(), "0.75");
    // At and above a terabyte, whole gigabytes only.
    assert_eq!(IndexMemory::for_physical_size(TIB).arg(), "1");
    assert_eq!(IndexMemory::for_physical_size(TIB + 1).arg(), "2");
    assert_eq!(IndexMemory::for_physical_size(4 * TIB).arg(), "4");
}

/// An empty or absurd pool still has to produce something the tool
/// accepts.
#[test]
fn index_memory_is_clamped_at_both_ends() {
    assert_eq!(IndexMemory::for_physical_size(0).arg(), "0.25");
    assert_eq!(IndexMemory::for_physical_size(u64::MAX).arg(), "1024");
}

#[test]
fn index_memory_ram_matches_its_setting() {
    assert_eq!(
        IndexMemory::for_physical_size(32 * GIB).ram_bytes(),
        GIB / 4
    );
    assert_eq!(IndexMemory::for_physical_size(2 * TIB).ram_bytes(), 2 * GIB);
}

#[test]
fn scale_logical_preserves_one_to_one() {
    assert_eq!(scale_logical(300 * GIB, 300 * GIB, 600 * GIB), 600 * GIB);
}

#[test]
fn scale_logical_preserves_over_provisioning() {
    assert_eq!(scale_logical(300 * GIB, 600 * GIB, 600 * GIB), 1200 * GIB);
    // A ratio that does not divide evenly still scales, rounded
    // down to a whole block.
    let scaled = scale_logical(300 * GIB, 450 * GIB, 500 * GIB);
    assert_eq!(scaled, 750 * GIB);
    assert_eq!(scaled % BLOCK_SIZE, 0);
}

/// `old_logical * new_physical` overflows `u64` above a few
/// terabytes, which is why the arithmetic goes through `u128`.
#[test]
fn scale_logical_survives_petabyte_inputs() {
    let pib = 1024 * TIB;
    assert_eq!(scale_logical(pib, 2 * pib, 2 * pib), 4 * pib);
}

#[test]
fn scale_logical_never_shrinks() {
    // Physical staying put must not round logical down.
    assert_eq!(scale_logical(300 * GIB, 300 * GIB, 300 * GIB), 300 * GIB);
    // A degenerate recorded size cannot produce a shrink either.
    assert_eq!(scale_logical(0, 300 * GIB, 600 * GIB), 300 * GIB);
}

#[test]
fn growth_must_not_shrink_either_dimension() {
    let old = params(300 * GIB, 300 * GIB);
    assert!(check_growth(&old, &params(300 * GIB, 200 * GIB)).is_err());
    assert!(check_growth(&old, &params(200 * GIB, 300 * GIB)).is_err());
}

/// Physical space grows a whole slab at a time. The kernel's own
/// ~128 MiB floor is the looser of the two rules at our slab size,
/// so the slab rule is what actually rejects things.
#[test]
fn growth_must_clear_a_whole_slab() {
    let old = params(300 * GIB, 300 * GIB);
    for too_small in [64 * 1024 * 1024, 300 * 1024 * 1024, SLAB_BYTES - 1] {
        let err = check_growth(&old, &params(300 * GIB, 300 * GIB + too_small))
            .unwrap_err()
            .to_string();
        assert!(err.contains("slab"), "{too_small}: {err}");
    }
    assert!(check_growth(&old, &params(300 * GIB, 300 * GIB + SLAB_BYTES)).is_ok());
    assert!(check_growth(&old, &params(300 * GIB, 600 * GIB)).is_ok());
}

#[test]
fn growth_is_capped_at_the_kernel_logical_maximum() {
    let old = params(300 * GIB, 300 * GIB);
    let over = params(MAX_LOGICAL_BYTES + BLOCK_SIZE, 300 * GIB);
    assert!(check_growth(&old, &over).is_err());
    assert!(check_growth(&old, &params(MAX_LOGICAL_BYTES, 300 * GIB)).is_ok());
}

#[test]
fn align_down_truncates_to_whole_blocks() {
    assert_eq!(align_down(0), 0);
    assert_eq!(align_down(BLOCK_SIZE), BLOCK_SIZE);
    assert_eq!(align_down(BLOCK_SIZE - 1), 0);
    assert_eq!(align_down(BLOCK_SIZE + 512), BLOCK_SIZE);
    // A K-suffixed size that is not a multiple of 4.
    assert_eq!(align_down(1025 * 1024), 1024 * 1024);
}

/// The error has to distinguish the minimum from the request, which
/// a GiB-only formatter could not: both rendered as "0.1 GiB".
#[test]
fn size_formatting_scales_to_the_value() {
    assert_eq!(format_size(64 * 1024 * 1024), "64.0 MiB");
    assert_eq!(format_size(SLAB_BYTES), "2.0 GiB");
    assert_eq!(format_size(3 * 1024 * GIB), "3.0 TiB");
    assert_eq!(format_size(512), "512 B");
}

/// Growing only the logical side leaves physical untouched, which
/// must not trip the minimum-growth check.
#[test]
fn logical_only_growth_is_allowed() {
    let old = params(300 * GIB, 300 * GIB);
    assert!(check_growth(&old, &params(600 * GIB, 300 * GIB)).is_ok());
}

#[test]
fn physical_size_bounds_are_enforced() {
    assert!(check_physical_size(MIN_PHYSICAL_BYTES).is_ok());
    assert!(check_physical_size(MIN_PHYSICAL_BYTES - 1).is_err());
    assert!(check_physical_size(MAX_PHYSICAL_BYTES).is_ok());
    assert!(check_physical_size(MAX_PHYSICAL_BYTES + 1).is_err());
    // The cap is the kernel's 8192 slabs, which at 2 GiB is 16 TiB.
    assert_eq!(MAX_PHYSICAL_BYTES, 16 * TIB);
}

/// A logical size small enough to round to zero would mean
/// "default to physical" to `vdoformat` and a zero-length device in
/// the table, which disagree.
#[test]
fn logical_size_bounds_are_enforced() {
    assert!(check_logical_size(MIN_PHYSICAL_BYTES).is_ok());
    assert!(check_logical_size(1024).is_err());
    assert!(check_logical_size(align_down(1024)).is_err());
    assert!(check_logical_size(MAX_LOGICAL_BYTES).is_ok());
    assert!(check_logical_size(MAX_LOGICAL_BYTES + BLOCK_SIZE).is_err());
}

/// The floor exists so that the default 1:1 sizing is not secretly
/// a bet on compression. Pin the reasoning: the metadata reserve
/// must stay a small enough slice that break-even is easy.
#[test]
fn floor_keeps_the_one_to_one_default_safe() {
    const RESERVE: f64 = 3.0 * 1000.0 * 1000.0 * 1000.0;
    let physical = MIN_PHYSICAL_BYTES as f64;
    let break_even = physical / (physical - RESERVE);
    assert!(
        break_even < 1.2,
        "break-even ratio {break_even} is too high"
    );
}

/// Shaped like the real `stats` response: a brace-delimited blob of
/// `key : value` pairs with nested groups for per-subsystem
/// counters. Numbers are from a 60 GiB pool holding a 6.7 GiB
/// Ubuntu image.
const STATS_BLOB: &str = "{ version : 41, releaseVersion : 133524, \
    dataBlocksUsed : 692060, overheadBlocksUsed : 1061683, \
    logicalBlocksUsed : 1746109, physicalBlocks : 15728640, \
    logicalBlocks : 15728640, blockMapCacheSize : 134217728, \
    blockSize : 4096, completeRecoveries : 0, mode : normal, \
    allocator : { slabCount : 28, slabsOpened : 1, slabsReopened : 0 }, \
    journal : { started : 12, written : 12, committed : 12 } }";

#[test]
fn parses_the_stats_response() {
    let st = parse_stats(STATS_BLOB).unwrap();
    assert_eq!(st.data_blocks, 692_060);
    assert_eq!(st.overhead_blocks, 1_061_683);
    assert_eq!(st.physical_blocks, 15_728_640);
    assert_eq!(st.data_bytes(), 692_060 * 4096);
    assert_eq!(st.overhead_bytes(), 1_061_683 * 4096);
    assert_eq!(st.used_bytes(), (692_060 + 1_061_683) * 4096);
    assert_eq!(st.total_bytes(), 60 * 1024 * 1024 * 1024);
}

/// The nested groups reuse short key names, so a substring match
/// would pick up the wrong number. Keys are compared whole.
#[test]
fn stats_keys_are_matched_whole_not_by_substring() {
    let st = parse_stats(STATS_BLOB).unwrap();
    // `logicalBlocks` sits next to `logicalBlocksUsed`, and
    // `physicalBlocks` must not be read from either.
    assert_eq!(st.physical_blocks, 15_728_640);
    // A blob whose only match is a longer key must not resolve.
    let decoy = "{ metadataBlocksUsed : 5, overheadBlocksUsed : 7, physicalBlocks : 9 }";
    assert!(parse_stats(decoy).is_err(), "dataBlocksUsed is absent");
}

/// A missing or unparseable field is a hard error. Silently
/// reporting no overhead would divide the compression ratio by
/// several gigabytes of metadata and understate it to about 1.00x.
#[test]
fn stats_rejects_a_response_it_cannot_trust() {
    assert!(parse_stats("").is_err());
    assert!(parse_stats("{ dataBlocksUsed : 1, physicalBlocks : 2 }").is_err());
    assert!(
        parse_stats("{ dataBlocksUsed : x, overheadBlocksUsed : 1, physicalBlocks : 2 }")
            .is_err()
    );
}

fn status_line(mode: &str, used: u64, total: u64) -> String {
    format!("0 4194304 vdo ember-a3f4-vdo {mode} - online online {used} {total}")
}

#[test]
fn parses_a_normal_status_line() {
    let st = parse_status(&status_line("normal", 1000, 10_000)).unwrap();
    assert_eq!(st.mode, VdoMode::Normal);
    assert!(st.compression_online);
    assert_eq!(st.used_bytes(), 1000 * 4096);
    assert_eq!(st.total_bytes(), 10_000 * 4096);
    assert!((float(st.full_fraction()) - 0.1).abs() < 1e-9);
}

#[test]
fn parses_every_operating_mode() {
    for (text, expected) in [
        ("normal", VdoMode::Normal),
        ("recovering", VdoMode::Recovering),
        ("read-only", VdoMode::ReadOnly),
    ] {
        let st = parse_status(&status_line(text, 0, 1)).unwrap();
        assert_eq!(st.mode, expected, "{text}");
    }
}

/// Deduplication off leaves the index offline, which is normal and
/// must not be confused with compression being off, which is not.
#[test]
fn separates_an_offline_index_from_offline_compression() {
    let dedup_off = "0 4194304 vdo ember-a3f4-vdo normal - offline online 5 100";
    assert!(parse_status(dedup_off).unwrap().compression_online);
    assert!(warnings("v", &parse_status(dedup_off).unwrap()).is_empty());

    let compression_off = "0 4194304 vdo ember-a3f4-vdo normal - online offline 5 100";
    let st = parse_status(compression_off).unwrap();
    assert!(!st.compression_online);
    let w = warnings("v", &st);
    assert_eq!(w.len(), 1, "{w:?}");
    assert!(w[0].contains("compression is switched off"), "{w:?}");
}

/// A line from a different target, a truncated line, or an
/// operating mode we do not know must fail loudly rather than be
/// read as zero usage.
#[test]
fn rejects_lines_it_cannot_trust() {
    assert!(parse_status("0 100 thin-pool 0 1/2 3/4 - rw").is_err());
    assert!(parse_status("0 4194304 vdo dev normal - online online 5").is_err());
    assert!(parse_status(&status_line("melted", 0, 1)).is_err());
    assert!(parse_status(
        &status_line("normal", 0, 1).replace("online online 0", "online online x")
    )
    .is_err());
}

#[test]
fn empty_volume_reports_zero_fullness_not_a_division_by_zero() {
    let st = parse_status(&status_line("normal", 0, 0)).unwrap();
    assert_eq!(float(st.full_fraction()), 0.0);
    assert!(assert_healthy("v", &st).is_ok());
}

#[test]
fn read_only_is_refused_whatever_the_usage() {
    let st = parse_status(&status_line("read-only", 0, 10_000)).unwrap();
    let err = assert_healthy("v", &st).unwrap_err().to_string();
    assert!(err.contains("vdoforcerebuild"), "{err}");
}

/// Recovering is slow, not fatal: VDO repairs itself online. It
/// still gets said out loud, since nothing else would mention it.
#[test]
fn recovering_warns_but_does_not_refuse() {
    let st = parse_status(&status_line("recovering", 10, 10_000)).unwrap();
    assert!(assert_healthy("v", &st).is_ok());
    let w = warnings("v", &st);
    assert_eq!(w.len(), 1, "{w:?}");
    assert!(w[0].contains("rebuilding"), "{w:?}");
}

#[test]
fn fullness_bands_refuse_warn_and_pass() {
    // Refused, and not also warned about: the error already said it.
    let refused = parse_status(&status_line("normal", 9_500, 10_000)).unwrap();
    assert!(assert_healthy("v", &refused).is_err());
    assert!(warnings("v", &refused).is_empty());

    let warned = parse_status(&status_line("normal", 8_500, 10_000)).unwrap();
    assert!(assert_healthy("v", &warned).is_ok());
    assert_eq!(warnings("v", &warned).len(), 1);

    let fine = parse_status(&status_line("normal", 8_499, 10_000)).unwrap();
    assert!(assert_healthy("v", &fine).is_ok());
    assert!(warnings("v", &fine).is_empty());
}

#[test]
fn names_embed_the_namespace() {
    assert_eq!(name(Some("a3f4")), "ember-a3f4-vdo");
    assert_eq!(name(None), "ember-vdo");
}

/// Not a precise figure, but it has to land in the right order of
/// magnitude or printing it would mislead rather than inform.
#[test]
fn ram_estimate_is_plausible() {
    let ram = ram_estimate_bytes(&params(300 * GIB, 300 * GIB), IndexMemory(1));
    assert!(
        (200 * 1024 * 1024..400 * 1024 * 1024).contains(&ram),
        "{ram} bytes"
    );
    // Deduplication adds its index, physical size dominates at scale.
    let mut big = params(4 * TIB, 4 * TIB);
    big.deduplication = true;
    assert!(ram_estimate_bytes(&big, IndexMemory::for_physical_size(4 * TIB)) > 5 * GIB);
}

#[test]
fn a_missing_tool_or_target_is_told() {
    assert!(ensure_format_tool(true).is_ok());
    assert!(ensure_format_tool(false).is_err());
    assert!(ensure_target_loaded("vdo v9.1.0\n").is_ok());
    assert!(ensure_target_loaded("linear v1.4.0\n").is_err());
}

#[test]
fn a_rejected_table_is_explained() {
    let e = Error::Command {
        command: "dmsetup create".to_string(),
        exit_code: 1,
        stderr: "device-mapper: reload ioctl on x failed: Invalid argument".to_string(),
    };
    let told = explain_einval(e, "ember-vdo", "/dev/loop3", &params(64 * GIB, 32 * GIB));
    assert!(told.to_string().contains("/dev/loop3"), "{}", told.to_string());
    let other = Error::Pool("gone".to_string());
    assert_eq!(explain_einval(other.clone(), "v", "b", &params(GIB, GIB)), other);
}

#[test]
fn only_read_only_stops_a_mount() {
    let st = parse_status(&status_line("read-only", 0, 10)).unwrap();
    assert!(assert_read_write("v", &st).is_err());
    let st = parse_status(&status_line("recovering", 10, 10)).unwrap();
    assert!(assert_read_write("v", &st).is_ok());
}

/// The bounds are those of the division in double precision, which agrees with
/// the exact one at every hundredth.
#[test]
fn fullness_bounds_are_exact() {
    for (used, total, healthy) in [(94, 100, true), (95, 100, false), (949, 1000, true)] {
        let st = parse_status(&status_line("normal", used, total)).unwrap();
        assert_eq!(assert_healthy("v", &st).is_ok(), healthy, "{used}/{total}");
        assert_eq!(used as f64 / total as f64 >= 0.95, !healthy);
    }
}
