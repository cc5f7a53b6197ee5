//! How well disks share what they have in common.

use ember::cli::debug::{
    count_img_files, format_bytes, get_volume_used_bytes, read_used_kib, storage_efficiency, tally,
    VmDir,
};
use ember::macos_storage::DirEntry;

fn file(name: &str, len: u64) -> DirEntry {
    DirEntry {
        file_name: name.to_string(),
        modified: 0,
        len,
    }
}

#[test]
fn disks_are_counted_by_kind() {
    let images = vec![file("a.img", 1_500_000_000), file("a.json", 7), file(".img", 9)];
    assert_eq!(count_img_files(&images), (1, 1_500_000_000));
    let vms = vec![
        VmDir {
            is_dir: true,
            rootfs: Some(2_000_000_000),
            snapshots: Some(vec![file("s.img", 500_000_000), file("t.img", 0)]),
        },
        VmDir {
            is_dir: true,
            rootfs: None,
            snapshots: None,
        },
        VmDir {
            is_dir: false,
            rootfs: Some(5),
            snapshots: None,
        },
    ];
    let counts = tally(&images, &vms);
    assert_eq!((counts.vm_count, counts.vm_bytes), (1, 2_000_000_000));
    assert_eq!((counts.snap_count, counts.snap_bytes), (2, 500_000_000));
    assert_eq!(
        storage_efficiency(counts, Some(1_000_000_000)),
        [
            "",
            "Storage Efficiency Report",
            "────────────────────────────────────────",
            "Images:          1 (1.5 GB logical)",
            "VMs:             1 (2.0 GB logical)",
            "Snapshots:       2 (500.0 MB logical)",
            "                   ──────────────────────",
            "Total logical:     4.0 GB",
            "Actual disk used:  1.0 GB (via df)",
            "CoW efficiency:    4.0x space savings",
            "",
        ]
    );
    let lines = storage_efficiency(counts, None);
    assert_eq!(lines[8], "Actual disk used:  (could not determine)");
}

#[test]
fn volumes_are_read() {
    let out = "Filesystem 1024-blocks Used Available\n/dev/disk1 1000 250 750\n";
    assert_eq!(read_used_kib(out), Some(250));
    assert_eq!(get_volume_used_bytes(out), Some(256_000));
    assert_eq!(get_volume_used_bytes("Filesystem\n"), None);
    assert_eq!(get_volume_used_bytes("Filesystem\n/dev/disk1 1000 x\n"), None);
}

#[test]
fn sizes_are_shown_in_thousands() {
    assert_eq!(format_bytes(999), "999 B");
    assert_eq!(format_bytes(1_000), "1.0 KB");
    assert_eq!(format_bytes(1_250_000), "1.2 MB");
    assert_eq!(format_bytes(1_350_000), "1.4 MB");
}
