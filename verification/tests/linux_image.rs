//! Images made on Linux.

use ember::error::Error;
use ember::linux_image::{create, create_sparse_file, estimate_size_mib, ImageAction};

#[test]
fn estimate_minimum_64_mib() {
    let size = estimate_size_mib("1\t/tmp/tiny\n").unwrap();
    assert!(size >= 64, "minimum size should be 64 MiB, got {size}");
}

#[test]
fn an_image_has_half_as_much_again() {
    assert_eq!(estimate_size_mib("1000\t/rootfs\n").unwrap(), 1500);
    assert!(matches!(estimate_size_mib(""), Err(Error::Image(_))));
    assert!(matches!(estimate_size_mib("x /rootfs"), Err(Error::Image(_))));
}

#[test]
fn an_image_is_unmounted_whatever_happens() {
    assert_eq!(create_sparse_file("/i.img", 64).args, vec!["-s", "64M", "/i.img"]);
    let steps = create("/rootfs", "/i.img", 64);
    let copied = steps
        .iter()
        .find(|s| match &s.action {
            ImageAction::Run(call) => call.program == "cp",
            _ => false,
        })
        .unwrap();
    assert!(copied.undo.iter().any(|a| match a {
        ImageAction::Run(call) => call.program == "umount",
        _ => false,
    }));
}
