//! Thin volumes.

use ember::error::Error;
use ember::thin::{
    after_allocation, fresh_thin_id, image_dm_name, image_staging_dm_name, sanitize_dm_name, thin_table,
    vm_dm_name, Allocation,
};

#[test]
fn fresh_thin_id_is_nonzero() {
    for _ in 0..100 {
        assert_ne!(fresh_thin_id(), 0);
    }
}

#[test]
fn fresh_thin_id_distribution() {
    // Crude: 100 random u64s should all be distinct in practice.
    let ids: std::collections::HashSet<u64> =
        (0..100).map(|_| fresh_thin_id()).collect();
    assert_eq!(ids.len(), 100);
}

#[test]
fn thin_table_shape() {
    let t = thin_table("ember-pool", 42, 16_777_216);
    assert_eq!(t, "0 16777216 thin /dev/mapper/ember-pool 42");
}

#[test]
fn dm_names() {
    assert_eq!(vm_dm_name("myvm"), "ember-vm-myvm");
    assert_eq!(image_dm_name("library-alpine-latest"),
               "ember-img-library-alpine-latest");
    assert_eq!(image_staging_dm_name("foo"), "ember-img-foo-staging");
}

#[test]
fn sanitize_keeps_safe_chars() {
    assert_eq!(sanitize_dm_name("alpine_3.18-edge"), "alpine_3_18-edge");
    assert_eq!(sanitize_dm_name("my/vm:1"), "my_vm_1");
}

#[test]
fn a_taken_id_is_tried_again() {
    let taken = Error::Command {
        command: "dmsetup message".to_string(),
        exit_code: 1,
        stderr: "device-mapper: message ioctl on ember-pool failed: File exists".to_string(),
    };
    assert!(matches!(after_allocation(7, Err(taken)), Allocation::Again));
    assert!(matches!(after_allocation(7, Ok(())), Allocation::Done(7)));
    let other = Error::Pool("gone".to_string());
    assert!(matches!(after_allocation(7, Err(other)), Allocation::Failed(Error::Pool(_))));
}
