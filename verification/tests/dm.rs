//! Calls of the device mapper.

use ember::dm::{
    create, device_path, has_target, is_already_exists, is_busy, is_invalid_argument, list_with_prefix,
    reload,
};
use ember::error::Error;

/// Regression: mirror an actual `dmsetup message` failure line so a
/// future glibc/lvm2 wording change is loud, not silent. Captured
/// from a Linux 6.1 / lvm2 2.03 host attempting `create_thin` with
/// a duplicate id.
#[test]
fn matches_dmsetup_eexist_message() {
    let err = Error::Command {
        command: "dmsetup".to_string(),
        exit_code: 1,
        stderr: "device-mapper: message ioctl on ember-pool failed: File exists\n".to_string(),
    };
    assert!(is_already_exists(&err));
}

#[test]
fn rejects_unrelated_errors() {
    let err = Error::Command {
        command: "dmsetup".to_string(),
        exit_code: 1,
        stderr: "device-mapper: reload ioctl on ember-pool failed: Invalid argument\n"
            .to_string(),
    };
    assert!(!is_already_exists(&err));
    assert!(is_invalid_argument(&err));
}

#[test]
fn rejects_non_command_errors() {
    let err = Error::Vm("File exists somewhere else in the system".to_string());
    assert!(!is_already_exists(&err));
    assert!(!is_busy(&err));
    assert!(!is_invalid_argument(&err));
}

/// Companion to [`matches_dmsetup_eexist_message`], pinning the
/// wording `reserve_metadata_snap` fails with when a snapshot is
/// already held.
#[test]
fn matches_dmsetup_ebusy_message() {
    let err = Error::Command {
        command: "dmsetup".to_string(),
        exit_code: 1,
        stderr: "device-mapper: message ioctl on ember-pool failed: Device or resource busy\n"
            .to_string(),
    };
    assert!(is_busy(&err));
    assert!(!is_already_exists(&err));
}

/// `thin` is a prefix of `thin-pool`, so a substring match against
/// the whole listing would claim `thin-pool` is present on a kernel
/// that only has `thin`.
#[test]
fn target_match_is_exact_not_substring() {
    let listing = "thin             v1.23.0\nstriped          v1.6.0\n";
    assert!(has_target(listing, "thin"));
    assert!(!has_target(listing, "thin-pool"));
    assert!(!has_target(listing, "vdo"));
}

#[test]
fn finds_target_anywhere_in_listing() {
    let listing = "striped          v1.6.0\nvdo              v9.1.0\nlinear v1.4.0\n";
    assert!(has_target(listing, "vdo"));
}

#[test]
fn devices_are_found_by_the_start_of_their_name() {
    let listing = "ember-vm-a\t(253, 1)\nother\t(253, 2)\nember-vm-b\t(253:3)\n";
    assert_eq!(list_with_prefix(listing, "ember-vm-"), vec!["ember-vm-a", "ember-vm-b"]);
    assert!(list_with_prefix("No devices found\n", "ember").is_empty());
}

#[test]
fn calls_name_the_device_and_the_table() {
    let call = create("ember-pool", "0 8 linear /dev/sda 0");
    assert_eq!(call.program, "dmsetup");
    assert_eq!(call.args[0], "create");
    assert_eq!(call.args[1], "ember-pool");
    assert_eq!(device_path("ember-pool"), "/dev/mapper/ember-pool");
    let steps = reload("ember-pool", "t");
    assert_eq!(steps[0].action.args[0], "suspend");
    assert_eq!(steps.last().unwrap().action.args[0], "resume");
}

#[test]
fn what_cannot_be_started_is_called_by_its_verb() {
    let call = create("d", "0 1 zero");
    assert_eq!(call.label, "dmsetup create d");
    assert_eq!(call.start_label, "dmsetup create");
    assert_eq!(call.args, ["create", "d", "--table", "0 1 zero"]);
    let call = ember::thin::activate("v", "p", 3, 8);
    assert_eq!((call.label.as_str(), call.start_label.as_str()), ("dmsetup create thin", "dmsetup create"));
    let call = ember::zfs::volume::set_volsize("tank/v", 8);
    assert_eq!((call.label.as_str(), call.start_label.as_str()), ("zfs set volsize", "zfs set"));
}
