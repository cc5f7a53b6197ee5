//! Which side of a copy is where.

use ember::cli::cp::{login, parse_path, run, transfer, CpArgs, Transfer};
use ember::vm::{VmMetadata, VmStatus};

#[test]
fn parse_remote_path() {
    assert_eq!(parse_path("myvm:/etc/hosts"), (Some("myvm"), "/etc/hosts"));
}

#[test]
fn parse_local_path() {
    assert_eq!(parse_path("/tmp/file.txt"), (None, "/tmp/file.txt"));
}

#[test]
fn parse_relative_local_path() {
    assert_eq!(parse_path("file.txt"), (None, "file.txt"));
}

#[test]
fn parse_leading_colon() {
    assert_eq!(parse_path(":/weird"), (None, ":/weird"));
}

#[test]
fn parse_remote_empty_path() {
    assert_eq!(parse_path("myvm:"), (Some("myvm"), ""));
}

fn copy(src: &str, dst: &str) -> CpArgs {
    CpArgs {
        src: src.to_string(),
        dst: dst.to_string(),
    }
}

#[test]
fn exactly_one_side_is_remote() {
    let up = run(&copy("notes.txt", "web:/tmp/")).unwrap();
    assert_eq!(up.vm_name, "web");
    assert_eq!(up.local_path, "notes.txt");
    assert_eq!(up.remote_path, "/tmp/");
    assert!(up.uploading);
    let down = run(&copy("web:/etc/hosts", ".")).unwrap();
    assert!(!down.uploading);
    assert_eq!(down.remote_path, "/etc/hosts");
    assert!(run(&copy("a", "b")).is_err());
    assert!(run(&copy("a:/x", "b:/y")).is_err());
}

#[test]
fn directories_are_copied_as_such() {
    let up = run(&copy("/tmp/x", "web:/x")).unwrap();
    let down = run(&copy("web:/x", "/tmp/x")).unwrap();
    assert_eq!(transfer(&up, false), Transfer::Upload);
    assert_eq!(transfer(&up, true), Transfer::UploadDir);
    assert_eq!(transfer(&down, false), Transfer::Download);
    assert_eq!(transfer(&down, true), Transfer::DownloadDir);
}

#[test]
fn files_are_copied_as_the_user_of_the_machine() {
    let up = run(&copy("/tmp/x", "web:/x")).unwrap();
    let mut m = VmMetadata::default_for_teardown();
    m.ssh.user = "ubuntu".to_string();
    m.ssh.key = "/keys/id".to_string();
    m.status = VmStatus::Paused;
    assert_eq!(
        login(&up, &m).unwrap_err(),
        "vm 'web' is paused — start it first with: ember vm start web"
    );
    m.status = VmStatus::Running;
    let mut network = ember::macos_vm::MacosNetwork::new().setup();
    network.guest_ip = "10.0.0.2".to_string();
    m.network = Some(network);
    let l = login(&up, &m).unwrap();
    assert_eq!((l.guest_ip.as_str(), l.user.as_str(), l.key.as_str()), ("10.0.0.2", "ubuntu", "/keys/id"));
}
