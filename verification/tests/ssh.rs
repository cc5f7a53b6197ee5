//! Logging in.

use ember::cli::ssh::{exit_code, run, ssh_error, SshArgs};
use ember::macos_vm::MacosNetwork;
use ember::vm::{VmMetadata, VmStatus};

#[test]
fn the_record_says_how_to_log_in() {
    let mut m = VmMetadata::default_for_teardown();
    m.ssh.user = "ubuntu".to_string();
    m.ssh.key = "/keys/id".to_string();
    let mut network = MacosNetwork::new().setup();
    network.guest_ip = "10.0.0.2".to_string();
    let args = SshArgs {
        name: "web".to_string(),
        command: vec!["uptime".to_string()],
    };
    m.network = Some(network);
    m.status = VmStatus::Stopped;
    assert!(run(&args, &m).is_err());
    m.status = VmStatus::Running;
    let call = run(&args, &m).unwrap();
    assert_eq!(call.program, "ssh");
    assert_eq!(call.args[6..], ["-i", "/keys/id", "ubuntu@10.0.0.2", "uptime"]);
}

#[test]
fn the_code_of_the_call_is_handed_on() {
    assert_eq!(exit_code(Some(0)), None);
    assert_eq!(exit_code(Some(3)), Some(3));
    assert_eq!(exit_code(None), Some(1));
    assert!(ssh_error("no such file").starts_with("failed to execute ssh: no such file\n"));
}
