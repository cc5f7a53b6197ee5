//! Commands that a shell takes apart again.

use ember::cli::exec::{run, shell_escape_join, ExecArgs};
use ember::vm::{VmMetadata, VmStatus};

#[test]
fn simple_command() {
    let args = vec!["ls".to_string(), "-la".to_string()];
    assert_eq!(shell_escape_join(&args), "ls -la");
}

#[test]
fn command_with_spaces() {
    let args = vec!["echo".to_string(), "hello world".to_string()];
    assert_eq!(shell_escape_join(&args), "echo 'hello world'");
}

#[test]
fn command_with_single_quotes() {
    let args = vec!["echo".to_string(), "it's".to_string()];
    assert_eq!(shell_escape_join(&args), "echo 'it'\\''s'");
}

#[test]
fn command_with_special_chars() {
    let args = vec!["bash".to_string(), "-c".to_string(), "echo $HOME".to_string()];
    assert_eq!(shell_escape_join(&args), "bash -c 'echo $HOME'");
}

#[test]
fn empty_argument() {
    let args = vec!["cmd".to_string(), "".to_string()];
    assert_eq!(shell_escape_join(&args), "cmd ''");
}

#[test]
fn commands_run_where_the_record_says() {
    let mut args = ExecArgs {
        vm_name: "web".to_string(),
        user: None,
        command: vec!["echo".to_string(), "a b".to_string()],
    };
    let mut m = VmMetadata::default_for_teardown();
    m.status = VmStatus::Paused;
    assert_eq!(
        run(&args, &m).unwrap_err(),
        "vm 'web' is paused — start it first with: ember vm start web"
    );
    m.status = VmStatus::Running;
    assert_eq!(
        run(&args, &m).unwrap_err(),
        "vm 'web' has no network configured — cannot connect via SSH"
    );
    let mut network = ember::macos_vm::MacosNetwork::new().setup();
    network.guest_ip = "10.0.0.2".to_string();
    m.network = Some(network);
    m.ssh.user = "ubuntu".to_string();
    m.ssh.key = "/keys/id".to_string();
    let remote = run(&args, &m).unwrap();
    assert_eq!((remote.guest_ip.as_str(), remote.user.as_str()), ("10.0.0.2", "ubuntu"));
    assert_eq!((remote.key.as_str(), remote.command.as_str()), ("/keys/id", "echo 'a b'"));
    args.user = Some("root".to_string());
    assert_eq!(run(&args, &m).unwrap().user, "root");
}
