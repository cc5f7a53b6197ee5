//! Machines and storage on macOS.

use ember::error::Error;
use ember::macos_image::{create, estimate_size_mib, mkfs_ext4_from_dir, ownership_file};
use ember::macos_storage::{
    apfs_clone_error, check_apfs_volume, check_call, find_e2fsprogs_tool, inject_ssh_key, is_apfs,
    key_injected, parse_debugfs_uid_gid, read_passwd_uid_gid, slow_clone_warning, ssh_user, write_key, DirEntry, FileAction, MacosStorage,
};
use ember::macos_vm::{
    continue_stop, read_mac_from_ready_fd, MacosNetwork, MacosVm, Ready, Signal, StopAction,
    StopState,
};
use ember::size::ByteSize;
use ember::vm::VmMetadata;

fn storage() -> MacosStorage {
    MacosStorage {
        state_dir: "/state".to_string(),
    }
}

#[test]
fn a_machine_that_does_not_stop_is_killed() {
    let mut vm = VmMetadata::default_for_teardown();
    vm.name = "web".to_string();
    assert!(matches!(MacosVm::stop(&vm, true), Err(Error::Network(_))));
    vm.pid = Some(7);
    assert!(matches!(MacosVm::stop(&vm, false), Ok((StopState::Stopped, StopAction::Done))));
    assert!(matches!(MacosVm::force_stop(&vm, true).unwrap().1, StopAction::Kill(7)));
    let (state, action) = MacosVm::stop(&vm, true).unwrap();
    assert!(matches!(action, StopAction::Terminate(7)));
    let (state, action) = continue_stop(state, true);
    assert!(matches!(action, StopAction::Wait(7, 10000)));
    let (state, action) = continue_stop(state, false);
    assert!(matches!(action, StopAction::Kill(7)));
    let (state, action) = continue_stop(state, true);
    assert!(matches!(action, StopAction::Wait(7, 5000)));
    let (state, action) = continue_stop(state, true);
    assert!(matches!((state, action), (StopState::Stopped, StopAction::Done)));
    let (state, _) = MacosVm::stop(&vm, true).unwrap();
    assert!(matches!(continue_stop(state, false).1, StopAction::Fail(Signal::Terminate, 7)));
    let (state, _) = MacosVm::force_stop(&vm, true).unwrap();
    assert!(matches!(continue_stop(state, false).1, StopAction::Fail(Signal::Kill, 7)));
    let started = MacosVm::finish_start(&vm, 7, &Ready::Line("aa:bb\n".to_string())).unwrap();
    assert_eq!(started.network.guest_mac, Some("aa:bb".to_string()));
    let failed = MacosVm::finish_start(&vm, 7, &Ready::TimedOut).unwrap_err();
    assert_eq!(failed.kill, StopAction::Kill(7));
    assert!(MacosNetwork::new().setup().tap_device.is_empty());
}

#[test]
fn a_machine_reports_its_address() {
    let line = Ready::Line("aa:bb:cc:dd:ee:ff\n".to_string());
    assert_eq!(read_mac_from_ready_fd(&line).unwrap(), "aa:bb:cc:dd:ee:ff");
    assert!(read_mac_from_ready_fd(&Ready::Line(String::new())).is_err());
    assert!(read_mac_from_ready_fd(&Ready::TimedOut).is_err());
    assert!(read_mac_from_ready_fd(&Ready::PollFailed("x".to_string())).is_err());
    assert!(read_mac_from_ready_fd(&Ready::ReadFailed("x".to_string())).is_err());
}

#[test]
fn snapshots_are_sorted_by_age() {
    let entry = |name: &str, modified: u64| DirEntry {
        file_name: name.to_string(),
        modified,
        len: 10,
    };
    let listed = MacosStorage::list_snapshots(&vec![
        entry("b.img", 20),
        entry("notes.txt", 1),
        entry("a.img", 10),
    ]);
    let names: Vec<&str> = listed.iter().map(|s| s.name.as_str()).collect();
    assert_eq!(names, vec!["a", "b"]);
}

#[test]
fn disks_are_cloned_from_what_is_there() {
    let s = storage();
    assert!(s.clone_for_vm("alpine", "web", false).is_err());
    let (steps, path) = s.clone_for_vm("alpine", "web", true).unwrap();
    assert_eq!(path, s.vm_rootfs("web"));
    assert!(steps.iter().any(|x| x.action
        == FileAction::CloneFile(s.image_path("alpine"), s.vm_rootfs("web"))));
    let taken = s.snapshot("web", "s1", true, true).unwrap();
    assert!(matches!(taken.last().unwrap().action, FileAction::Refuse(Error::Image(_))));
    assert!(s.snapshot("web", "s1", false, false).is_err());
    assert!(s.snapshot("web", "s1", true, false).is_ok());
    assert!(s.delete_snapshot("web", "s1", false).is_err());
    assert!(s.resize("web", ByteSize::parse("16G").unwrap(), false).is_err());
    assert!(s.destroy_vm_storage("web", false).is_none());
}

#[test]
fn users_are_found_by_name() {
    let passwd = "root:x:0:0:root:/root:/bin/sh\nubuntu:x:1001:1002::/home/ubuntu:/bin/bash\n";
    assert_eq!(read_passwd_uid_gid(passwd, "ubuntu"), Some((1001, 1002)));
    assert_eq!(read_passwd_uid_gid(passwd, "nobody"), None);
    let stat = "Inode: 12   Type: directory\nUser:  1000   Group:  1001   Size: 4096\n";
    assert_eq!(parse_debugfs_uid_gid(stat), Some((1000, 1001)));
    assert_eq!(parse_debugfs_uid_gid("Inode: 12\n"), None);
    assert_eq!(ssh_user("", "/home/ubuntu: File not found by ext2_lookup", None).name, "root");
    let (user, script) = inject_ssh_key(stat, "", None, "/tmp/key");
    assert_eq!(user, ssh_user(stat, "", None));
    assert_eq!((user.name.as_str(), user.uid, user.gid), ("ubuntu", 1000, 1001));
    assert!(script.starts_with("mkdir /home/ubuntu/.ssh\nwrite /tmp/key "), "{script}");
    assert!(script.ends_with("authorized_keys gid 1001\n"), "{script}");
    assert_eq!(key_injected(user, "").unwrap(), "ubuntu");
    let (root, script) = inject_ssh_key(stat, "File not found", Some(passwd), "/tmp/key");
    assert!(script.starts_with("mkdir /root/.ssh\n"), "{script}");
    assert!(key_injected(root, "/x: No such file or directory").is_err());
}

#[test]
fn a_volume_says_what_it_is() {
    let plist = "<key>FilesystemType</key>\n<string>apfs</string>\n";
    assert!(is_apfs(plist));
    assert!(check_apfs_volume("/state", Some(plist)).is_none());
    assert!(check_apfs_volume("/state", None).is_none());
    let other = "<key>FilesystemType</key>\n<string>hfs</string>\n";
    let steps = MacosStorage::init("/state", Some(other));
    assert!(matches!(&steps[0].action, FileAction::Warn(t) if t.contains("/state")));
    let steps = MacosStorage::init("/state", Some(plist));
    assert_eq!(steps.len(), 8);
    assert_eq!(steps[0].action, FileAction::MakeDirs("/state/images/data".to_string()));
    assert_eq!(steps[1].action, FileAction::Say("Created /state/images/data".to_string()));
    assert_eq!(steps[7].action, FileAction::Say("Created /state/network".to_string()));
    assert!(check_apfs_volume("/state", Some(other)).unwrap().contains("/state"));
}

#[test]
fn tools_are_looked_for_in_order() {
    assert!(find_e2fsprogs_tool("debugfs", true, true).starts_with("/opt/homebrew/"));
    assert!(find_e2fsprogs_tool("debugfs", false, true).starts_with("/usr/local/"));
    assert_eq!(find_e2fsprogs_tool("debugfs", false, false), "debugfs");
    let call = mkfs_ext4_from_dir("/sbin/mkfs.ext4", "/i.img", "/rootfs", None);
    assert!(call.args.contains(&"/rootfs".to_string()));
    assert_eq!(estimate_size_mib("1048576\n2097152\n"), 256);
    assert_eq!(estimate_size_mib("1048576000\n"), 2000);
}

#[test]
fn images_are_made_in_two_steps() {
    let steps = create("/w/rootfs", "/i.img", 300, false, false, true);
    assert_eq!(steps.len(), 2);
    assert_eq!(steps[0].action.args, ["-s", "300m", "/i.img"]);
    assert_eq!(steps[1].action.program, "fakeroot");
    assert_eq!(steps[1].action.args[..4], ["-i", "/w/fakeroot.state", "--", "mkfs.ext4"]);
    let steps = create("/w/rootfs", "/i.img", 300, true, true, false);
    assert_eq!(steps[1].action.program, "/opt/homebrew/opt/e2fsprogs/sbin/mkfs.ext4");
    assert_eq!(ownership_file("rootfs"), "fakeroot.state");
    let call = write_key("debugfs", "/tmp/s", "/i.img");
    assert_eq!(call.args, ["-w", "-f", "/tmp/s", "/i.img"]);
    assert_eq!(check_call("e2fsck", "/i.img").args, ["-f", "-y", "/i.img"]);
}

#[test]
fn copies_that_do_not_share_are_told() {
    assert_eq!(slow_clone_warning(0, "0.9"), None);
    assert!(slow_clone_warning(1, "1.2").unwrap().starts_with("Warning: disk clone took 1.2s"));
    assert!(matches!(
        apfs_clone_error("/a", "/b", "cp: Not supported\n"),
        Error::Image(t) if t.starts_with("APFS clone failed: cp: Not supported.")
    ));
    assert!(matches!(
        apfs_clone_error("/a", "/b", "denied\n"),
        Error::Image(t) if t == "cp -c /a → /b failed: denied"
    ));
}

#[test]
fn an_image_gets_the_directory_that_it_lies_in() {
    let (steps, path) = storage().create_image_volume("library/alpine", "/w/rootfs.ext4");
    assert_eq!(path, "/state/images/data/library/alpine.img");
    assert_eq!(steps[0].action, FileAction::MakeDirs("/state/images/data/library".to_string()));
    let (steps, _) = storage().create_image_volume("alpine", "/w/rootfs.ext4");
    assert_eq!(steps[0].action, FileAction::MakeDirs("/state/images/data".to_string()));
}
