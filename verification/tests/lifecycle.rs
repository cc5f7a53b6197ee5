//! Machines that live and die.

use ember::cli::lifecycle::{
    admission_of, begin_rename, begin_resize, begin_rm, begin_start, begin_update, cascade_text, check_admission, check_dependents, check_resize, check_startable,
    check_stoppable, check_update, deletions, force_delete_vm, forked_text, inspect, list,
    mark_running, pause, rename, rename_parent, rename_steps, resume, rm, select, stop,
    update_config, Deletion, StopRefusal,
};
use ember::backend::StartedVm;
use ember::cli::vm::{
    ListArgs, OutputFormat, Refusal, RenameArgs, ResizeArgs, RmArgs, StatusFilter, UpdateConfigArgs, VmAction,
};
use ember::error::Error;
use ember::size::ByteSize;
use ember::vm::{mark_stopped, NetworkInfo, VmMetadata, VmStatus};

fn machine(name: &str, status: VmStatus) -> VmMetadata {
    let mut m = VmMetadata::default_for_teardown();
    m.name = name.to_string();
    m.status = status;
    m.memory_mib = 1024;
    m
}

fn child(name: &str, parent: &str) -> VmMetadata {
    let mut m = machine(name, VmStatus::Stopped);
    m.parent_vm = Some(parent.to_string());
    m
}

#[test]
fn resuming_undoes_pausing() {
    let mut m = machine("web", VmStatus::Running);
    assert!(matches!(resume(&mut m, "web"), Err(Error::VmWrongState { .. })));
    pause(&mut m, "web").unwrap();
    assert_eq!(m.status, VmStatus::Paused);
    assert!(pause(&mut m, "web").is_err());
    resume(&mut m, "web").unwrap();
    assert_eq!(m.status, VmStatus::Running);
}

fn actions(steps: &[ember::procedure::Step<VmAction>]) -> Vec<&VmAction> {
    steps.iter().map(|s| &s.action).collect()
}

fn say(words: &str) -> VmAction {
    VmAction::Say(words.to_string())
}

#[test]
fn a_pause_is_recorded_once_it_is_made() {
    let mut m = machine("web", VmStatus::Running);
    let steps = pause(&mut m, "web").unwrap();
    assert_eq!(
        actions(&steps),
        [
            &VmAction::PrePauseCheck,
            &say("Pausing VM 'web'..."),
            &VmAction::Pause,
            &VmAction::SaveRecord,
            &say("VM 'web' paused."),
        ]
    );
    let steps = resume(&mut m, "web").unwrap();
    assert_eq!(steps[2].action, VmAction::Resume);
    assert_eq!(steps[4].action, say("VM 'web' resumed."));
}

#[test]
fn disks_only_grow() {
    let args = |d: &str| ResizeArgs {
        name: "web".to_string(),
        disk_size: ByteSize::parse(d).unwrap(),
    };
    assert_eq!(check_resize(&args("16G"), 8).unwrap(), 16);
    assert!(check_resize(&args("8G"), 8).is_err());
    assert!(check_resize(&args("4G"), 8).is_err());
    assert!(check_resize(&args("9000M"), 8).is_err());
    let mut m = machine("web", VmStatus::Stopped);
    m.disk_size_gib = 8;
    assert!(matches!(begin_resize(&mut m, &args("8G")), Err(Refusal::Words(_))));
    m.status = VmStatus::Running;
    assert!(matches!(begin_resize(&mut m, &args("8G")), Err(Refusal::NotStopped(_))));
    assert!(matches!(begin_resize(&mut m, &args("16G")), Err(Refusal::NotStopped(_))));
    assert_eq!(m.disk_size_gib, 8);
    m.status = VmStatus::Stopped;
    let steps = begin_resize(&mut m, &args("16G")).unwrap();
    assert_eq!(m.disk_size_gib, 16);
    assert_eq!(
        actions(&steps),
        [
            &say("Resizing disk to 16 GiB..."),
            &VmAction::Resize(16),
            &VmAction::SaveRecord,
            &say("VM 'web' disk resized from 8 GiB to 16 GiB."),
        ]
    );
}

#[test]
fn offspring_go_before_their_parents() {
    let vms = vec![
        machine("a", VmStatus::Stopped),
        child("b", "a"),
        child("c", "b"),
        machine("d", VmStatus::Stopped),
        child("e", "a"),
    ];
    assert_eq!(
        deletions(&vms, "a"),
        [
            Deletion::Announce(1),
            Deletion::Announce(2),
            Deletion::Delete(2),
            Deletion::Delete(1),
            Deletion::Announce(4),
            Deletion::Delete(4),
        ]
    );
    assert!(deletions(&vms, "d").is_empty());
    assert_eq!(forked_text("b"), "Deleting forked VM 'b'...");
    assert_eq!(cascade_text("b"), "Cascade-deleting dependent VM 'b'...");
}

#[test]
fn a_failed_renaming_leaves_the_disk_as_it_was() {
    let args = RenameArgs {
        name: "a".to_string(),
        new_name: "z".to_string(),
    };
    assert_eq!(rename_steps(&args, "/s", true).unwrap_err(), "vm 'z' already exists");
    let steps = rename_steps(&args, "/s", false).unwrap();
    assert_eq!(steps[0].action, VmAction::RenameStorage("z".to_string()));
    assert_eq!(
        steps[1].action,
        VmAction::MoveDir("/s/vms/a".to_string(), "/s/vms/z".to_string())
    );
    assert_eq!(steps[1].undo, [VmAction::RevertStorage]);
    assert_eq!(steps[4].action, say("VM 'a' renamed to 'z'."));
}

#[test]
fn renaming_takes_the_children_along() {
    let mut b = child("b", "a");
    assert!(rename_parent(&mut b, "a", "z"));
    assert_eq!(b.parent_vm, Some("z".to_string()));
    assert!(!rename_parent(&mut b, "a", "y"));
    let same = RenameArgs {
        name: "a".to_string(),
        new_name: "a".to_string(),
    };
    assert!(rename(&same).is_err());
}

#[test]
fn memory_that_is_not_there_is_not_promised() {
    let vms = vec![
        machine("a", VmStatus::Running),
        machine("b", VmStatus::Stopped),
        machine("c", VmStatus::Paused),
    ];
    assert!(check_admission(&vms, "b", 512, 3200).is_ok());
    assert!(check_admission(&vms, "b", 513, 3200).is_err());
    assert_eq!(admission_of(&vms, "b", 512, Ok(3200)), Ok(None));
    assert!(admission_of(&vms, "b", 513, Ok(3200)).is_err());
    assert_eq!(
        admission_of(&vms, "b", 513, Err("no /proc".to_string())),
        Ok(Some("warning: skipping admission check: no /proc".to_string()))
    );
}

#[test]
fn only_what_stands_still_is_started() {
    assert!(check_startable("web", VmStatus::Created).is_ok());
    assert!(check_startable("web", VmStatus::Stopped).is_ok());
    assert!(check_startable("web", VmStatus::Running).is_err());
    let mut m = machine("web", VmStatus::Created);
    let vms = vec![machine("a", VmStatus::Running), machine("web", VmStatus::Created)];
    let steps = begin_start("web", &m, &vms, Ok(2560)).unwrap();
    assert_eq!(
        actions(&steps),
        [
            &say("Setting up network..."),
            &VmAction::SetupNetwork,
            &VmAction::TellAddresses,
            &say("Starting VM..."),
            &VmAction::StartProcess,
            &VmAction::SaveRecord,
            &VmAction::TellStarted("web".to_string()),
        ]
    );
    assert!(steps[2].undo.is_empty());
    assert!(steps[4].undo.contains(&VmAction::TeardownNetwork));
    assert!(steps[5].undo.contains(&VmAction::ForceStop));
    assert!(matches!(begin_start("web", &m, &vms, Ok(2559)), Err(Refusal::Words(_))));
    let steps = begin_start("web", &m, &vms, Err("no /proc".to_string())).unwrap();
    assert_eq!(
        steps[0].action,
        VmAction::Warn("warning: skipping admission check: no /proc".to_string())
    );
    assert_eq!(steps.len(), 8);
    let running = machine("web", VmStatus::Running);
    assert!(matches!(begin_start("web", &running, &vms, Ok(0)), Err(Refusal::WrongState(_))));
    let started = StartedVm {
        pid: 42,
        network: ember::macos_vm::MacosNetwork::new().setup(),
    };
    mark_running(&mut m, &started);
    assert_eq!((m.status, m.pid), (VmStatus::Running, Some(42)));
    mark_stopped(&mut m);
    assert_eq!((m.status, m.pid), (VmStatus::Stopped, None));
}

#[test]
fn stopping_depends_on_what_still_runs() {
    let mut m = machine("web", VmStatus::Running);
    assert!(matches!(check_stoppable("web", &m), Err(StopRefusal::NoPid(_))));
    m.pid = Some(7);
    assert!(matches!(check_stoppable("web", &m), Ok(7)));
    m.status = VmStatus::Stopped;
    assert!(matches!(check_stoppable("web", &m), Err(StopRefusal::WrongState(_))));
    assert!(stop(&mut m, "web", true, true).is_err());
    let stopping = |running: bool, force: bool| {
        let mut m = machine("web", VmStatus::Paused);
        m.pid = Some(7);
        let steps = stop(&mut m, "web", running, force).unwrap();
        assert_eq!((m.status, m.pid), (VmStatus::Stopped, None));
        assert!(m.network.is_none());
        let end = steps.len() - 3;
        assert!(steps[end].tolerate);
        assert_eq!(
            actions(&steps)[end..],
            [&VmAction::TeardownNetwork, &VmAction::SaveRecord, &say("VM 'web' stopped.")]
        );
        steps
    };
    assert_eq!(
        actions(&stopping(false, true))[0],
        &say("VM process (pid 7) is already dead.")
    );
    assert_eq!(actions(&stopping(true, true))[1], &VmAction::ForceStop);
    assert_eq!(actions(&stopping(true, false))[1], &VmAction::Stop);
}

fn rm_args(force: bool) -> RmArgs {
    RmArgs {
        name: "web".to_string(),
        force,
    }
}

#[test]
fn what_runs_or_has_children_is_removed_by_force_only() {
    assert!(rm(&rm_args(false), VmStatus::Stopped).is_ok());
    assert!(rm(&rm_args(false), VmStatus::Running).is_err());
    assert!(rm(&rm_args(true), VmStatus::Running).is_ok());
    assert!(check_dependents(&rm_args(false), &vec!["b".to_string()]).unwrap_err().contains("b"));
    assert!(check_dependents(&rm_args(true), &vec!["b".to_string()]).is_ok());
    assert!(check_dependents(&rm_args(false), &vec![]).is_ok());
    let mut m = machine("web", VmStatus::Running);
    m.pid = Some(7);
    let steps = force_delete_vm(&m, true, true);
    assert_eq!(steps[0].action, say("Force-stopping VM (pid 7)..."));
    assert_eq!(steps[1].action, VmAction::ForceStop);
}

#[test]
fn a_machine_goes_last_and_nothing_goes_twice() {
    let vms = vec![
        machine("web", VmStatus::Stopped),
        child("b", "web"),
        child("c", "b"),
        machine("d", VmStatus::Stopped),
    ];
    let deps = |names: &[&str]| Ok(names.iter().map(|n| n.to_string()).collect::<Vec<_>>());
    let told = begin_rm(&rm_args(false), &vms, 0, &deps(&["b", "d"])).unwrap_err();
    assert!(told.starts_with("vm 'web' has dependent forks: b, d\n"), "{told}");
    assert_eq!(
        begin_rm(&rm_args(true), &vms, 0, &deps(&["gone", "b", "c", "d"])).unwrap(),
        [
            Deletion::Cascade(1),
            Deletion::Announce(2),
            Deletion::Delete(2),
            Deletion::Delete(1),
            Deletion::Cascade(3),
            Deletion::Delete(3),
            Deletion::Delete(0),
        ]
    );
    assert_eq!(
        begin_rm(&rm_args(true), &vms, 0, &deps(&["c"])).unwrap(),
        [
            Deletion::Cascade(2),
            Deletion::Delete(2),
            Deletion::Announce(1),
            Deletion::Delete(1),
            Deletion::Delete(0),
        ]
    );
    assert_eq!(
        begin_rm(&rm_args(false), &vms, 3, &deps(&[])).unwrap(),
        [Deletion::Delete(3)]
    );
    let unknown = Err("no pool".to_string());
    let running = vec![machine("web", VmStatus::Running)];
    assert_eq!(
        begin_rm(&rm_args(false), &running, 0, &unknown).unwrap_err(),
        "vm 'web' is running — stop it first or use --force"
    );
    assert_eq!(begin_rm(&rm_args(true), &running, 0, &unknown).unwrap_err(), "no pool");
}

#[test]
fn changes_are_made_one_by_one() {
    let mut args = UpdateConfigArgs {
        name: "web".to_string(),
        cpus: None,
        memory: None,
        kernel: None,
        boot_args: None,
        ssh_user: None,
        ssh_key: None,
    };
    assert!(check_update(&args).is_err());
    assert!(matches!(
        begin_update(&machine("web", VmStatus::Stopped), &args),
        Err(Refusal::Words(t)) if t == "no configuration changes specified"
    ));
    args.cpus = Some(4);
    args.memory = Some(ByteSize::parse("2G").unwrap());
    assert!(check_update(&args).is_ok());
    let mut m = machine("web", VmStatus::Paused);
    assert!(matches!(begin_update(&m, &args), Err(Refusal::NotStopped(_))));
    m.status = VmStatus::Stopped;
    assert!(begin_update(&m, &args).is_ok());
    let told = update_config(&mut m, &args, None, Some("/home/me"));
    assert_eq!((m.cpus, m.memory_mib), (4, 2048));
    assert_eq!(told, ["Updated VM 'web':", "  cpus: 4", "  memory: 2 GiB"]);
}

#[test]
fn lists_show_what_was_asked_for() {
    let vms = vec![machine("a", VmStatus::Running), machine("b", VmStatus::Stopped)];
    assert_eq!(select(&vms, &vec![]), vec![0, 1]);
    assert_eq!(select(&vms, &vec![StatusFilter::Stopped]), vec![1]);
    let args = ListArgs {
        format: OutputFormat::Table,
        status: vec![StatusFilter::Running],
    };
    let lines = list(&vms, &args);
    assert_eq!(lines.len(), 2);
    assert!(lines[1].starts_with("a "));
    let shown = inspect(&vms[0], &vec![("Extra".to_string(), "yes".to_string())]);
    assert!(shown.iter().any(|l| l.contains("yes")));
}

#[test]
fn a_network_is_copied_whole() {
    let n = NetworkInfo {
        tap_device: "t".to_string(),
        host_ip: "1".to_string(),
        guest_ip: "2".to_string(),
        netmask: "3".to_string(),
        guest_mac: Some("4".to_string()),
        wan_iface: None,
        firewall_chain: Some("c".to_string()),
    };
    let m = n.clone();
    assert_eq!(m.guest_mac, n.guest_mac);
    assert_eq!(m.firewall_chain, n.firewall_chain);
}

#[test]
fn keys_below_the_home_directory_are_written_out() {
    let args = UpdateConfigArgs {
        name: "web".to_string(),
        cpus: None,
        memory: None,
        kernel: None,
        boot_args: None,
        ssh_user: None,
        ssh_key: Some("~/.ssh/id".to_string()),
    };
    let mut m = machine("web", VmStatus::Stopped);
    let told = update_config(&mut m, &args, None, Some("/home/me"));
    assert_eq!(m.ssh.key, "/home/me/.ssh/id");
    assert_eq!(told[1], "  ssh-key: /home/me/.ssh/id");
    update_config(&mut m, &args, None, None);
    assert_eq!(m.ssh.key, "~/.ssh/id");
}

#[test]
fn a_renaming_is_refused_for_the_first_reason() {
    let args = |new: &str| RenameArgs {
        name: "a".to_string(),
        new_name: new.to_string(),
    };
    let running = machine("a", VmStatus::Running);
    let still = machine("a", VmStatus::Stopped);
    assert!(matches!(
        begin_rename(&args("a"), &running, "/s", true),
        Err(Refusal::Words(t)) if t.contains("same")
    ));
    assert!(matches!(begin_rename(&args("z"), &running, "/s", true), Err(Refusal::NotStopped(_))));
    assert!(matches!(
        begin_rename(&args("z"), &still, "/s", true),
        Err(Refusal::Words(t)) if t == "vm 'z' already exists"
    ));
    assert_eq!(begin_rename(&args("z"), &still, "/s", false).unwrap().len(), 5);
}
