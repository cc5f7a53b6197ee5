//! What is found after a crash.

use ember::config::{GlobalConfig, StorageKind};
use ember::error::Error;
use ember::firewall::NetworkAction;
use ember::reconcile::{
    adopt_into_policy_chain, record_chain, run, run_on_macos, sweep, SweepAction, AdoptAction, AdoptFailure,
    ReconcileAction,
};
use ember::vm::{NetworkInfo, VmMetadata, VmStatus};

fn machine(name: &str, status: VmStatus, tap: Option<&str>) -> VmMetadata {
    let mut m = VmMetadata::default_for_teardown();
    m.name = name.to_string();
    m.status = status;
    m.pid = Some(7);
    m.network = tap.map(|t| NetworkInfo {
        tap_device: t.to_string(),
        host_ip: "10.0.0.1".to_string(),
        guest_ip: "10.0.0.2".to_string(),
        netmask: "255.255.255.252".to_string(),
        guest_mac: None,
        wan_iface: Some("eth0".to_string()),
        firewall_chain: None,
    });
    m
}

fn config() -> GlobalConfig {
    GlobalConfig {
        storage_backend: StorageKind::Zfs,
        pool: "tank".to_string(),
        dataset: "ember".to_string(),
        kernel_path: None,
        wan_iface: None,
        state_dir: "/state".to_string(),
        instance_id: "a3f4".to_string(),
        ip_subnet: "10.100.0.0/16".to_string(),
        storage_path: None,
        dm_thin_block_size: None,
        dm_thin_mode: None,
        vdo: None,
        cpu_weight: None,
    }
}

#[test]
fn the_dead_are_marked_and_the_living_left_alone() {
    let vms = vec![
        machine("dead", VmStatus::Running, Some("ema3f4-1")),
        machine("alive", VmStatus::Running, Some("ema3f4-2")),
        machine("off", VmStatus::Stopped, None),
    ];
    let r = run(&vms, &vec![false, true, false], true);
    assert!(r.actions.contains(&ReconcileAction::MarkStopped(0)));
    assert!(r.actions.contains(&ReconcileAction::CleanupNetwork(0)));
    assert!(!r.actions.contains(&ReconcileAction::MarkStopped(1)));
    assert!(!r.actions.contains(&ReconcileAction::MarkStopped(2)));
    assert_eq!(r.active_tap_devices, vec!["ema3f4-2"]);
    assert_eq!(r.unchained, vec![1]);
    let r = run(&vms, &vec![false, true, false], false);
    assert!(!r.actions.contains(&ReconcileAction::CleanupNetwork(0)));
    assert!(r.unchained.is_empty());
}

#[test]
fn devices_that_nobody_uses_are_orphans() {
    let active = vec!["b".to_string()];
    let devices = Ok(vec!["a".to_string(), "b".to_string(), "c".to_string()]);
    let steps = sweep(&devices, &active);
    let actions: Vec<_> = steps.iter().map(|s| &s.action).collect();
    let warn = |d: &str| SweepAction::Warn(format!("Warning: deleting orphaned TAP device '{d}'"));
    let delete = |d: &str| SweepAction::DeleteDevice(d.to_string());
    assert_eq!(actions, [&warn("a"), &delete("a"), &warn("c"), &delete("c")]);
    assert!(steps[1].tolerate && !steps[0].tolerate);
    let steps = sweep(&Err(Error::State("no ip".to_string())), &active);
    assert_eq!(steps.len(), 1);
    assert!(matches!(
        &steps[0].action,
        SweepAction::Warn(t) if t.starts_with("Warning: failed to list TAP devices: ")
    ));
}

#[test]
fn rules_move_into_the_chain() {
    let mut m = machine("alive", VmStatus::Running, Some("ema3f4-2"));
    let steps = adopt_into_policy_chain(&config(), &m, None).unwrap();
    let added = steps
        .iter()
        .rposition(|s| matches!(s.action, AdoptAction::Network(NetworkAction::EnsureRule(_))))
        .unwrap();
    let removed = steps
        .iter()
        .position(|s| matches!(s.action, AdoptAction::Network(NetworkAction::RemoveRule(_))))
        .unwrap();
    assert!(added < removed);
    assert!(steps[removed].tolerate);
    assert!(!steps[added].tolerate);
    assert!(matches!(steps[added].undo[0], AdoptAction::Warn(AdoptFailure::Add)));
    assert!(matches!(steps[0].undo[0], AdoptAction::Warn(AdoptFailure::Setup)));
    let AdoptAction::Record(chain) = &steps.last().unwrap().action else {
        panic!("{:?}", steps.last());
    };
    assert_eq!(chain, "ember-a3f4-forward");
    record_chain(&mut m, chain);
    assert_eq!(
        m.network.unwrap().firewall_chain,
        Some("ember-a3f4-forward".to_string())
    );
    assert!(adopt_into_policy_chain(&config(), &machine("x", VmStatus::Running, None), None).is_none());
}

#[test]
fn addresses_of_the_dead_are_given_back() {
    let mut lost = machine("lost", VmStatus::Paused, None);
    lost.pid = None;
    let vms = vec![
        machine("alive", VmStatus::Paused, None),
        lost,
        machine("dead", VmStatus::Running, None),
    ];
    let warn = |words: &str| ReconcileAction::Warn(words.to_string());
    assert_eq!(
        run_on_macos(&vms, &vec![true, true, false]),
        [
            warn("Warning: VM 'lost' is paused but has no PID, marking stopped"),
            ReconcileAction::ReleaseIp(1),
            ReconcileAction::MarkStopped(1),
            warn("Warning: VM 'dead' process (pid 7) is dead, marking stopped"),
            ReconcileAction::ReleaseIp(2),
            ReconcileAction::MarkStopped(2),
        ]
    );
}
