//! Snapshots.

use ember::backend::SnapshotInfo;
use ember::cli::snapshot::{
    create, delete, list, restore, CreateArgs, DeleteArgs, RestoreArgs, SnapshotAction,
};
use ember::cli::vm::Refusal;
use ember::procedure::Step;
use ember::vm::{VmMetadata, VmStatus};

fn snapshots(names: &[&str]) -> Vec<SnapshotInfo> {
    names
        .iter()
        .map(|n| SnapshotInfo {
            name: n.to_string(),
            created_at: 86400,
            size: 1024,
        })
        .collect()
}

fn creating(name: &str) -> CreateArgs {
    CreateArgs {
        vm_name: "web".to_string(),
        snapshot_name: name.to_string(),
    }
}

fn deleting(name: &str) -> DeleteArgs {
    DeleteArgs {
        vm_name: "web".to_string(),
        snapshot_name: name.to_string(),
    }
}

fn restoring(name: &str) -> RestoreArgs {
    RestoreArgs {
        vm_name: "web".to_string(),
        snapshot_name: name.to_string(),
    }
}

fn machine(status: VmStatus) -> VmMetadata {
    let mut m = VmMetadata::default_for_teardown();
    m.name = "web".to_string();
    m.status = status;
    m
}

fn actions(steps: Vec<Step<SnapshotAction>>) -> Vec<SnapshotAction> {
    steps.into_iter().map(|s| s.action).collect()
}

#[test]
fn a_snapshot_is_created_once_and_deleted_where_it_is() {
    let there = Ok(snapshots(&["before"]));
    assert!(create(&creating("after"), &there).is_ok());
    assert_eq!(
        create(&creating("before"), &there).unwrap_err(),
        "snapshot 'before' already exists on vm 'web'"
    );
    assert!(delete(&deleting("before"), &there).is_ok());
    assert_eq!(
        delete(&deleting("after"), &there).unwrap_err(),
        "snapshot 'after' does not exist on vm 'web'\nHint: list snapshots with: ember snapshot list web"
    );
    let still = machine(VmStatus::Stopped);
    assert!(restore(&restoring("before"), &still, &there).is_ok());
    assert!(restore(&restoring("after"), &still, &there).is_err());
}

#[test]
fn the_base_is_not_for_everyone() {
    let unknown = || Err("no pool".to_string());
    assert_eq!(
        create(&creating("base"), &unknown()).unwrap_err(),
        "snapshot name 'base' is reserved for image cloning"
    );
    assert_eq!(
        delete(&deleting("base"), &unknown()).unwrap_err(),
        "snapshot 'base' is reserved for image cloning and cannot be deleted"
    );
    assert_eq!(create(&creating("s"), &unknown()).unwrap_err(), "no pool");
    assert_eq!(delete(&deleting("s"), &unknown()).unwrap_err(), "no pool");
    assert!(delete(&deleting("base"), &Ok(snapshots(&["base"]))).is_err());
}

#[test]
fn a_machine_that_runs_is_not_put_back() {
    let there = Ok(snapshots(&["s"]));
    for status in [VmStatus::Running, VmStatus::Paused] {
        let refused = restore(&restoring("s"), &machine(status), &there);
        assert!(matches!(refused, Err(Refusal::NotStopped(_))));
        let refused = restore(&restoring("s"), &machine(status), &Err("no pool".to_string()));
        assert!(matches!(refused, Err(Refusal::NotStopped(_))));
    }
    let refused = restore(&restoring("s"), &machine(VmStatus::Created), &Err("no pool".to_string()));
    assert!(matches!(refused, Err(Refusal::Words(t)) if t == "no pool"));
}

#[test]
fn snapshots_are_listed_with_their_age() {
    let lines = list("web", &snapshots(&["before"]));
    assert!(lines.iter().any(|l| l.contains("before") && l.contains("1970-01-02")), "{lines:?}");
    assert!(list("web", &snapshots(&[])).iter().any(|l| l.contains("web")));
}

#[test]
fn the_user_is_told_what_was_done() {
    let say = |t: &str| SnapshotAction::Say(t.to_string());
    let none = Ok(snapshots(&[]));
    assert_eq!(
        actions(create(&creating("s"), &none).unwrap()),
        [SnapshotAction::Take("s".to_string()), say("Created snapshot 's' of vm 'web'")]
    );
    let there = Ok(snapshots(&["s"]));
    assert_eq!(
        actions(delete(&deleting("s"), &there).unwrap()),
        [SnapshotAction::Remove("s".to_string()), say("Deleted snapshot 's' from vm 'web'")]
    );
    assert_eq!(
        actions(restore(&restoring("s"), &machine(VmStatus::Stopped), &there).unwrap()),
        [SnapshotAction::PutBack("s".to_string()), say("Restored vm 'web' to snapshot 's'")]
    );
}
