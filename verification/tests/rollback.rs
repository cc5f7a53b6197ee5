//! What is undone when something goes wrong.

use ember::rollback::{cleanup_message, Rollback};

#[test]
fn commit_prevents_rollback() {
    let mut rb = Rollback::new();
    rb.push("test", "rolled back");
    rb.commit();

    assert!(rb.announcement().is_none());
    assert!(rb.unwind().is_empty());
}

#[test]
fn drop_without_commit_runs_cleanups_in_lifo_order() {
    let mut rb = Rollback::new();
    rb.push("first", "first");
    rb.push("second", "second");
    rb.push("third", "third");

    let executed: Vec<&str> = rb.unwind().into_iter().map(|(_, action)| action).collect();
    assert_eq!(executed, vec!["third", "second", "first"]);
}

#[test]
fn empty_rollback_is_silent() {
    // Should not print "rolling back" when there are no actions.
    let rb: Rollback<()> = Rollback::new();
    assert!(rb.announcement().is_none());
}

#[test]
fn every_cleanup_is_told() {
    let mut rb = Rollback::new();
    rb.push("network", 1);
    assert!(rb.announcement().is_some());
    assert!(cleanup_message("network").contains("network"));
}
