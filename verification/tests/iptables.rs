//! Firewall rules and the calls for them.

use ember::command::CommandOutput;
use ember::iptables::{args, ensure_chain, is_absent, remove_chain, run, Rule};

#[test]
fn append_is_the_default_placement() {
    let rule = Rule::filter("FORWARD", &["-i", "tap0", "-j", "ACCEPT"]);
    assert_eq!(
        rule.add_args(),
        ["-w", "5", "-A", "FORWARD", "-i", "tap0", "-j", "ACCEPT"]
    );
}

/// Front placement is what keeps ACCEPTs above a chain's terminal
/// DROP without any rule-order comparison.
#[test]
fn front_placement_inserts_at_position_one() {
    let rule = Rule::filter("ember-forward", &["-i", "tap0", "-j", "ACCEPT"]).at_front();
    assert_eq!(
        rule.add_args(),
        [
            "-w",
            "5",
            "-I",
            "ember-forward",
            "1",
            "-i",
            "tap0",
            "-j",
            "ACCEPT"
        ]
    );
}

#[test]
fn table_selection_precedes_the_verb() {
    let rule = Rule::in_nat("POSTROUTING", &["-j", "MASQUERADE"]);
    assert_eq!(
        rule.add_args(),
        [
            "-w",
            "5",
            "-t",
            "nat",
            "-A",
            "POSTROUTING",
            "-j",
            "MASQUERADE"
        ]
    );
}

/// The add, check and delete forms must differ only in the verb.
/// Anything else and `-D` stops matching what `-A` created.
#[test]
fn check_and_delete_mirror_the_rule_body() {
    let rule = Rule::in_nat("POSTROUTING", &["-s", "10.0.0.2/32", "-j", "MASQUERADE"]).at_front();
    let body = ["-s", "10.0.0.2/32", "-j", "MASQUERADE"];

    assert_eq!(rule.check_args()[..5], ["-w", "5", "-t", "nat", "-C"]);
    assert_eq!(rule.check_args()[6..], body);
    assert_eq!(rule.delete_args()[..5], ["-w", "5", "-t", "nat", "-D"]);
    assert_eq!(rule.delete_args()[6..], body);
}

/// Placement is an add-time concern only. Deleting must not care,
/// or a front-placed rule would be undeletable.
#[test]
fn placement_does_not_leak_into_delete() {
    let body = ["-i", "tap0", "-j", "ACCEPT"];
    let back = Rule::filter("FORWARD", &body);
    let front = Rule::filter("FORWARD", &body).at_front();
    assert_eq!(back.delete_args(), front.delete_args());
}

#[test]
fn every_invocation_waits_for_the_xtables_lock() {
    let rule = Rule::filter("FORWARD", &["-j", "ACCEPT"]);
    for v in [rule.add_args(), rule.check_args(), rule.delete_args()] {
        assert_eq!(v[..2], ["-w", "5"], "missing lock wait in {v:?}");
    }
    assert_eq!(args(&["-N", "ember-input"])[..2], ["-w", "5"]);
}

#[test]
fn absent_recognizes_both_iptables_wordings() {
    assert!(is_absent(
        "iptables: Bad rule (does a matching rule exist in that chain?)."
    ));
    assert!(is_absent("iptables: No chain/target/match by that name."));
    assert!(!is_absent("iptables: Chain already exists."));
    assert!(!is_absent(
        "iptables v1.8.13 (nf_tables): Permission denied (you must be root)"
    ));
}

fn output(code: i32, stderr: &str) -> CommandOutput {
    CommandOutput {
        exit_code: Some(code),
        stdout: String::new(),
        stderr: stderr.to_string(),
    }
}

#[test]
fn a_rule_that_is_there_is_not_added_again() {
    let rule = Rule::filter("FORWARD", &["-j", "ACCEPT"]);
    assert!(rule.ensure(&output(0, "")).unwrap().is_none());
    let absent = output(1, "iptables: Bad rule (does a matching rule exist in that chain?).");
    let call = rule.ensure(&absent).unwrap().unwrap();
    assert_eq!(call.args, rule.add_args());
    assert!(rule.ensure(&output(4, "Permission denied")).is_err());
}

#[test]
fn a_rule_is_removed_until_it_is_gone() {
    let rule = Rule::filter("FORWARD", &["-j", "ACCEPT"]);
    let call = rule.remove(&output(0, "")).unwrap().unwrap();
    assert_eq!(call.args, rule.delete_args());
    let absent = output(1, "iptables: No chain/target/match by that name.");
    assert!(rule.remove(&absent).unwrap().is_none());
    assert!(rule.remove(&output(4, "Permission denied")).is_err());
}

#[test]
fn chains_may_be_there_or_gone_already() {
    assert!(ensure_chain(&output(1, "iptables: Chain already exists.")).is_ok());
    assert!(ensure_chain(&output(4, "Permission denied")).is_err());
    assert!(remove_chain(&output(1, "iptables: No chain/target/match by that name.")).is_ok());
    assert!(remove_chain(&output(4, "Permission denied")).is_err());
    assert!(run(&output(0, "")).is_ok());
    assert!(run(&output(1, "no")).is_err());
}
