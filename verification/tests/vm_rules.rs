//! The firewall rules of one machine.

use ember::firewall::NetworkAction;
use ember::vm_rules::{comment, with_comment, VmRules};

fn tagged(chain: Option<&'static str>) -> VmRules<'static> {
    VmRules {
        chain,
        tap_device: "ema3f4-550e840",
        guest_ip: "10.100.0.2",
        wan_iface: "en0",
        comment: "ember:a3f4",
    }
}

/// The exact `iptables` invocations `add` would run.
fn invocations(rules: &VmRules<'_>) -> Vec<Vec<String>> {
    rules.rules().iter().map(|r| r.add_args()).collect()
}

#[test]
fn comment_for_new_install_tags_namespace() {
    assert_eq!(comment(Some("a3f4")), "ember:a3f4");
}

/// Locked: legacy mode must return an empty string so the rule
/// shape stays byte-for-byte identical to what older binaries
/// emitted (no `-m comment` match), or `iptables -D` silently
/// no-ops on upgraded hosts.
#[test]
fn comment_for_legacy_install_is_empty() {
    assert_eq!(comment(None), "");
}

#[test]
fn with_comment_skips_match_when_empty() {
    // Legacy mode (empty comment) must produce byte-for-byte the
    // same rule the old binary added, otherwise `iptables -D`
    // won't match existing rules on upgraded hosts.
    let args = with_comment(&["-A", "FORWARD", "-i", "tap0"], "", &["-j", "ACCEPT"]);
    assert_eq!(args, vec!["-A", "FORWARD", "-i", "tap0", "-j", "ACCEPT"]);
}

#[test]
fn with_comment_inserts_comment_match_when_non_empty() {
    let args = with_comment(
        &["-A", "FORWARD", "-i", "tap0"],
        "ember:a3f4",
        &["-j", "ACCEPT"],
    );
    assert_eq!(
        args,
        vec![
            "-A",
            "FORWARD",
            "-i",
            "tap0",
            "-m",
            "comment",
            "--comment",
            "ember:a3f4",
            "-j",
            "ACCEPT"
        ]
    );
}

#[test]
fn every_vm_owns_exactly_three_rules() {
    assert_eq!(tagged(Some("ember-a3f4-forward")).rules().len(), 3);
    assert_eq!(tagged(None).rules().len(), 3);
}

/// Masquerade must not move or change shape between modes: rules
/// written before and after the policy chains existed have to stay
/// mutually deletable.
#[test]
fn masquerade_is_identical_in_both_modes() {
    let chained = invocations(&tagged(Some("ember-a3f4-forward")));
    let legacy = invocations(&tagged(None));
    assert_eq!(chained[0], legacy[0]);
    assert_eq!(
        chained[0],
        [
            "-w",
            "5",
            "-t",
            "nat",
            "-A",
            "POSTROUTING",
            "-s",
            "10.100.0.2/32",
            "-o",
            "en0",
            "-m",
            "comment",
            "--comment",
            "ember:a3f4",
            "-j",
            "MASQUERADE"
        ]
    );
}

/// Inside an ember-owned chain the chain is the scope, so the
/// comment match is dropped, and both ACCEPTs are inserted at the
/// front so they sit above the chain's terminal DROP.
#[test]
fn chain_mode_forward_rules_are_untagged_and_front_placed() {
    let rules = invocations(&tagged(Some("ember-a3f4-forward")));
    assert_eq!(
        rules[1],
        [
            "-w",
            "5",
            "-I",
            "ember-a3f4-forward",
            "1",
            "-i",
            "ema3f4-550e840",
            "-o",
            "en0",
            "-j",
            "ACCEPT"
        ]
    );
    assert_eq!(
        rules[2],
        [
            "-w",
            "5",
            "-I",
            "ember-a3f4-forward",
            "1",
            "-i",
            "en0",
            "-o",
            "ema3f4-550e840",
            "-m",
            "conntrack",
            "--ctstate",
            "RELATED,ESTABLISHED",
            "-j",
            "ACCEPT"
        ]
    );
}

/// Locked: a VM started by a binary that predates the policy
/// chains has its rules appended to the built-in FORWARD chain and
/// tagged with the comment. Teardown has to reproduce that exactly
/// or `iptables -D` no-ops and the rules leak.
#[test]
fn legacy_mode_forward_rules_are_appended_to_builtin_chain() {
    let rules = invocations(&tagged(None));
    assert_eq!(
        rules[1],
        [
            "-w",
            "5",
            "-A",
            "FORWARD",
            "-i",
            "ema3f4-550e840",
            "-o",
            "en0",
            "-m",
            "comment",
            "--comment",
            "ember:a3f4",
            "-j",
            "ACCEPT"
        ]
    );
    assert_eq!(
        rules[2],
        [
            "-w",
            "5",
            "-A",
            "FORWARD",
            "-i",
            "en0",
            "-o",
            "ema3f4-550e840",
            "-m",
            "conntrack",
            "--ctstate",
            "RELATED,ESTABLISHED",
            "-m",
            "comment",
            "--comment",
            "ember:a3f4",
            "-j",
            "ACCEPT"
        ]
    );
}

/// A legacy install has no namespace, so its rules carry no
/// comment match at all.
#[test]
fn legacy_install_rules_carry_no_comment_match() {
    let rules = VmRules {
        comment: "",
        ..tagged(None)
    };
    for invocation in invocations(&rules) {
        assert!(
            !invocation.contains(&"comment".to_string()),
            "unexpected comment match: {invocation:?}"
        );
    }
}

#[test]
fn what_was_added_is_removed() {
    let rules = tagged(Some("ember-a3f4-forward"));
    let added = rules.add();
    let removed = rules.remove();
    assert_eq!(added.len(), 3);
    assert_eq!(removed.len(), 3);
    for step in &added {
        let NetworkAction::EnsureRule(rule) = &step.action else {
            panic!("not a rule: {step:?}")
        };
        assert!(removed.iter().any(|r| match &r.action {
            NetworkAction::RemoveRule(gone) => gone.delete_args() == rule.delete_args(),
            _ => false,
        }));
    }
}
