//! The firewall policy of an installation.

use ember::error::Error;
use ember::firewall::NetworkAction;
use ember::iptables::Rule;
use ember::policy::{chains, deinit, deinit_outcome, ensure, jumps, static_rules, wildcard};

fn invocations(rules: &[Rule]) -> Vec<Vec<String>> {
    rules.iter().map(|r| r.add_args()).collect()
}

#[test]
fn chain_names_embed_the_namespace() {
    let c = chains(Some("a3f4"));
    assert_eq!(c.input, "ember-a3f4-input");
    assert_eq!(c.forward, "ember-a3f4-forward");
}

/// Installs predating instance ids get unprefixed names. They are
/// the only names such an install will ever use, so they have to
/// stay stable.
#[test]
fn legacy_chain_names_are_unprefixed() {
    let c = chains(None);
    assert_eq!(c.input, "ember-input");
    assert_eq!(c.forward, "ember-forward");
}

#[test]
fn chain_names_fit_the_iptables_budget() {
    let c = chains(Some("ffff"));
    for name in [c.input, c.forward] {
        assert!(name.len() <= 28, "chain name too long for iptables: {name}");
    }
}

/// The established-accept has to be reachable before the DROP, and
/// front placement is what guarantees that without inspecting rule
/// order. If this inverts, `ember ssh` breaks.
#[test]
fn host_block_accepts_established_before_dropping() {
    let c = chains(Some("a3f4"));
    let rules = invocations(&static_rules(&c, "ema3f4-+"));
    assert_eq!(
        rules[0],
        [
            "-w",
            "5",
            "-I",
            "ember-a3f4-input",
            "1",
            "-i",
            "ema3f4-+",
            "-m",
            "conntrack",
            "--ctstate",
            "RELATED,ESTABLISHED",
            "-j",
            "ACCEPT"
        ]
    );
    assert_eq!(
        rules[1],
        [
            "-w",
            "5",
            "-A",
            "ember-a3f4-input",
            "-i",
            "ema3f4-+",
            "-j",
            "DROP"
        ]
    );
}

/// One rule carries VM-to-VM in both directions, and the terminal
/// DROP is appended so per-VM ACCEPTs inserted later still land
/// above it.
#[test]
fn sibling_traffic_is_accepted_and_the_rest_dropped() {
    let c = chains(Some("a3f4"));
    let rules = invocations(&static_rules(&c, "ema3f4-+"));
    assert_eq!(
        rules[2],
        [
            "-w",
            "5",
            "-I",
            "ember-a3f4-forward",
            "1",
            "-i",
            "ema3f4-+",
            "-o",
            "ema3f4-+",
            "-j",
            "ACCEPT"
        ]
    );
    assert_eq!(
        rules[3],
        [
            "-w",
            "5",
            "-A",
            "ember-a3f4-forward",
            "-i",
            "ema3f4-+",
            "-j",
            "DROP"
        ]
    );
}

/// Every static rule matches on an ember TAP, which is what makes
/// jumping in at position 1 transparent to the rest of the host.
#[test]
fn no_static_rule_matches_non_ember_traffic() {
    let c = chains(Some("a3f4"));
    for rule in invocations(&static_rules(&c, "ema3f4-+")) {
        let i = rule.iter().position(|a| a == "-i").expect("no -i match");
        assert_eq!(rule[i + 1], "ema3f4-+", "unscoped rule: {rule:?}");
    }
}

/// The jumps have to go in at position 1, or the host's own rules
/// could accept guest traffic before our chains ever see it.
#[test]
fn jumps_go_in_at_the_top_of_the_builtin_chains() {
    let c = chains(Some("a3f4"));
    let rules = invocations(&jumps(&c));
    assert_eq!(
        rules[0],
        ["-w", "5", "-I", "INPUT", "1", "-j", "ember-a3f4-input"]
    );
    assert_eq!(
        rules[1],
        ["-w", "5", "-I", "FORWARD", "1", "-j", "ember-a3f4-forward"]
    );
}

/// Two installs must derive disjoint chain names and disjoint
/// interface matches, or one install's policy would govern the
/// other's VMs.
#[test]
fn installs_do_not_share_chains_or_interface_matches() {
    let a = chains(Some("aaaa"));
    let b = chains(Some("bbbb"));
    assert_ne!(a.input, b.input);
    assert_ne!(a.forward, b.forward);
    assert_ne!(wildcard(Some("aaaa")), wildcard(Some("bbbb")));
}

#[test]
fn chains_are_made_before_anything_points_to_them() {
    let steps = ensure(Some("a3f4"));
    let made = steps
        .iter()
        .rposition(|s| matches!(s.action, NetworkAction::EnsureChain(_)))
        .unwrap();
    let jump = steps
        .iter()
        .position(|s| match &s.action {
            NetworkAction::EnsureRule(r) => r.chain == "INPUT",
            _ => false,
        })
        .unwrap();
    assert!(made < jump);
}

#[test]
fn everything_is_tried_and_the_first_error_told() {
    assert_eq!(deinit(None).len(), 4);
    let first = Error::Network("a".to_string());
    let second = Error::Network("b".to_string());
    let told = deinit_outcome(&vec![Ok(()), Err(first.clone()), Err(second)]);
    assert_eq!(told, Err(first));
    assert!(deinit_outcome(&vec![Ok(()), Ok(())]).is_ok());
}
