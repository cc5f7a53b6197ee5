//! The firewall rules of one machine.
//!
//! Three rules connect a machine to the outside: one rewrites the address of
//! what leaves it, one lets its packets out and one lets the answers in.

use vstd::prelude::*;
use vstd::string::*;

use crate::command::{nothing, with};
use crate::firewall::{
    ensuring, removing, rule_views, then_ensure, then_remove, NetworkAction,
};
use crate::iptables::{with_all, words_of, Placement, Rule, RuleView, Table};
use crate::procedure::{no_steps, plan, Step};
use crate::text::texts;

verus! {

/// The comment on the rules of an installation; empty for one without an id.
pub open spec fn comment_of(instance_id: Option<Seq<char>>) -> Seq<char> {
    match instance_id {
        None => ""@,
        Some(id) => "ember:"@ + id,
    }
}

/// The comment on the rules of an installation; empty for one without an id.
pub fn comment(instance_id: Option<&str>) -> (r: String)
    ensures
        r@ == comment_of(match instance_id {
            Some(id) => Some(id@),
            None => None,
        }),
{
    match instance_id {
        None => "".to_owned(),
        Some(id) => "ember:".to_owned().concat(id),
    }
}

/// The arguments `head` and `tail` with a match on a comment between them, or
/// with nothing between them when the comment is empty.
pub open spec fn commented(head: Seq<Seq<char>>, comment: Seq<char>, tail: Seq<Seq<char>>) -> Seq<
    Seq<char>,
> {
    if comment.len() == 0 {
        head + tail
    } else {
        head + seq!["-m"@, "comment"@, "--comment"@, comment] + tail
    }
}

/// The arguments `head` and `tail` with a match on a comment between them, or
/// with nothing between them when the comment is empty.
pub fn with_comment(head: &[&str], comment: &str, tail: &[&str]) -> (r: Vec<String>)
    ensures
        texts(r@) == commented(words_of(head@), comment@, words_of(tail@)),
{
    let v = with_all(nothing(), head);
    assert(texts(v@) =~= words_of(head@));
    finish(v, comment, tail)
}

fn finish(head: Vec<String>, comment: &str, tail: &[&str]) -> (r: Vec<String>)
    ensures
        texts(r@) == commented(texts(head@), comment@, words_of(tail@)),
{
    let ghost h = texts(head@);
    let v = if comment.unicode_len() == 0 {
        head
    } else {
        let v = with(with(with(with(head, "-m"), "comment"), "--comment"), comment);
        assert(texts(v@) =~= h + seq!["-m"@, "comment"@, "--comment"@, comment@]);
        v
    };
    with_all(v, tail)
}

fn jump(head: Vec<String>, comment: &str, target: &str) -> (r: Vec<String>)
    ensures
        texts(r@) == commented(texts(head@), comment@, seq!["-j"@, target@]),
{
    let ghost h = texts(head@);
    let none: [&str; 0] = [];
    let v = finish(head, comment, &none);
    let v = with(with(v, "-j"), target);
    assert(texts(v@) =~= commented(h, comment@, seq!["-j"@, target@]));
    v
}

/// What the rules of one machine are made of. The same value describes adding
/// and removing them.
#[derive(Debug, Clone, Copy)]
pub struct VmRules<'a> {
    /// The chain for the two forwarding rules; `None` for the builtin one,
    /// with a comment on each rule.
    pub chain: Option<&'a str>,
    pub tap_device: &'a str,
    pub guest_ip: &'a str,
    pub wan_iface: &'a str,
    pub comment: &'a str,
}

/// The rule that rewrites addresses.
pub open spec fn masquerade(guest_ip: Seq<char>, wan: Seq<char>, comment: Seq<char>) -> RuleView {
    RuleView {
        table: Table::Nat,
        chain: "POSTROUTING"@,
        args: commented(
            seq!["-s"@, guest_ip + "/32"@, "-o"@, wan],
            comment,
            seq!["-j"@, "MASQUERADE"@],
        ),
        placement: Placement::Back,
    }
}

/// A rule that forwards packets: at the front of a chain of the installation,
/// or, with a comment, at the end of the builtin one.
pub open spec fn forwarding(chain: Option<Seq<char>>, matches: Seq<Seq<char>>, comment: Seq<char>) -> RuleView {
    match chain {
        Some(c) => RuleView {
            table: Table::Filter,
            chain: c,
            args: matches + seq!["-j"@, "ACCEPT"@],
            placement: Placement::Front,
        },
        None => RuleView {
            table: Table::Filter,
            chain: "FORWARD"@,
            args: commented(matches, comment, seq!["-j"@, "ACCEPT"@]),
            placement: Placement::Back,
        },
    }
}

/// What leaves the machine.
pub open spec fn outbound(tap: Seq<char>, wan: Seq<char>) -> Seq<Seq<char>> {
    seq!["-i"@, tap, "-o"@, wan]
}

/// The answers to what left the machine.
pub open spec fn inbound(tap: Seq<char>, wan: Seq<char>) -> Seq<Seq<char>> {
    seq![
        "-i"@,
        wan,
        "-o"@,
        tap,
        "-m"@,
        "conntrack"@,
        "--ctstate"@,
        "RELATED,ESTABLISHED"@,
    ]
}

impl<'a> VmRules<'a> {
    /// The chain, by its text.
    pub open spec fn chain_text(self) -> Option<Seq<char>> {
        match self.chain {
            Some(c) => Some(c@),
            None => None,
        }
    }

    /// The two forwarding rules.
    pub open spec fn forwarding_views(self) -> Seq<RuleView> {
        seq![
            forwarding(
                self.chain_text(),
                outbound(self.tap_device@, self.wan_iface@),
                self.comment@,
            ),
            forwarding(
                self.chain_text(),
                inbound(self.tap_device@, self.wan_iface@),
                self.comment@,
            ),
        ]
    }

    /// The rules, in the order in which they are added.
    pub open spec fn rules_spec(self) -> Seq<RuleView> {
        seq![masquerade(self.guest_ip@, self.wan_iface@, self.comment@)]
            + self.forwarding_views()
    }

    fn forwarding_rule(&self, matches: Vec<String>) -> (r: Rule)
        ensures
            r@ == forwarding(self.chain_text(), texts(matches@), self.comment@),
    {
        let ghost m = texts(matches@);
        match self.chain {
            Some(chain) => {
                let args = with(with(matches, "-j"), "ACCEPT");
                assert(texts(args@) =~= m + seq!["-j"@, "ACCEPT"@]);
                Rule::of(Table::Filter, chain, args).at_front()
            },
            None => Rule::of(Table::Filter, "FORWARD", jump(matches, self.comment, "ACCEPT")),
        }
    }

    fn masquerade_rule(&self) -> (r: Rule)
        ensures
            r@ == masquerade(self.guest_ip@, self.wan_iface@, self.comment@),
    {
        let guest_cidr = self.guest_ip.to_owned().concat("/32");
        let head = with(
            with(with(with(nothing(), "-s"), guest_cidr.as_str()), "-o"),
            self.wan_iface,
        );
        Rule::of(Table::Nat, "POSTROUTING", jump(head, self.comment, "MASQUERADE"))
    }

    /// The two forwarding rules.
    pub fn forwarding_rules(&self) -> (r: Vec<Rule>)
        ensures
            rule_views(r@) == self.forwarding_views(),
    {
        let out = with(
            with(with(with(nothing(), "-i"), self.tap_device), "-o"),
            self.wan_iface,
        );
        let back = with(
            with(with(with(nothing(), "-i"), self.wan_iface), "-o"),
            self.tap_device,
        );
        let back = with(
            with(with(with(back, "-m"), "conntrack"), "--ctstate"),
            "RELATED,ESTABLISHED",
        );
        let mut r: Vec<Rule> = Vec::new();
        r.push(self.forwarding_rule(out));
        r.push(self.forwarding_rule(back));
        assert(rule_views(r@) =~~= self.forwarding_views());
        r
    }

    /// The rules, in the order in which they are added.
    pub fn rules(&self) -> (r: Vec<Rule>)
        ensures
            rule_views(r@) == self.rules_spec(),
    {
        let mut r: Vec<Rule> = Vec::new();
        r.push(self.masquerade_rule());
        let mut forward = self.forwarding_rules();
        let ghost f = forward@;
        r.append(&mut forward);
        assert(rule_views(r@) =~= seq![
            masquerade(self.guest_ip@, self.wan_iface@, self.comment@),
        ] + rule_views(f));
        r
    }

    /// How the rules are added, those that are there already excepted.
    pub fn add(&self) -> (r: Vec<Step<NetworkAction>>)
        ensures
            plan(r@) == ensuring(self.rules_spec()),
    {
        let r = then_ensure(no_steps(), self.rules());
        assert(plan(r@) =~= ensuring(self.rules_spec()));
        r
    }

    /// How the rules are removed, as far as they can be.
    pub fn remove(&self) -> (r: Vec<Step<NetworkAction>>)
        ensures
            plan(r@) == removing(self.rules_spec()),
    {
        let r = then_remove(no_steps(), self.rules());
        assert(plan(r@) =~= removing(self.rules_spec()));
        r
    }

    /// How the two forwarding rules are added.
    pub fn add_forwarding(&self) -> (r: Vec<Step<NetworkAction>>)
        ensures
            plan(r@) == ensuring(self.forwarding_views()),
    {
        let r = then_ensure(no_steps(), self.forwarding_rules());
        assert(plan(r@) =~= ensuring(self.forwarding_views()));
        r
    }

    /// How the two forwarding rules are removed.
    pub fn remove_forwarding(&self) -> (r: Vec<Step<NetworkAction>>)
        ensures
            plan(r@) == removing(self.forwarding_views()),
    {
        let r = then_remove(no_steps(), self.forwarding_rules());
        assert(plan(r@) =~= removing(self.forwarding_views()));
        r
    }
}

/// The rule that rewrites addresses is the same with and without a chain for
/// the forwarding rules.
pub proof fn law_masquerade_is_the_same_in_both_modes(a: VmRules, b: VmRules)
    requires
        a.guest_ip@ == b.guest_ip@,
        a.wan_iface@ == b.wan_iface@,
        a.comment@ == b.comment@,
    ensures
        a.rules_spec()[0] == b.rules_spec()[0],
{
}

/// What removing the rules of a machine names is what adding them named.
pub proof fn law_what_was_added_is_removed(r: VmRules, i: int)
    requires
        0 <= i < 3,
    ensures
        ensuring(r.rules_spec())[i].action == crate::firewall::NetworkView::EnsureRule(
            r.rules_spec()[i],
        ),
        removing(r.rules_spec())[i].action == crate::firewall::NetworkView::RemoveRule(
            r.rules_spec()[i],
        ),
{
}

/// In a chain of the installation, the forwarding rules carry no comment and
/// go to the front.
pub proof fn law_chained_rules_carry_no_comment(r: VmRules, comment: &str)
    requires
        r.chain is Some,
    ensures
        r.forwarding_views() == (VmRules { comment, ..r }).forwarding_views(),
        forall|i: int|
            0 <= i < 2 ==> (#[trigger] r.forwarding_views()[i]).placement == Placement::Front,
{
}

} // verus!
