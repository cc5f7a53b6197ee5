//! What the firewall rules of an installation make of packets.

use vstd::prelude::*;
use vstd::string::*;

use crate::firewall::NetworkView;
use crate::iptables::{Placement, RuleView, Table};
use crate::policy::{chain_names, jump_views, setup, static_views, tap_wildcard};
use crate::vm_rules::{forwarding, inbound, masquerade, outbound};

verus! {

/// A packet: the device that it came in by, the one that it goes out by where it is not
/// for the host, the address that it comes from, and whether it belongs to a
/// conversation that is known.
#[verifier::ext_equal]
pub struct Packet {
    pub from: Seq<char>,
    pub to: Option<Seq<char>>,
    pub source: Seq<char>,
    pub known: bool,
}

/// Whether a device is meant by a pattern: one that ends in a plus means all whose names
/// start with the rest, and any other means the device of that name.
pub open spec fn meant(pattern: Seq<char>, device: Seq<char>) -> bool {
    if pattern.len() > 0 && pattern.last() == '+' {
        pattern.len() - 1 <= device.len() && device.take(pattern.len() - 1) == pattern.drop_last()
    } else {
        device == pattern
    }
}

/// Whether a rule with these arguments is about a packet.
pub open spec fn fits(args: Seq<Seq<char>>, p: Packet) -> bool
    decreases args.len(),
{
    if args.len() < 2 {
        args.len() == 0
    } else {
        let rest = fits(args.skip(2), p);
        if args[0] == "-i"@ {
            meant(args[1], p.from) && rest
        } else if args[0] == "-o"@ {
            p.to is Some && meant(args[1], p.to->0) && rest
        } else if args[0] == "-s"@ {
            args[1] == p.source + "/32"@ && rest
        } else if args[0] == "-m"@ {
            (args[1] == "conntrack"@ || args[1] == "comment"@) && rest
        } else if args[0] == "--ctstate"@ {
            args[1] == "RELATED,ESTABLISHED"@ && p.known && rest
        } else if args[0] == "--comment"@ {
            rest
        } else {
            args[0] == "-j"@ && rest
        }
    }
}

/// Where a rule with these arguments leads.
pub open spec fn target(args: Seq<Seq<char>>) -> Option<Seq<char>> {
    if args.len() >= 2 && args[args.len() - 2] == "-j"@ {
        Some(args.last())
    } else {
        None
    }
}

/// Where the first rule of a chain that is about a packet leads.
pub open spec fn verdict(chain: Seq<RuleView>, p: Packet) -> Option<Seq<char>>
    decreases chain.len(),
{
    if chain.len() == 0 {
        None
    } else if fits(chain[0].args, p) {
        target(chain[0].args)
    } else {
        verdict(chain.skip(1), p)
    }
}

/// The rules of a chain among those that are added one after the other: each goes where
/// it is to be placed.
pub open spec fn filled(rules: Seq<RuleView>, table: Table, chain: Seq<char>) -> Seq<RuleView>
    decreases rules.len(),
{
    if rules.len() == 0 {
        seq![]
    } else {
        let before = filled(rules.drop_last(), table, chain);
        let r = rules.last();
        if r.table != table || r.chain != chain {
            before
        } else if r.placement == Placement::Front {
            seq![r] + before
        } else {
            before.push(r)
        }
    }
}

/// The name of a device of a machine of an installation.
pub open spec fn is_tap(device: Seq<char>, instance_id: Option<Seq<char>>) -> bool {
    exists|suffix: Seq<char>| #[trigger] tap_named(instance_id, suffix) == device
}

/// The device of a machine, from what tells it from others.
pub open spec fn tap_named(instance_id: Option<Seq<char>>, suffix: Seq<char>) -> Seq<char> {
    match instance_id {
        None => "em-"@ + suffix,
        Some(id) => "em"@ + id + "-"@ + suffix,
    }
}

/// The rules of an installation are about the devices of all of its machines and about
/// no others.
pub proof fn law_the_wildcard_means_the_machines(instance_id: Option<Seq<char>>, device: Seq<char>)
    ensures
        meant(tap_wildcard(instance_id), device) <==> is_tap(device, instance_id),
{
    reveal_strlit("em-+");
    reveal_strlit("em-");
    reveal_strlit("em");
    reveal_strlit("-+");
    reveal_strlit("-");
    let w = tap_wildcard(instance_id);
    let stem = tap_named(instance_id, seq![]);
    assert(w =~= stem.push('+'));
    assert(w.drop_last() =~= stem);
    if meant(w, device) {
        let suffix = device.skip(stem.len() as int);
        assert(device =~= device.take(stem.len() as int) + suffix);
        assert(tap_named(instance_id, suffix) =~= stem + suffix);
        assert(tap_named(instance_id, suffix) == device);
    }
    if is_tap(device, instance_id) {
        let suffix = choose|suffix: Seq<char>| #[trigger] tap_named(instance_id, suffix) == device;
        assert(tap_named(instance_id, suffix) =~= stem + suffix);
        assert(device.take(stem.len() as int) =~= stem);
    }
}

/// No device belongs to two installations whose ids are of the same length, nor to one
/// with an id and one without.
pub proof fn law_no_device_of_two_installations(a: Seq<char>, b: Seq<char>, device: Seq<char>)
    requires
        is_tap(device, Some(a)),
    ensures
        a != b && a.len() == b.len() ==> !is_tap(device, Some(b)),
        a.len() > 0 && a[0] != '-' ==> !is_tap(device, None),
{
    reveal_strlit("em-");
    reveal_strlit("em");
    reveal_strlit("-");
    let s = choose|s: Seq<char>| #[trigger] tap_named(Some(a), s) == device;
    if a != b && a.len() == b.len() && is_tap(device, Some(b)) {
        let t = choose|t: Seq<char>| #[trigger] tap_named(Some(b), t) == device;
        assert(tap_named(Some(a), s).subrange(2, (2 + a.len()) as int) =~= a);
        assert(tap_named(Some(b), t).subrange(2, (2 + b.len()) as int) =~= b);
    }
    if a.len() > 0 && a[0] != '-' && is_tap(device, None) {
        let t = choose|t: Seq<char>| #[trigger] tap_named(None, t) == device;
        assert(tap_named(Some(a), s)[2] == a[0]);
        assert(tap_named(None, t)[2] == '-');
    }
}

proof fn lemma_words()
    ensures
        "-i"@ != "-o"@,
        "-i"@ != "-s"@,
        "-i"@ != "-m"@,
        "-i"@ != "-j"@,
        "-o"@ != "-s"@,
        "-o"@ != "-m"@,
        "-o"@ != "-j"@,
        "-s"@ != "-m"@,
        "-s"@ != "-j"@,
        "-m"@ != "-j"@,
        "--ctstate"@ != "-i"@,
        "--ctstate"@ != "-o"@,
        "--ctstate"@ != "-s"@,
        "--ctstate"@ != "-m"@,
        "--comment"@ != "-i"@,
        "--comment"@ != "-o"@,
        "--comment"@ != "-s"@,
        "--comment"@ != "-m"@,
        "--comment"@ != "--ctstate"@,
        "--comment"@ != "-j"@,
        "--ctstate"@ != "-j"@,
{
    reveal_strlit("-i");
    reveal_strlit("-o");
    reveal_strlit("-s");
    reveal_strlit("-m");
    reveal_strlit("-j");
    reveal_strlit("--ctstate");
    reveal_strlit("--comment");
    assert("-i"@[1] == 'i');
    assert("-o"@[1] == 'o');
    assert("-s"@[1] == 's');
    assert("-m"@[1] == 'm');
    assert("-j"@[1] == 'j');
    assert("--ctstate"@[1] == '-' && "--ctstate"@[3] == 't');
    assert("--comment"@[1] == '-' && "--comment"@[3] == 'o');
}

proof fn lemma_two(a: Seq<char>, b: Seq<char>, rest: Seq<Seq<char>>, p: Packet)
    ensures
        fits(seq![a, b] + rest, p) == ({
            let more = fits(rest, p);
            if a == "-i"@ {
                meant(b, p.from) && more
            } else if a == "-o"@ {
                p.to is Some && meant(b, p.to->0) && more
            } else if a == "-s"@ {
                b == p.source + "/32"@ && more
            } else if a == "-m"@ {
                (b == "conntrack"@ || b == "comment"@) && more
            } else if a == "--ctstate"@ {
                b == "RELATED,ESTABLISHED"@ && p.known && more
            } else if a == "--comment"@ {
                more
            } else {
                a == "-j"@ && more
            }
        }),
{
    let all = seq![a, b] + rest;
    assert(all.skip(2) =~= rest);
    assert(all[0] == a);
    assert(all[1] == b);
}

proof fn lemma_static_rules(input: Seq<char>, forward: Seq<char>, taps: Seq<char>, p: Packet)
    ensures
        ({
            let r = static_views(input, forward, taps);
            let mine = meant(taps, p.from);
            &&& r.len() == 4
            &&& fits(r[0].args, p) == (mine && p.known)
            &&& fits(r[1].args, p) == mine
            &&& fits(r[2].args, p) == (mine && p.to is Some && meant(taps, p.to->0))
            &&& fits(r[3].args, p) == mine
            &&& target(r[0].args) == Some("ACCEPT"@)
            &&& target(r[1].args) == Some("DROP"@)
            &&& target(r[2].args) == Some("ACCEPT"@)
            &&& target(r[3].args) == Some("DROP"@)
        }),
{
    lemma_words();
    let r = static_views(input, forward, taps);
    let none = Seq::<Seq<char>>::empty();
    let acc = seq!["-j"@, "ACCEPT"@] + none;
    let drp = seq!["-j"@, "DROP"@] + none;
    lemma_two("-j"@, "ACCEPT"@, none, p);
    lemma_two("-j"@, "DROP"@, none, p);
    let c = seq!["--ctstate"@, "RELATED,ESTABLISHED"@] + acc;
    lemma_two("--ctstate"@, "RELATED,ESTABLISHED"@, acc, p);
    let m = seq!["-m"@, "conntrack"@] + c;
    lemma_two("-m"@, "conntrack"@, c, p);
    lemma_two("-i"@, taps, m, p);
    assert(r[0].args =~= seq!["-i"@, taps] + m);
    lemma_two("-i"@, taps, drp, p);
    assert(r[1].args =~= seq!["-i"@, taps] + drp);
    assert(r[3].args =~= seq!["-i"@, taps] + drp);
    let o = seq!["-o"@, taps] + acc;
    lemma_two("-o"@, taps, acc, p);
    lemma_two("-i"@, taps, o, p);
    assert(r[2].args =~= seq!["-i"@, taps] + o);
}

proof fn lemma_filled_static(input: Seq<char>, forward: Seq<char>, taps: Seq<char>)
    requires
        input != forward,
    ensures
        ({
            let r = static_views(input, forward, taps);
            &&& filled(r, Table::Filter, input) == seq![r[0], r[1]]
            &&& filled(r, Table::Filter, forward) == seq![r[2], r[3]]
        }),
{
    let r = static_views(input, forward, taps);
    assert(r.drop_last() =~= seq![r[0], r[1], r[2]]);
    assert(seq![r[0], r[1], r[2]].drop_last() =~= seq![r[0], r[1]]);
    assert(seq![r[0], r[1]].drop_last() =~= seq![r[0]]);
    assert(seq![r[0]].drop_last() =~= seq![]);
    reveal_with_fuel(filled, 5);
    assert(seq![r[0]] + Seq::<RuleView>::empty() =~= seq![r[0]]);
    assert(seq![r[2]] + Seq::<RuleView>::empty() =~= seq![r[2]]);
    assert(filled(r, Table::Filter, input) =~= seq![r[0], r[1]]);
    assert(filled(r, Table::Filter, forward) =~= seq![r[2], r[3]]);
}

proof fn lemma_verdict_two(a: RuleView, b: RuleView, p: Packet)
    ensures
        verdict(seq![a, b], p) == (if fits(a.args, p) {
            target(a.args)
        } else if fits(b.args, p) {
            target(b.args)
        } else {
            None
        }),
{
    assert(seq![a, b].skip(1) =~= seq![b]);
    assert(seq![b].skip(1) =~= seq![]);
    reveal_with_fuel(verdict, 3);
}

/// What comes from a machine of an installation reaches the host only where it answers
/// something, is forwarded to its other machines, and nowhere else unless a rule of its
/// own allows that. What comes from elsewhere is left to the other rules of the host.
pub proof fn law_machines_reach_each_other_and_not_the_host(
    instance_id: Option<Seq<char>>,
    p: Packet,
)
    ensures
        ({
            let (input, forward) = chain_names(instance_id);
            let rules = static_views(input, forward, tap_wildcard(instance_id));
            let to_host = verdict(filled(rules, Table::Filter, input), p);
            let through = verdict(filled(rules, Table::Filter, forward), p);
            &&& input != forward
            &&& is_tap(p.from, instance_id) ==> to_host == Some(
                if p.known {
                    "ACCEPT"@
                } else {
                    "DROP"@
                },
            )
            &&& is_tap(p.from, instance_id) ==> through == Some(
                if p.to is Some && is_tap(p.to->0, instance_id) {
                    "ACCEPT"@
                } else {
                    "DROP"@
                },
            )
            &&& !is_tap(p.from, instance_id) ==> to_host is None && through is None
        }),
{
    let (input, forward) = chain_names(instance_id);
    let taps = tap_wildcard(instance_id);
    let r = static_views(input, forward, taps);
    law_the_wildcard_means_the_machines(instance_id, p.from);
    if p.to is Some {
        law_the_wildcard_means_the_machines(instance_id, p.to->0);
    }
    reveal_strlit("ember-input");
    reveal_strlit("ember-forward");
    reveal_strlit("-input");
    reveal_strlit("-forward");
    reveal_strlit("ember-");
    assert(input.len() != forward.len());
    lemma_static_rules(input, forward, taps, p);
    lemma_filled_static(input, forward, taps);
    lemma_verdict_two(r[0], r[1], p);
    lemma_verdict_two(r[2], r[3], p);
}

/// The builtin chains lead everything to the chains of the installation: what is for
/// the host to the first, and what is forwarded to the second.
pub proof fn law_everything_meets_the_chains(instance_id: Option<Seq<char>>, p: Packet)
    ensures
        ({
            let (input, forward) = chain_names(instance_id);
            let jumps = jump_views(input, forward);
            &&& verdict(filled(jumps, Table::Filter, "INPUT"@), p) == Some(input)
            &&& verdict(filled(jumps, Table::Filter, "FORWARD"@), p) == Some(forward)
        }),
{
    lemma_words();
    reveal_strlit("INPUT");
    reveal_strlit("FORWARD");
    assert("INPUT"@.len() == 5);
    assert("FORWARD"@.len() == 7);
    let (input, forward) = chain_names(instance_id);
    let j = jump_views(input, forward);
    let none = Seq::<Seq<char>>::empty();
    lemma_two("-j"@, input, none, p);
    lemma_two("-j"@, forward, none, p);
    assert(j[0].args =~= seq!["-j"@, input] + none);
    assert(j[1].args =~= seq!["-j"@, forward] + none);
    assert(j.drop_last() =~= seq![j[0]]);
    assert(seq![j[0]].drop_last() =~= seq![]);
    reveal_with_fuel(filled, 3);
    assert(filled(j, Table::Filter, "INPUT"@) =~= seq![j[0]]);
    assert(filled(j, Table::Filter, "FORWARD"@) =~= seq![j[1]]);
    assert(seq![j[0]].skip(1) =~= seq![]);
    assert(seq![j[1]].skip(1) =~= seq![]);
}

/// When the firewall of an installation is set up, the host is made to forward packets
/// first; no rule is added to a chain of the installation before that chain is there,
/// and no packet is led to it before its rules are. Nothing of it may fail.
pub proof fn law_chains_are_filled_before_they_are_met(instance_id: Option<Seq<char>>)
    ensures
        ({
            let (input, forward) = chain_names(instance_id);
            let p = setup(instance_id);
            &&& p.len() == 9
            &&& p[0].action == NetworkView::EnableForwarding
            &&& forall|i: int| #![trigger p[i]]
                0 <= i < p.len() ==> !p[i].tolerate && (p[i].action matches NetworkView::EnsureRule(
                    r,
                ) ==> {
                    &&& (r.chain == input || r.chain == forward ==> exists|k: int|
                        0 <= k < i && (#[trigger] p[k]).action == NetworkView::EnsureChain(r.chain))
                    &&& (r.chain == "INPUT"@ || r.chain == "FORWARD"@ ==> i >= 7 && target(r.args)
                        == Some(
                        if r.chain == "INPUT"@ {
                            input
                        } else {
                            forward
                        },
                    ))
                })
        }),
{
    let (input, forward) = chain_names(instance_id);
    let p = setup(instance_id);
    reveal_strlit("INPUT");
    reveal_strlit("FORWARD");
    reveal_strlit("ember-input");
    reveal_strlit("ember-forward");
    reveal_strlit("-input");
    reveal_strlit("-forward");
    reveal_strlit("ember-");
    assert("INPUT"@.len() == 5);
    assert("FORWARD"@.len() == 7);
    assert(input.len() > 7 && forward.len() > 7);
    assert(p[1].action == NetworkView::EnsureChain(input));
    assert(p[2].action == NetworkView::EnsureChain(forward));
}

/// The rules of one machine let its packets out by the interface to the outside, and the
/// answers to them in, and nothing else; and what leaves by that interface with its
/// address gets that of the host.
pub proof fn law_a_machine_reaches_the_outside(
    chain: Option<Seq<char>>,
    tap: Seq<char>,
    wan: Seq<char>,
    guest_ip: Seq<char>,
    comment: Seq<char>,
    p: Packet,
)
    requires
        p.to is Some,
    ensures
        ({
            let out = forwarding(chain, outbound(tap, wan), comment);
            let back = forwarding(chain, inbound(tap, wan), comment);
            let hidden = masquerade(guest_ip, wan, comment);
            &&& fits(out.args, p) == (meant(tap, p.from) && meant(wan, p.to->0))
            &&& fits(back.args, p) == (meant(wan, p.from) && meant(tap, p.to->0) && p.known)
            &&& fits(hidden.args, p) == (p.source + "/32"@ == guest_ip + "/32"@ && meant(
                wan,
                p.to->0,
            ))
            &&& target(out.args) == Some("ACCEPT"@)
            &&& target(back.args) == Some("ACCEPT"@)
            &&& target(hidden.args) == Some("MASQUERADE"@)
            &&& hidden.table == Table::Nat && hidden.chain == "POSTROUTING"@
            &&& out.table == Table::Filter && back.table == Table::Filter
            &&& match chain {
                Some(c) => out.chain == c && back.chain == c && out.placement == Placement::Front
                    && back.placement == Placement::Front,
                None => out.chain == "FORWARD"@ && back.chain == "FORWARD"@,
            }
        }),
{
    lemma_words();
    let none = Seq::<Seq<char>>::empty();
    let acc = seq!["-j"@, "ACCEPT"@];
    let masq = seq!["-j"@, "MASQUERADE"@];
    assert(acc =~= acc + none);
    assert(masq =~= masq + none);
    lemma_two("-j"@, "ACCEPT"@, none, p);
    lemma_two("-j"@, "MASQUERADE"@, none, p);
    let note = seq!["-m"@, "comment"@, "--comment"@, comment];
    let acc2 = if chain is Some || comment.len() == 0 {
        acc
    } else {
        note + acc
    };
    let masq2 = if comment.len() == 0 {
        masq
    } else {
        note + masq
    };
    lemma_note(comment, acc, p);
    lemma_note(comment, masq, p);
    let out = forwarding(chain, outbound(tap, wan), comment);
    let back = forwarding(chain, inbound(tap, wan), comment);
    let hidden = masquerade(guest_ip, wan, comment);
    let o1 = seq!["-o"@, wan] + acc2;
    lemma_two("-o"@, wan, acc2, p);
    lemma_two("-i"@, tap, o1, p);
    assert(out.args =~= seq!["-i"@, tap] + o1);
    let b1 = seq!["--ctstate"@, "RELATED,ESTABLISHED"@] + acc2;
    let b2 = seq!["-m"@, "conntrack"@] + b1;
    let b3 = seq!["-o"@, tap] + b2;
    lemma_two("--ctstate"@, "RELATED,ESTABLISHED"@, acc2, p);
    lemma_two("-m"@, "conntrack"@, b1, p);
    lemma_two("-o"@, tap, b2, p);
    lemma_two("-i"@, wan, b3, p);
    assert(back.args =~= seq!["-i"@, wan] + b3);
    let n1 = seq!["-o"@, wan] + masq2;
    lemma_two("-o"@, wan, masq2, p);
    lemma_two("-s"@, guest_ip + "/32"@, n1, p);
    assert(hidden.args =~= seq!["-s"@, guest_ip + "/32"@] + n1);
    assert(hidden.args.last() == "MASQUERADE"@);
    assert(hidden.args[hidden.args.len() - 2] == "-j"@);
    assert(out.args[out.args.len() - 2] == "-j"@);
    assert(back.args[back.args.len() - 2] == "-j"@);
}

proof fn lemma_note(comment: Seq<char>, rest: Seq<Seq<char>>, p: Packet)
    ensures
        fits(seq!["-m"@, "comment"@, "--comment"@, comment] + rest, p) == fits(rest, p),
{
    lemma_words();
    let more = seq!["--comment"@, comment] + rest;
    lemma_two("--comment"@, comment, rest, p);
    lemma_two("-m"@, "comment"@, more, p);
    assert(seq!["-m"@, "comment"@, "--comment"@, comment] + rest =~= seq!["-m"@, "comment"@] + more);
}

} // verus!
