//! Taking the network of a machine down.

use vstd::prelude::*;
use vstd::string::*;

use crate::config::{namespace, opt_str, GlobalConfig};
use crate::error::{Error, ErrorView};
use crate::firewall::{after, removing, Firewall, NetworkAction, NetworkView};
use crate::iptables::{cleared, holds, same_rule, RuleView};
use crate::procedure::{may, no_steps, plan, then_may, Step, StepView};
use crate::text::opt_text;
use crate::vm::NetworkInfo;
use crate::vm_rules::{comment, comment_of, forwarding, inbound, masquerade, outbound, VmRules};

verus! {

/// The interface to the outside: the recorded one, or else the one that was
/// found.
pub open spec fn outside_of(recorded: Option<Seq<char>>, detected: Option<Seq<char>>) -> Option<
    Seq<char>,
> {
    match recorded {
        Some(w) => Some(w),
        None => detected,
    }
}

/// The interface to the outside: the recorded one, or else the one that was
/// found.
pub fn outside<'a>(recorded: &'a Option<String>, detected: Option<&'a str>) -> (r: Option<&'a str>)
    ensures
        opt_str(r) == outside_of(opt_text(*recorded), opt_str(detected)),
{
    match recorded {
        Some(w) => Some(w.as_str()),
        None => detected,
    }
}

/// How the network of a machine is taken down. Nothing of it can fail. Without
/// an interface to the outside there are no rules to remove.
pub open spec fn cleanup_plan(
    instance_id: Seq<char>,
    vm_name: Seq<char>,
    net: NetworkInfo,
    wan: Option<Seq<char>>,
) -> Seq<StepView<NetworkView>> {
    let tag = comment_of(namespace(instance_id));
    let chain = opt_text(net.firewall_chain);
    (match wan {
        None => seq![],
        Some(w) => removing(
            seq![
                masquerade(net.guest_ip@, w, tag),
                forwarding(chain, outbound(net.tap_device@, w), tag),
                forwarding(chain, inbound(net.tap_device@, w), tag),
            ],
        ),
    }) + seq![
        may(NetworkView::DeleteTap(net.tap_device@)),
        may(NetworkView::ReleaseIp(vm_name)),
    ]
}

/// How the network of a machine is taken down. `detected` is the interface to
/// the outside that was found.
pub fn cleanup(
    config: &GlobalConfig,
    vm_name: &str,
    net_info: &NetworkInfo,
    detected: Option<&str>,
) -> (r: Vec<Step<NetworkAction>>)
    ensures
        plan(r@) == cleanup_plan(
            config.instance_id@,
            vm_name@,
            *net_info,
            outside_of(opt_text(net_info.wan_iface), opt_str(detected)),
        ),
{
    let mut steps: Vec<Step<NetworkAction>> = no_steps();
    match outside(&net_info.wan_iface, detected) {
        None => {},
        Some(wan) => {
            let tag = comment(config.instance_namespace());
            let rules = VmRules {
                chain: match &net_info.firewall_chain {
                    Some(c) => Some(c.as_str()),
                    None => None,
                },
                tap_device: net_info.tap_device.as_str(),
                guest_ip: net_info.guest_ip.as_str(),
                wan_iface: wan,
                comment: tag.as_str(),
            };
            let ghost views = rules.rules_spec();
            assert(views =~= seq![
                masquerade(rules.guest_ip@, wan@, tag@),
                forwarding(rules.chain_text(), outbound(rules.tap_device@, wan@), tag@),
                forwarding(rules.chain_text(), inbound(rules.tap_device@, wan@), tag@),
            ]);
            steps = rules.remove();
        },
    }
    let ghost head = plan(steps@);
    steps = then_may(steps, NetworkAction::DeleteTap(net_info.tap_device.clone()));
    steps = then_may(steps, NetworkAction::ReleaseIp(vm_name.to_owned()));
    assert(plan(steps@) =~= head + seq![
        may(NetworkView::DeleteTap(net_info.tap_device@)),
        may(NetworkView::ReleaseIp(vm_name@)),
    ]);
    steps
}

/// The address of a machine whose network card has this address, where addresses
/// are handed out and need not be found.
pub fn discover_guest_ip(_mac: &str) -> (r: Result<String, Error>)
    ensures
        r is Err,
        r->Err_0@ == ErrorView::Network(
            "guest IP discovery not supported — IPs are statically allocated"@,
        ),
{
    Err(
        Error::Network(
            "guest IP discovery not supported — IPs are statically allocated".to_owned(),
        ),
    )
}

/// What the host has for the network of machines: its rules, the devices, and the machines
/// that have an address.
pub struct Host {
    pub firewall: Firewall,
    pub devices: Set<Seq<char>>,
    pub addressed: Set<Seq<char>>,
}

/// The host once something was done with success.
pub open spec fn done(w: Host, a: NetworkView) -> Host {
    match a {
        NetworkView::DeleteTap(d) => Host { devices: w.devices.remove(d), ..w },
        NetworkView::ReleaseIp(n) => Host { addressed: w.addressed.remove(n), ..w },
        _ => Host { firewall: after(w.firewall, a), ..w },
    }
}

/// The host once the steps were done with success, one after the other.
pub open spec fn done_all(w: Host, p: Seq<StepView<NetworkView>>) -> Host
    decreases p.len(),
{
    if p.len() == 0 {
        w
    } else {
        done(done_all(w, p.drop_last()), p.last().action)
    }
}

/// A machine whose network is taken down has neither a device nor an address, and where
/// the way to the outside is known none of the rules that let it out, let the answers in
/// and lend it the address of the host. No other device and no other address goes. Whatever
/// of it fails, the rest is done.
pub proof fn law_a_network_goes(
    instance_id: Seq<char>,
    vm: Seq<char>,
    net: NetworkInfo,
    wan: Option<Seq<char>>,
    w: Host,
)
    ensures
        ({
            let p = cleanup_plan(instance_id, vm, net, wan);
            let left = done_all(w, p);
            let tag = comment_of(namespace(instance_id));
            let chain = opt_text(net.firewall_chain);
            &&& left.devices == w.devices.remove(net.tap_device@)
            &&& left.addressed == w.addressed.remove(vm)
            &&& forall|i: int| 0 <= i < p.len() ==> (#[trigger] p[i]).tolerate
            &&& wan is None ==> left.firewall == w.firewall
            &&& wan matches Some(o) ==> gone(left, masquerade(net.guest_ip@, o, tag)) && gone(
                left,
                forwarding(chain, outbound(net.tap_device@, o), tag),
            ) && gone(left, forwarding(chain, inbound(net.tap_device@, o), tag))
        }),
{
    let p = cleanup_plan(instance_id, vm, net, wan);
    let tag = comment_of(namespace(instance_id));
    let chain = opt_text(net.firewall_chain);
    assert forall|i: int| 0 < i <= p.len() implies done_all(w, #[trigger] p.take(i)) == done(
        done_all(w, p.take(i - 1)),
        p[i - 1].action,
    ) by {
        assert(p.take(i).drop_last() =~= p.take(i - 1));
    }
    assert(done_all(w, p.take(0)) == w);
    assert(p.take(p.len() as int) =~= p);
    match wan {
        None => {
            assert(p.len() == 2);
            let w1 = Host { devices: w.devices.remove(net.tap_device@), ..w };
            assert(done_all(w, p.take(1)) == w1);
            assert(done_all(w, p.take(2)) == Host { addressed: w.addressed.remove(vm), ..w1 });
        },
        Some(o) => {
            let a = masquerade(net.guest_ip@, o, tag);
            let b = forwarding(chain, outbound(net.tap_device@, o), tag);
            let c = forwarding(chain, inbound(net.tap_device@, o), tag);
            assert(p.len() == 5);
            let f1 = after(w.firewall, NetworkView::RemoveRule(a));
            let f2 = after(f1, NetworkView::RemoveRule(b));
            let f3 = after(f2, NetworkView::RemoveRule(c));
            let w1 = Host { firewall: f1, ..w };
            let w2 = Host { firewall: f2, ..w };
            let w3 = Host { firewall: f3, ..w };
            let w4 = Host { devices: w.devices.remove(net.tap_device@), ..w3 };
            let w5 = Host { addressed: w.addressed.remove(vm), ..w4 };
            assert(done_all(w, p.take(1)) == w1);
            assert(done_all(w, p.take(2)) == w2);
            assert(done_all(w, p.take(3)) == w3);
            assert(done_all(w, p.take(4)) == w4);
            assert(done_all(w, p.take(5)) == w5);
            lemma_cleared(w.firewall, a, a);
            lemma_cleared(f1, a, b);
            lemma_cleared(f1, b, b);
            lemma_cleared(f2, a, c);
            lemma_cleared(f2, b, c);
            lemma_cleared(f2, c, c);
        },
    }
}

/// Whether a rule is not there.
pub open spec fn gone(w: Host, r: RuleView) -> bool {
    !holds(w.firewall.chains[(r.table, r.chain)], r)
}

/// Removing one rule brings no other.
proof fn lemma_cleared(f: Firewall, r: RuleView, x: RuleView)
    ensures
        ({
            let g = after(f, NetworkView::RemoveRule(x));
            (r == x || !holds(f.chains[(r.table, r.chain)], r)) ==> !holds(
                g.chains[(r.table, r.chain)],
                r,
            )
        }),
{
    lemma_cleared_holds(f.chains[(x.table, x.chain)], r, x);
}

proof fn lemma_cleared_holds(list: Seq<RuleView>, r: RuleView, x: RuleView)
    ensures
        holds(cleared(list, x), r) ==> holds(list, r) && r != x,
    decreases list.len(),
{
    reveal(Seq::filter);
    if list.len() > 0 && holds(cleared(list, x), r) {
        let before = list.drop_last();
        let rest = cleared(before, x);
        lemma_cleared_holds(before, r, x);
        let all = cleared(list, x);
        let i = choose|i: int| 0 <= i < all.len() && same_rule(#[trigger] all[i], r);
        if i < rest.len() {
            assert(all[i] == rest[i]);
            assert(holds(rest, r));
            let j = choose|j: int| 0 <= j < before.len() && same_rule(#[trigger] before[j], r);
            assert(same_rule(list[j], r));
        } else {
            assert(all[i] == list.last());
            assert(same_rule(list[list.len() - 1], r));
        }
    }
}

} // verus!
