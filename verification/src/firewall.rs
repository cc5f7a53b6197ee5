//! Things to do to the firewall and to the devices of machines.

use vstd::prelude::*;

use crate::iptables::{
    cleared, ensured, holds, law_what_is_ensured_is_there, Rule, RuleView, Table,
};
use crate::procedure::{may, must, plan, then_may, then_must, Step, StepView};

verus! {

/// The views of a list of rules.
pub open spec fn rule_views(rules: Seq<Rule>) -> Seq<RuleView> {
    rules.map_values(|r: Rule| r@)
}

/// Something to do to the network of the host.
#[derive(Debug)]
pub enum NetworkAction {
    /// Let the host forward packets.
    EnableForwarding,
    /// Make a chain, unless it is there.
    EnsureChain(String),
    /// Add a rule, unless it is there.
    EnsureRule(Rule),
    /// Remove every copy of a rule.
    RemoveRule(Rule),
    /// Empty a chain and delete it, when it is there.
    RemoveChain(String),
    /// Delete a device.
    DeleteTap(String),
    /// Give back the address of a machine.
    ReleaseIp(String),
}

/// A [`NetworkAction`], its strings taken by their texts.
#[verifier::ext_equal]
pub enum NetworkView {
    EnableForwarding,
    EnsureChain(Seq<char>),
    EnsureRule(RuleView),
    RemoveRule(RuleView),
    RemoveChain(Seq<char>),
    DeleteTap(Seq<char>),
    ReleaseIp(Seq<char>),
}

impl View for NetworkAction {
    type V = NetworkView;

    open spec fn view(&self) -> NetworkView {
        match self {
            NetworkAction::EnableForwarding => NetworkView::EnableForwarding,
            NetworkAction::EnsureChain(c) => NetworkView::EnsureChain(c@),
            NetworkAction::EnsureRule(r) => NetworkView::EnsureRule(r@),
            NetworkAction::RemoveRule(r) => NetworkView::RemoveRule(r@),
            NetworkAction::RemoveChain(c) => NetworkView::RemoveChain(c@),
            NetworkAction::DeleteTap(d) => NetworkView::DeleteTap(d@),
            NetworkAction::ReleaseIp(n) => NetworkView::ReleaseIp(n@),
        }
    }
}

/// The steps that make sure of rules.
pub open spec fn ensuring(rules: Seq<RuleView>) -> Seq<StepView<NetworkView>> {
    rules.map_values(|r: RuleView| must(NetworkView::EnsureRule(r)))
}

/// The steps, and those that make sure of rules behind them.
pub fn then_ensure(steps: Vec<Step<NetworkAction>>, rules: Vec<Rule>) -> (r: Vec<
    Step<NetworkAction>,
>)
    ensures
        plan(r@) == plan(steps@) + ensuring(rule_views(rules@)),
{
    let ghost before = plan(steps@);
    let ghost all = ensuring(rule_views(rules@));
    let mut steps = steps;
    let mut i: usize = 0;
    assert(before =~= before + all.take(0));
    while i < rules.len()
        invariant
            i <= rules.len(),
            all == ensuring(rule_views(rules@)),
            plan(steps@) == before + all.take(i as int),
        decreases rules.len() - i,
    {
        let r = rules[i].copy();
        steps = then_must(steps, NetworkAction::EnsureRule(r));
        assert(rule_views(rules@)[i as int] == rules@[i as int]@);
        assert(all.take(i + 1) =~= all.take(i as int).push(all[i as int]));
        assert(plan(steps@) =~= before + all.take(i + 1));
        i = i + 1;
    }
    assert(all.take(i as int) =~= all);
    steps
}

/// The steps that remove rules, as far as they can be removed.
pub open spec fn removing(rules: Seq<RuleView>) -> Seq<StepView<NetworkView>> {
    rules.map_values(|r: RuleView| may(NetworkView::RemoveRule(r)))
}

/// The steps, and those that remove rules behind them.
pub fn then_remove(steps: Vec<Step<NetworkAction>>, rules: Vec<Rule>) -> (r: Vec<
    Step<NetworkAction>,
>)
    ensures
        plan(r@) == plan(steps@) + removing(rule_views(rules@)),
{
    let ghost before = plan(steps@);
    let ghost all = removing(rule_views(rules@));
    let mut steps = steps;
    let mut i: usize = 0;
    assert(before =~= before + all.take(0));
    while i < rules.len()
        invariant
            i <= rules.len(),
            all == removing(rule_views(rules@)),
            plan(steps@) == before + all.take(i as int),
        decreases rules.len() - i,
    {
        let r = rules[i].copy();
        steps = then_may(steps, NetworkAction::RemoveRule(r));
        assert(rule_views(rules@)[i as int] == rules@[i as int]@);
        assert(all.take(i + 1) =~= all.take(i as int).push(all[i as int]));
        assert(plan(steps@) =~= before + all.take(i + 1));
        i = i + 1;
    }
    assert(all.take(i as int) =~= all);
    steps
}

/// What the host has of chains and rules.
#[verifier::ext_equal]
pub struct Firewall {
    pub forwarding: bool,
    pub chains: Map<(Table, Seq<char>), Seq<RuleView>>,
}

/// The host once something was done with success.
pub open spec fn after(f: Firewall, action: NetworkView) -> Firewall {
    match action {
        NetworkView::EnableForwarding => Firewall { forwarding: true, ..f },
        NetworkView::EnsureChain(c) => if f.chains.contains_key((Table::Filter, c)) {
            f
        } else {
            Firewall { chains: f.chains.insert((Table::Filter, c), seq![]), ..f }
        },
        NetworkView::EnsureRule(r) => Firewall {
            chains: f.chains.insert((r.table, r.chain), ensured(f.chains[(r.table, r.chain)], r)),
            ..f
        },
        NetworkView::RemoveRule(r) => Firewall {
            chains: f.chains.insert(
                (r.table, r.chain),
                cleared(f.chains[(r.table, r.chain)], r),
            ),
            ..f
        },
        NetworkView::RemoveChain(c) => Firewall {
            chains: f.chains.remove((Table::Filter, c)),
            ..f
        },
        NetworkView::DeleteTap(_) => f,
        NetworkView::ReleaseIp(_) => f,
    }
}

/// The host once all of these were done with success, one after the other.
pub open spec fn after_all(f: Firewall, actions: Seq<NetworkView>) -> Firewall
    decreases actions.len(),
{
    if actions.len() == 0 {
        f
    } else {
        after(after_all(f, actions.drop_last()), actions.last())
    }
}

/// Whether something only makes sure of what is to be there.
pub open spec fn only_ensures(action: NetworkView) -> bool {
    action is EnableForwarding || action is EnsureChain || action is EnsureRule
}

/// Whether what is made sure of is there.
pub open spec fn is_there(f: Firewall, action: NetworkView) -> bool {
    match action {
        NetworkView::EnableForwarding => f.forwarding,
        NetworkView::EnsureChain(c) => f.chains.contains_key((Table::Filter, c)),
        NetworkView::EnsureRule(r) => f.chains.contains_key((r.table, r.chain)) && holds(
            f.chains[(r.table, r.chain)],
            r,
        ),
        _ => true,
    }
}

proof fn lemma_stays(f: Firewall, action: NetworkView, other: NetworkView)
    requires
        only_ensures(action),
        only_ensures(other),
    ensures
        is_there(after(f, action), action),
        is_there(f, other) ==> is_there(after(f, action), other),
        is_there(f, action) ==> after(f, action) == f,
{
    if let NetworkView::EnsureRule(r) = action {
        let key = (r.table, r.chain);
        law_what_is_ensured_is_there(f.chains[key], r, r);
        if let NetworkView::EnsureRule(x) = other {
            law_what_is_ensured_is_there(f.chains[key], r, x);
        }
        if is_there(f, action) {
            assert(after(f, action).chains =~= f.chains);
        }
    }
}

proof fn lemma_all_there(f: Firewall, actions: Seq<NetworkView>, k: int)
    requires
        forall|i: int| 0 <= i < actions.len() ==> only_ensures(#[trigger] actions[i]),
        0 <= k < actions.len(),
    ensures
        is_there(after_all(f, actions), actions[k]),
    decreases actions.len(),
{
    let less = actions.drop_last();
    let g = after_all(f, less);
    lemma_stays(g, actions.last(), actions[k]);
    if k < less.len() {
        assert forall|i: int| 0 <= i < less.len() implies only_ensures(#[trigger] less[i]) by {
            assert(less[i] == actions[i]);
        }
        lemma_all_there(f, less, k);
        assert(less[k] == actions[k]);
    }
}

proof fn lemma_nothing_to_do(f: Firewall, actions: Seq<NetworkView>)
    requires
        forall|i: int| 0 <= i < actions.len() ==> only_ensures(#[trigger] actions[i]),
        forall|i: int| 0 <= i < actions.len() ==> is_there(f, #[trigger] actions[i]),
    ensures
        after_all(f, actions) == f,
    decreases actions.len(),
{
    if actions.len() > 0 {
        let less = actions.drop_last();
        assert forall|i: int| 0 <= i < less.len() implies only_ensures(#[trigger] less[i]) by {
            assert(less[i] == actions[i]);
        }
        assert forall|i: int| 0 <= i < less.len() implies is_there(f, #[trigger] less[i]) by {
            assert(less[i] == actions[i]);
        }
        lemma_nothing_to_do(f, less);
        lemma_stays(f, actions.last(), actions.last());
    }
}

/// Making sure of the same things a second time changes nothing.
pub proof fn law_nothing_is_added_twice(f: Firewall, actions: Seq<NetworkView>)
    requires
        forall|i: int| 0 <= i < actions.len() ==> only_ensures(#[trigger] actions[i]),
    ensures
        after_all(after_all(f, actions), actions) == after_all(f, actions),
{
    let g = after_all(f, actions);
    assert forall|i: int| 0 <= i < actions.len() implies is_there(g, #[trigger] actions[i]) by {
        lemma_all_there(f, actions, i);
    }
    lemma_nothing_to_do(g, actions);
}

} // verus!
