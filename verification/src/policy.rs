//! What the machines of an installation may reach.
//!
//! An installation owns two chains. The builtin chains jump to them before
//! anything else, and every rule in them is about the devices of its machines:
//! these reach each other and the outside, and not the host.

use vstd::prelude::*;
use vstd::string::*;

use crate::command::{nothing, with, Invocation, InvocationView};
use crate::config::opt_str;
use crate::error::{outcome, Error, ErrorView};
use crate::firewall::{
    after_all, ensuring, law_nothing_is_added_twice, only_ensures, rule_views, then_ensure, Firewall,
    NetworkAction, NetworkView,
};
use crate::iptables::{Placement, Rule, RuleView, Table};
use crate::procedure::{
    all_good, first_failure, law_performed_up_to_the_failure, must, no_steps, outcome_of, performed, plan,
    succeeding, then_must, Position, Step, StepView,
};

verus! {

/// The chains that an installation owns.
#[derive(Debug, PartialEq)]
pub struct Chains {
    pub input: String,
    pub forward: String,
}

/// The names of the chains of an installation: of what comes in, and of what is
/// forwarded.
pub open spec fn chain_names(instance_id: Option<Seq<char>>) -> (Seq<char>, Seq<char>) {
    match instance_id {
        None => ("ember-input"@, "ember-forward"@),
        Some(id) => ("ember-"@ + id + "-input"@, "ember-"@ + id + "-forward"@),
    }
}

/// The names of the chains of an installation.
pub fn chains(instance_id: Option<&str>) -> (r: Chains)
    ensures
        r.input@ == chain_names(opt_str(instance_id)).0,
        r.forward@ == chain_names(opt_str(instance_id)).1,
{
    match instance_id {
        None => Chains { input: "ember-input".to_owned(), forward: "ember-forward".to_owned() },
        Some(id) => Chains {
            input: "ember-".to_owned().concat(id).concat("-input"),
            forward: "ember-".to_owned().concat(id).concat("-forward"),
        },
    }
}

/// What matches the devices of all machines of an installation.
pub open spec fn tap_wildcard(instance_id: Option<Seq<char>>) -> Seq<char> {
    match instance_id {
        None => "em-+"@,
        Some(id) => "em"@ + id + "-+"@,
    }
}

/// What matches the devices of all machines of an installation.
pub fn wildcard(instance_id: Option<&str>) -> (r: String)
    ensures
        r@ == tap_wildcard(opt_str(instance_id)),
{
    match instance_id {
        None => "em-+".to_owned(),
        Some(id) => "em".to_owned().concat(id).concat("-+"),
    }
}

/// A rule of the filter table.
pub open spec fn filter_rule(chain: Seq<char>, args: Seq<Seq<char>>, placement: Placement) -> RuleView {
    RuleView { table: Table::Filter, chain, args, placement }
}

/// The rules that do not depend on the machines.
pub open spec fn static_views(input: Seq<char>, forward: Seq<char>, taps: Seq<char>) -> Seq<
    RuleView,
> {
    seq![
        filter_rule(
            input,
            seq![
                "-i"@,
                taps,
                "-m"@,
                "conntrack"@,
                "--ctstate"@,
                "RELATED,ESTABLISHED"@,
                "-j"@,
                "ACCEPT"@,
            ],
            Placement::Front,
        ),
        filter_rule(input, seq!["-i"@, taps, "-j"@, "DROP"@], Placement::Back),
        filter_rule(
            forward,
            seq!["-i"@, taps, "-o"@, taps, "-j"@, "ACCEPT"@],
            Placement::Front,
        ),
        filter_rule(forward, seq!["-i"@, taps, "-j"@, "DROP"@], Placement::Back),
    ]
}

/// The rules that do not depend on the machines: answers to the host come
/// through and nothing else does; the machines reach each other, and nothing
/// else that their own rules do not allow.
pub fn static_rules(chains: &Chains, taps: &str) -> (r: Vec<Rule>)
    ensures
        rule_views(r@) == static_views(chains.input@, chains.forward@, taps@),
{
    let input = chains.input.as_str();
    let forward = chains.forward.as_str();
    let answers = with(
        with(with(with(with(with(nothing(), "-i"), taps), "-m"), "conntrack"), "--ctstate"),
        "RELATED,ESTABLISHED",
    );
    let answers = with(with(answers, "-j"), "ACCEPT");
    let drop_input = with(with(with(with(nothing(), "-i"), taps), "-j"), "DROP");
    let siblings = with(
        with(with(with(with(with(nothing(), "-i"), taps), "-o"), taps), "-j"),
        "ACCEPT",
    );
    let drop_forward = with(with(with(with(nothing(), "-i"), taps), "-j"), "DROP");
    let mut r: Vec<Rule> = Vec::new();
    r.push(Rule::of(Table::Filter, input, answers).at_front());
    r.push(Rule::of(Table::Filter, input, drop_input));
    r.push(Rule::of(Table::Filter, forward, siblings).at_front());
    r.push(Rule::of(Table::Filter, forward, drop_forward));
    assert(rule_views(r@) =~~= static_views(chains.input@, chains.forward@, taps@));
    r
}

/// The rules that lead from the builtin chains to those of an installation.
pub open spec fn jump_views(input: Seq<char>, forward: Seq<char>) -> Seq<RuleView> {
    seq![
        filter_rule("INPUT"@, seq!["-j"@, input], Placement::Front),
        filter_rule("FORWARD"@, seq!["-j"@, forward], Placement::Front),
    ]
}

/// The rules that lead from the builtin chains to those of an installation.
pub fn jumps(chains: &Chains) -> (r: Vec<Rule>)
    ensures
        rule_views(r@) == jump_views(chains.input@, chains.forward@),
{
    let input = with(with(nothing(), "-j"), chains.input.as_str());
    let forward = with(with(nothing(), "-j"), chains.forward.as_str());
    let mut r: Vec<Rule> = Vec::new();
    r.push(Rule::of(Table::Filter, "INPUT", input).at_front());
    r.push(Rule::of(Table::Filter, "FORWARD", forward).at_front());
    assert(rule_views(r@) =~~= jump_views(chains.input@, chains.forward@));
    r
}

/// The call that lets the host forward packets.
pub fn enable_ip_forwarding() -> (r: Invocation)
    ensures
        r@ == (InvocationView {
            program: "sysctl"@,
            args: seq!["-w"@, "net.ipv4.ip_forward=1"@],
            label: "sysctl"@,
            start_label: "sysctl"@,
        }),
{
    Invocation::new("sysctl", "sysctl").arg("-w").arg("net.ipv4.ip_forward=1")
}

/// How the firewall of an installation is set up.
pub open spec fn setup(instance_id: Option<Seq<char>>) -> Seq<StepView<NetworkView>> {
    let (input, forward) = chain_names(instance_id);
    seq![
        must(NetworkView::EnableForwarding),
        must(NetworkView::EnsureChain(input)),
        must(NetworkView::EnsureChain(forward)),
    ] + ensuring(static_views(input, forward, tap_wildcard(instance_id))) + ensuring(
        jump_views(input, forward),
    )
}

/// How the firewall of an installation is set up. The jumps come last, so that
/// no packet meets a chain that is not filled yet.
pub fn ensure(instance_id: Option<&str>) -> (r: Vec<Step<NetworkAction>>)
    ensures
        plan(r@) == setup(opt_str(instance_id)),
{
    let chains = chains(instance_id);
    let taps = wildcard(instance_id);
    let steps = then_must(no_steps(), NetworkAction::EnableForwarding);
    let steps = then_must(steps, NetworkAction::EnsureChain(chains.input.clone()));
    let steps = then_must(steps, NetworkAction::EnsureChain(chains.forward.clone()));
    let ghost head = plan(steps@);
    assert(head =~= seq![
        must(NetworkView::EnableForwarding),
        must(NetworkView::EnsureChain(chains.input@)),
        must(NetworkView::EnsureChain(chains.forward@)),
    ]);
    let steps = then_ensure(steps, static_rules(&chains, taps.as_str()));
    then_ensure(steps, jumps(&chains))
}

/// The views of a list of things to do.
pub open spec fn action_views(actions: Seq<NetworkAction>) -> Seq<NetworkView> {
    actions.map_values(|a: NetworkAction| a@)
}

/// What takes the firewall of an installation down. All of it is done,
/// whatever fails; [`deinit_outcome`] says how it went.
pub fn deinit(instance_id: Option<&str>) -> (r: Vec<NetworkAction>)
    ensures
        ({
            let (input, forward) = chain_names(opt_str(instance_id));
            let jump = jump_views(input, forward);
            action_views(r@) == seq![
                NetworkView::RemoveRule(jump[0]),
                NetworkView::RemoveRule(jump[1]),
                NetworkView::RemoveChain(input),
                NetworkView::RemoveChain(forward),
            ]
        }),
{
    let chains = chains(instance_id);
    let rules = jumps(&chains);
    assert(rule_views(rules@).len() == 2);
    assert(rule_views(rules@)[0] == rules@[0]@);
    assert(rule_views(rules@)[1] == rules@[1]@);
    let first = rules[0].copy();
    let second = rules[1].copy();
    let mut r: Vec<NetworkAction> = Vec::new();
    r.push(NetworkAction::RemoveRule(first));
    r.push(NetworkAction::RemoveRule(second));
    r.push(NetworkAction::RemoveChain(chains.input));
    r.push(NetworkAction::RemoveChain(chains.forward));
    r
}

/// The first error among outcomes.
pub open spec fn first_error(outcomes: Seq<Result<(), Error>>) -> Result<(), ErrorView>
    decreases outcomes.len(),
{
    if outcomes.len() == 0 {
        Ok(())
    } else {
        match outcomes[0] {
            Err(e) => Err(e@),
            Ok(()) => first_error(outcomes.skip(1)),
        }
    }
}

/// How taking the firewall down went, from how each thing to do went: the first
/// error counts.
pub fn deinit_outcome(outcomes: &Vec<Result<(), Error>>) -> (r: Result<(), Error>)
    ensures
        outcome(r) == first_error(outcomes@),
{
    let mut i: usize = 0;
    assert(outcomes@.skip(0) =~= outcomes@);
    while i < outcomes.len()
        invariant
            i <= outcomes.len(),
            first_error(outcomes@) == first_error(outcomes@.skip(i as int)),
        decreases outcomes.len() - i,
    {
        assert(outcomes@.skip(i as int)[0] == outcomes@[i as int]);
        assert(outcomes@.skip(i as int).skip(1) =~= outcomes@.skip(i + 1));
        match &outcomes[i] {
            Err(e) => {
                return Err(e.clone());
            },
            Ok(()) => {},
        }
        i = i + 1;
    }
    Ok(())
}

/// Every rule that does not depend on the machines is about their devices
/// alone.
pub proof fn law_static_rules_match_taps_only(
    input: Seq<char>,
    forward: Seq<char>,
    taps: Seq<char>,
    i: int,
)
    requires
        0 <= i < 4,
    ensures
        static_views(input, forward, taps)[i].args[0] == "-i"@,
        static_views(input, forward, taps)[i].args[1] == taps,
{
}

/// The jumps go to the top of the builtin chains.
pub proof fn law_jumps_come_first(input: Seq<char>, forward: Seq<char>, i: int)
    requires
        0 <= i < 2,
    ensures
        jump_views(input, forward)[i].placement == Placement::Front,
{
}

/// In each chain, the rules that accept go to the front, and the one that drops
/// to the back.
pub proof fn law_drops_go_last(input: Seq<char>, forward: Seq<char>, taps: Seq<char>, i: int)
    requires
        0 <= i < 4,
    ensures
        ({
            let r = static_views(input, forward, taps)[i];
            &&& r.args.last() == "ACCEPT"@ ==> r.placement == Placement::Front
            &&& r.args.last() == "DROP"@ ==> r.placement == Placement::Back
            &&& r.args.last() == "ACCEPT"@ || r.args.last() == "DROP"@
        }),
{
    reveal_strlit("ACCEPT");
    reveal_strlit("DROP");
    assert("ACCEPT"@.len() != "DROP"@.len());
}

proof fn lemma_between(head: Seq<char>, a: Seq<char>, b: Seq<char>, tail: Seq<char>)
    requires
        head + a + tail == head + b + tail,
    ensures
        a == b,
{
    let x = head + a + tail;
    let y = head + b + tail;
    assert(x.len() == head.len() + a.len() + tail.len());
    assert(y.len() == head.len() + b.len() + tail.len());
    assert(a.len() == b.len());
    assert(x.subrange(head.len() as int, (head.len() + a.len()) as int) =~= a);
    assert(y.subrange(head.len() as int, (head.len() + b.len()) as int) =~= b);
}

/// Two installations share neither chains nor devices.
pub proof fn law_installations_are_apart(a: Seq<char>, b: Seq<char>)
    requires
        a != b,
    ensures
        chain_names(Some(a)).0 != chain_names(Some(b)).0,
        chain_names(Some(a)).1 != chain_names(Some(b)).1,
        tap_wildcard(Some(a)) != tap_wildcard(Some(b)),
{
    if chain_names(Some(a)).0 == chain_names(Some(b)).0 {
        lemma_between("ember-"@, a, b, "-input"@);
    }
    if chain_names(Some(a)).1 == chain_names(Some(b)).1 {
        lemma_between("ember-"@, a, b, "-forward"@);
    }
    if tap_wildcard(Some(a)) == tap_wildcard(Some(b)) {
        lemma_between("em"@, a, b, "-+"@);
    }
}

/// The names of the chains fit into the 28 characters that a chain may have.
pub proof fn law_chain_names_fit(id: Seq<char>)
    requires
        id.len() == 4,
    ensures
        chain_names(Some(id)).0.len() <= 28,
        chain_names(Some(id)).1.len() <= 28,
{
    reveal_strlit("ember-");
    reveal_strlit("-input");
    reveal_strlit("-forward");
}

/// What is done to set the firewall of an installation up.
pub open spec fn setup_actions(instance_id: Option<Seq<char>>) -> Seq<NetworkView> {
    setup(instance_id).map_values(|s: StepView<NetworkView>| s.action)
}

/// The rules of the chains come before the jumps into them: how many things are done
/// before the first jump.
pub open spec fn before_the_jumps(instance_id: Option<Seq<char>>) -> int {
    let (input, forward) = chain_names(instance_id);
    (3 + static_views(input, forward, tap_wildcard(instance_id)).len()) as int
}

/// Setting the firewall up goes on as long as everything succeeds: the result is the
/// error of the first thing that failed, nothing is done behind it, and no jump is
/// added before all that comes before the jumps has succeeded.
pub proof fn law_setup_ends_at_the_first_failure<E>(
    steps: Seq<Step<NetworkAction>>,
    did: spec_fn(Position) -> Result<(), E>,
    instance_id: Option<Seq<char>>,
)
    requires
        plan(steps) == setup(instance_id),
    ensures
        ({
            let ok = succeeding(did);
            let done = performed(steps, ok, 0).map_values(|a: NetworkAction| a@);
            let all = setup_actions(instance_id);
            &&& match first_failure(steps, ok, 0) {
                Some(f) => {
                    &&& 0 <= f < all.len()
                    &&& did(Position::Step(f as usize)) is Err
                    &&& all_good(did, f)
                    &&& outcome_of(steps, did) == did(Position::Step(f as usize))
                    &&& done == all.take(f + 1)
                },
                None => {
                    &&& all_good(did, all.len() as int)
                    &&& outcome_of(steps, did) == Ok::<(), E>(())
                    &&& done == all
                },
            }
            &&& done.len() > before_the_jumps(instance_id) ==> all_good(
                did,
                before_the_jumps(instance_id),
            )
        }),
{
    let ok = succeeding(did);
    let all = setup_actions(instance_id);
    let p = plan(steps);
    assert(p.len() == steps.len());
    assert(all.len() == p.len());
    assert forall|k: int| 0 <= k < steps.len() implies !(#[trigger] steps[k]).tolerate
        && steps[k].undo@.len() == 0 && steps[k].action@ == all[k] by {
        assert(p[k] == steps[k]@);
        assert(steps[k]@.undo.len() == steps[k].undo@.len());
        assert(setup(instance_id)[k].undo.len() == 0 && !setup(instance_id)[k].tolerate);
    }
    law_performed_up_to_the_failure(steps, ok, 0);
    let done = performed(steps, ok, 0).map_values(|a: NetworkAction| a@);
    match first_failure(steps, ok, 0) {
        Some(f) => {
            assert(done =~= all.take(f + 1));
            assert forall|k: int| 0 <= k < f implies (#[trigger] did(
                Position::Step(k as usize),
            )) is Ok by {
                assert(ok(k) || steps[k].tolerate);
            }
        },
        None => {
            assert(done =~= all);
            assert forall|k: int| 0 <= k < all.len() implies (#[trigger] did(
                Position::Step(k as usize),
            )) is Ok by {
                assert(ok(k) || steps[k].tolerate);
            }
        },
    }
}

/// The jumps are the last two things that are done.
pub proof fn law_jumps_are_added_last(instance_id: Option<Seq<char>>)
    ensures
        ({
            let (input, forward) = chain_names(instance_id);
            let all = setup_actions(instance_id);
            let n = before_the_jumps(instance_id);
            &&& all.len() == n + 2
            &&& all[n] == NetworkView::EnsureRule(jump_views(input, forward)[0])
            &&& all[n + 1] == NetworkView::EnsureRule(jump_views(input, forward)[1])
        }),
{
}

/// Setting the firewall up a second time adds nothing.
pub proof fn law_setup_is_idempotent(f: Firewall, instance_id: Option<Seq<char>>)
    ensures
        after_all(after_all(f, setup_actions(instance_id)), setup_actions(instance_id))
            == after_all(f, setup_actions(instance_id)),
{
    let all = setup_actions(instance_id);
    assert forall|i: int| 0 <= i < all.len() implies only_ensures(#[trigger] all[i]) by {
        assert(all[i] == setup(instance_id)[i].action);
    }
    law_nothing_is_added_twice(f, all);
}

} // verus!
