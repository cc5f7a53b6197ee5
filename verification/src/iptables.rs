//! The rules of the packet filter, and the `iptables` calls that keep them.

use vstd::prelude::*;
use vstd::string::*;

use crate::command::{nothing, succeeded, with, CommandOutput, Invocation, InvocationView};
use crate::error::{outcome, Error, ErrorView};
use crate::text::{contains, occurs, texts, trim, trimmed};

verus! {

/// Where a rule goes in its chain.
#[derive(Debug, Clone, Copy, PartialEq, Eq, Structural)]
pub enum Placement {
    /// At the first position, above everything else.
    Front,
    /// Behind everything else.
    Back,
}

/// The table that a rule belongs to.
#[derive(Debug, Clone, Copy, PartialEq, Eq, Structural)]
pub enum Table {
    /// The one that `iptables` takes when none is named.
    Filter,
    Nat,
}

/// One rule. Adding, looking for and deleting it are derived from this one
/// value: a deletion has to name a rule as it was added, to the letter.
#[derive(Debug, PartialEq)]
pub struct Rule {
    pub table: Table,
    pub chain: String,
    /// What the rule matches and where it sends it.
    pub args: Vec<String>,
    pub placement: Placement,
}

/// A [`Rule`], its strings taken by their texts.
#[verifier::ext_equal]
pub struct RuleView {
    pub table: Table,
    pub chain: Seq<char>,
    pub args: Seq<Seq<char>>,
    pub placement: Placement,
}

impl View for Rule {
    type V = RuleView;

    open spec fn view(&self) -> RuleView {
        RuleView {
            table: self.table,
            chain: self.chain@,
            args: texts(self.args@),
            placement: self.placement,
        }
    }
}

/// The texts of a list of string slices.
pub open spec fn words_of(list: Seq<&str>) -> Seq<Seq<char>> {
    list.map_values(|s: &str| s@)
}

/// The list `v` followed by `list`.
pub fn with_all(v: Vec<String>, list: &[&str]) -> (r: Vec<String>)
    ensures
        texts(r@) == texts(v@) + words_of(list@),
{
    let ghost before = texts(v@);
    let ghost all = words_of(list@);
    let mut v = v;
    let mut i: usize = 0;
    assert(before =~= before + all.take(0));
    while i < list.len()
        invariant
            i <= list.len(),
            all == words_of(list@),
            texts(v@) == before + all.take(i as int),
        decreases list.len() - i,
    {
        v = with(v, list[i]);
        assert(all.take(i + 1) =~= all.take(i as int).push(all[i as int]));
        assert(texts(v@) =~= before + all.take(i + 1));
        i = i + 1;
    }
    assert(all.take(i as int) =~= all);
    v
}

/// The list `v` followed by `list`.
pub fn with_texts(v: Vec<String>, list: &Vec<String>) -> (r: Vec<String>)
    ensures
        texts(r@) == texts(v@) + texts(list@),
{
    let ghost before = texts(v@);
    let ghost all = texts(list@);
    let mut v = v;
    let mut i: usize = 0;
    assert(before =~= before + all.take(0));
    while i < list.len()
        invariant
            i <= list.len(),
            all == texts(list@),
            texts(v@) == before + all.take(i as int),
        decreases list.len() - i,
    {
        v = with(v, list[i].as_str());
        assert(all[i as int] == list@[i as int]@);
        assert(all.take(i + 1) =~= all.take(i as int).push(all[i as int]));
        assert(texts(v@) =~= before + all.take(i + 1));
        i = i + 1;
    }
    assert(all.take(i as int) =~= all);
    v
}

/// What every call starts with: it waits for the lock on the tables.
pub open spec fn lock_wait() -> Seq<Seq<char>> {
    seq!["-w"@, "5"@]
}

/// The arguments that name the table.
pub open spec fn table_args(t: Table) -> Seq<Seq<char>> {
    match t {
        Table::Filter => seq![],
        Table::Nat => seq!["-t"@, "nat"@],
    }
}

/// The arguments of a call on a rule.
pub open spec fn rule_args(r: RuleView, verb: Seq<Seq<char>>) -> Seq<Seq<char>> {
    lock_wait() + table_args(r.table) + verb + r.args
}

/// What adding a rule says of its chain.
pub open spec fn add_verb(r: RuleView) -> Seq<Seq<char>> {
    match r.placement {
        Placement::Front => seq!["-I"@, r.chain, "1"@],
        Placement::Back => seq!["-A"@, r.chain],
    }
}

/// The arguments that add a rule.
pub open spec fn adding(r: RuleView) -> Seq<Seq<char>> {
    rule_args(r, add_verb(r))
}

/// The arguments that look for a rule.
pub open spec fn checking(r: RuleView) -> Seq<Seq<char>> {
    rule_args(r, seq!["-C"@, r.chain])
}

/// The arguments that delete a rule.
pub open spec fn deleting(r: RuleView) -> Seq<Seq<char>> {
    rule_args(r, seq!["-D"@, r.chain])
}

/// An `iptables` call.
pub open spec fn call(args: Seq<Seq<char>>) -> InvocationView {
    InvocationView {
        program: "iptables"@,
        args,
        label: "iptables"@,
        start_label: "iptables"@,
    }
}

/// An `iptables` call.
pub fn iptables(args: Vec<String>) -> (r: Invocation)
    ensures
        r@ == call(texts(args@)),
{
    Invocation {
        program: "iptables".to_owned(),
        args,
        label: "iptables".to_owned(),
        start_label: "iptables".to_owned(),
    }
}

/// Whether a message says that the rule or the chain is not there.
pub open spec fn absent(message: Seq<char>) -> bool {
    occurs(message, "does a matching rule exist"@) || occurs(message, "No chain/target/match"@)
}

/// Whether a message says that the rule or the chain is not there.
pub fn is_absent(stderr: &str) -> (r: bool)
    ensures
        r == absent(stderr@),
{
    contains(stderr, "does a matching rule exist") || contains(stderr, "No chain/target/match")
}

/// The arguments of a call that is about no rule.
pub fn args(verb: &[&str]) -> (r: Vec<String>)
    ensures
        texts(r@) == lock_wait() + words_of(verb@),
{
    with_all(with(with(nothing(), "-w"), "5"), verb)
}

/// The error for a call that failed.
pub open spec fn complaint(o: CommandOutput) -> Seq<char> {
    trimmed(o.stderr@)
}

fn refusal(output: &CommandOutput) -> (r: Error)
    ensures
        r@ == ErrorView::Network(complaint(*output)),
{
    Error::Network(trim(output.stderr.as_str()).to_owned())
}

/// What became of a call.
pub fn run(output: &CommandOutput) -> (r: Result<(), Error>)
    ensures
        outcome(r) == (if succeeded(*output) {
            Ok::<(), ErrorView>(())
        } else {
            Err(ErrorView::Network(complaint(*output)))
        }),
{
    if output.success() {
        Ok(())
    } else {
        Err(refusal(output))
    }
}

/// Whether a rule is there, as looking for it tells.
pub open spec fn presence(o: CommandOutput) -> Result<bool, ErrorView> {
    if succeeded(o) {
        Ok(true)
    } else if absent(complaint(o)) {
        Ok(false)
    } else {
        Err(ErrorView::Network(complaint(o)))
    }
}

impl Rule {
    /// A rule in the table that is taken when none is named.
    pub fn filter(chain: &str, args: &[&str]) -> (r: Rule)
        ensures
            r@ == (RuleView {
                table: Table::Filter,
                chain: chain@,
                args: words_of(args@),
                placement: Placement::Back,
            }),
    {
        let list = with_all(nothing(), args);
        assert(texts(list@) =~= words_of(args@));
        Rule {
            table: Table::Filter,
            chain: chain.to_owned(),
            args: list,
            placement: Placement::Back,
        }
    }

    /// A rule in the table of address translation.
    pub fn in_nat(chain: &str, args: &[&str]) -> (r: Rule)
        ensures
            r@ == (RuleView {
                table: Table::Nat,
                chain: chain@,
                args: words_of(args@),
                placement: Placement::Back,
            }),
    {
        let list = with_all(nothing(), args);
        assert(texts(list@) =~= words_of(args@));
        Rule { table: Table::Nat, chain: chain.to_owned(), args: list, placement: Placement::Back }
    }

    /// A rule with arguments that are strings already.
    pub fn of(table: Table, chain: &str, args: Vec<String>) -> (r: Rule)
        ensures
            r@ == (RuleView {
                table,
                chain: chain@,
                args: texts(args@),
                placement: Placement::Back,
            }),
    {
        Rule { table, chain: chain.to_owned(), args, placement: Placement::Back }
    }

    /// The same rule once more.
    pub fn copy(&self) -> (r: Rule)
        ensures
            r@ == self@,
    {
        let list = with_texts(nothing(), &self.args);
        assert(texts(list@) =~= texts(self.args@));
        Rule {
            table: self.table,
            chain: self.chain.clone(),
            args: list,
            placement: self.placement,
        }
    }

    /// The rule, at the front of its chain.
    pub fn at_front(self) -> (r: Rule)
        ensures
            r@ == (RuleView { placement: Placement::Front, ..self@ }),
    {
        Rule {
            table: self.table,
            chain: self.chain,
            args: self.args,
            placement: Placement::Front,
        }
    }

    fn head(&self) -> (r: Vec<String>)
        ensures
            texts(r@) == lock_wait() + table_args(self.table),
    {
        let v = with(with(nothing(), "-w"), "5");
        let v = match self.table {
            Table::Filter => v,
            Table::Nat => with(with(v, "-t"), "nat"),
        };
        assert(texts(v@) =~= lock_wait() + table_args(self.table));
        v
    }

    /// The arguments that add the rule.
    pub fn add_args(&self) -> (r: Vec<String>)
        ensures
            texts(r@) == adding(self@),
    {
        let v = self.head();
        let ghost h = texts(v@);
        let v = match self.placement {
            Placement::Front => with(with(with(v, "-I"), self.chain.as_str()), "1"),
            Placement::Back => with(with(v, "-A"), self.chain.as_str()),
        };
        assert(texts(v@) =~= h + add_verb(self@));
        with_texts(v, &self.args)
    }

    /// The arguments that look for the rule.
    pub fn check_args(&self) -> (r: Vec<String>)
        ensures
            texts(r@) == checking(self@),
    {
        self.args_with("-C")
    }

    /// The arguments that delete the rule.
    pub fn delete_args(&self) -> (r: Vec<String>)
        ensures
            texts(r@) == deleting(self@),
    {
        self.args_with("-D")
    }

    fn args_with(&self, verb: &str) -> (r: Vec<String>)
        ensures
            texts(r@) == rule_args(self@, seq![verb@, self.chain@]),
    {
        let v = self.head();
        let ghost h = texts(v@);
        let v = with(with(v, verb), self.chain.as_str());
        assert(texts(v@) =~= h + seq![verb@, self.chain@]);
        with_texts(v, &self.args)
    }

    /// The call that adds the rule, whether or not it is there.
    pub fn add(&self) -> (r: Invocation)
        ensures
            r@ == call(adding(self@)),
    {
        iptables(self.add_args())
    }

    /// The call that tells whether the rule is there.
    pub fn check(&self) -> (r: Invocation)
        ensures
            r@ == call(checking(self@)),
    {
        iptables(self.check_args())
    }

    /// The call that deletes one copy of the rule.
    pub fn delete(&self) -> (r: Invocation)
        ensures
            r@ == call(deleting(self@)),
    {
        iptables(self.delete_args())
    }

    /// Whether the rule is there, from what looking for it left behind. A
    /// chain that is missing holds no rule.
    pub fn present(output: &CommandOutput) -> (r: Result<bool, Error>)
        ensures
            outcome(r) == presence(*output),
    {
        if output.success() {
            return Ok(true);
        }
        if is_absent(trim(output.stderr.as_str())) {
            return Ok(false);
        }
        Err(refusal(output))
    }

    /// What is left to do for the rule to be there, from what looking for it
    /// left behind: nothing, or one more call.
    pub fn ensure(&self, checked: &CommandOutput) -> (r: Result<Option<Invocation>, Error>)
        ensures
            match r {
                Err(e) => presence(*checked) == Err::<bool, ErrorView>(e@),
                Ok(None) => presence(*checked) == Ok::<bool, ErrorView>(true),
                Ok(Some(i)) => presence(*checked) == Ok::<bool, ErrorView>(false) && i@ == call(
                    adding(self@),
                ),
            },
    {
        match Rule::present(checked) {
            Err(e) => Err(e),
            Ok(true) => Ok(None),
            Ok(false) => Ok(Some(self.add())),
        }
    }

    /// What is left to do for every copy of the rule to be gone, from what
    /// deleting one left behind: nothing once none was found, and otherwise
    /// the same call again.
    pub fn remove(&self, deleted: &CommandOutput) -> (r: Result<Option<Invocation>, Error>)
        ensures
            match r {
                Err(e) => presence(*deleted) == Err::<bool, ErrorView>(e@),
                Ok(None) => presence(*deleted) == Ok::<bool, ErrorView>(false),
                Ok(Some(i)) => presence(*deleted) == Ok::<bool, ErrorView>(true) && i@ == call(
                    deleting(self@),
                ),
            },
    {
        match Rule::present(deleted) {
            Err(e) => Err(e),
            Ok(true) => Ok(Some(self.delete())),
            Ok(false) => Ok(None),
        }
    }
}

/// The call that makes a chain.
pub fn make_chain(chain: &str) -> (r: Invocation)
    ensures
        r@ == call(lock_wait() + seq!["-N"@, chain@]),
{
    let v = with(with(with(with(nothing(), "-w"), "5"), "-N"), chain);
    assert(texts(v@) =~= lock_wait() + seq!["-N"@, chain@]);
    iptables(v)
}

/// Whether a chain is there, from what making it left behind. One that was
/// there already is as good.
pub fn ensure_chain(made: &CommandOutput) -> (r: Result<(), Error>)
    ensures
        outcome(r) == (if succeeded(*made) || occurs(complaint(*made), "Chain already exists"@) {
            Ok::<(), ErrorView>(())
        } else {
            Err(ErrorView::Network(complaint(*made)))
        }),
{
    if made.success() || contains(trim(made.stderr.as_str()), "Chain already exists") {
        Ok(())
    } else {
        Err(refusal(made))
    }
}

/// The call that empties a chain.
pub fn flush_chain(chain: &str) -> (r: Invocation)
    ensures
        r@ == call(lock_wait() + seq!["-F"@, chain@]),
{
    let v = with(with(with(with(nothing(), "-w"), "5"), "-F"), chain);
    assert(texts(v@) =~= lock_wait() + seq!["-F"@, chain@]);
    iptables(v)
}

/// The call that deletes an empty chain.
pub fn delete_chain(chain: &str) -> (r: Invocation)
    ensures
        r@ == call(lock_wait() + seq!["-X"@, chain@]),
{
    let v = with(with(with(with(nothing(), "-w"), "5"), "-X"), chain);
    assert(texts(v@) =~= lock_wait() + seq!["-X"@, chain@]);
    iptables(v)
}

/// Whether removing a chain can go on, from what emptying or deleting it left
/// behind. A chain that is not there is no error.
pub fn remove_chain(output: &CommandOutput) -> (r: Result<(), Error>)
    ensures
        outcome(r) == (match presence(*output) {
            Ok(_) => Ok::<(), ErrorView>(()),
            Err(e) => Err(e),
        }),
{
    match Rule::present(output) {
        Ok(_) => Ok(()),
        Err(e) => Err(e),
    }
}

/// Adding at the back, looking for and deleting a rule differ in the verb
/// alone.
pub proof fn law_calls_differ_in_the_verb(r: RuleView)
    requires
        r.placement == Placement::Back,
    ensures
        adding(r).len() == checking(r).len() == deleting(r).len(),
        forall|i: int|
            0 <= i < adding(r).len() && i != 2 + table_args(r.table).len() ==> {
                &&& #[trigger] adding(r)[i] == checking(r)[i]
                &&& adding(r)[i] == deleting(r)[i]
            },
{
}

/// Where a rule was placed makes no difference to looking for it and deleting
/// it.
pub proof fn law_placement_is_for_adding(a: RuleView, b: RuleView)
    requires
        a == (RuleView { placement: a.placement, ..b }),
    ensures
        checking(a) == checking(b),
        deleting(a) == deleting(b),
{
}

/// Every call on a rule waits for the lock.
pub proof fn law_every_call_waits(r: RuleView)
    ensures
        adding(r).take(2) == lock_wait(),
        checking(r).take(2) == lock_wait(),
        deleting(r).take(2) == lock_wait(),
{
    assert(adding(r).take(2) =~= lock_wait());
    assert(checking(r).take(2) =~= lock_wait());
    assert(deleting(r).take(2) =~= lock_wait());
}

/// Whether two rules are the same to the host: where one was placed when it was added
/// is no part of it.
pub open spec fn same_rule(a: RuleView, b: RuleView) -> bool {
    a.table == b.table && a.chain == b.chain && a.args == b.args
}

/// Whether a chain holds a rule.
pub open spec fn holds(chain: Seq<RuleView>, r: RuleView) -> bool {
    exists|i: int| 0 <= i < chain.len() && same_rule(#[trigger] chain[i], r)
}

/// Rules that are the same to the host are looked for and deleted by the same calls,
/// and others are not.
pub proof fn law_the_host_tells_rules_apart_by_their_calls(a: RuleView, b: RuleView)
    ensures
        same_rule(a, b) ==> checking(a) == checking(b) && deleting(a) == deleting(b),
        a.table == b.table && checking(a) == checking(b) ==> same_rule(a, b),
{
    if a.table == b.table && checking(a) == checking(b) {
        let n = 2 + table_args(a.table).len() as int;
        assert(checking(a)[n + 1] == a.chain);
        assert(checking(b)[n + 1] == b.chain);
        assert(checking(a).skip(n + 2) =~= a.args);
        assert(checking(b).skip(n + 2) =~= b.args);
    }
}

/// The rules of a chain once a rule was made sure of: it is added where it is not
/// there, wherever it would be placed.
pub open spec fn ensured(chain: Seq<RuleView>, r: RuleView) -> Seq<RuleView> {
    if holds(chain, r) {
        chain
    } else {
        match r.placement {
            Placement::Front => seq![r] + chain,
            Placement::Back => chain.push(r),
        }
    }
}

/// The rules of a chain once every copy of a rule was removed.
pub open spec fn cleared(chain: Seq<RuleView>, r: RuleView) -> Seq<RuleView> {
    chain.filter(|x: RuleView| !same_rule(x, r))
}

/// Whether `r` stands nowhere in the chain but at its end.
pub open spec fn only_last(chain: Seq<RuleView>, r: RuleView) -> bool {
    forall|i: int|
        0 <= i < chain.len() && same_rule(#[trigger] chain[i], r) ==> i == chain.len() - 1
}

/// A rule that is placed at the front never gets below the one at the end of
/// the chain.
pub proof fn law_front_keeps_the_end(chain: Seq<RuleView>, end: RuleView, r: RuleView)
    requires
        only_last(chain, end),
        r.placement == Placement::Front,
        !same_rule(r, end),
    ensures
        only_last(ensured(chain, r), end),
{
    let c = ensured(chain, r);
    if !holds(chain, r) {
        assert forall|i: int|
            0 <= i < c.len() && same_rule(#[trigger] c[i], end) implies i == c.len() - 1 by {
            assert(i > 0);
            assert(chain[i - 1] == c[i]);
        }
    }
}

/// A rule that is placed at the back ends up at the end of a chain that holds
/// it nowhere else.
pub proof fn law_back_goes_to_the_end(chain: Seq<RuleView>, end: RuleView)
    requires
        only_last(chain, end),
        end.placement == Placement::Back,
    ensures
        only_last(ensured(chain, end), end),
        ensured(chain, end).len() > 0,
        same_rule(ensured(chain, end).last(), end),
{
    let c = ensured(chain, end);
    if holds(chain, end) {
        let i = choose|i: int| 0 <= i < chain.len() && same_rule(#[trigger] chain[i], end);
        assert(i == chain.len() - 1);
    } else {
        assert forall|i: int|
            0 <= i < c.len() && same_rule(#[trigger] c[i], end) implies i == c.len() - 1 by {
            if i < chain.len() {
                assert(chain[i] == c[i]);
            }
        }
    }
}

/// A rule that was made sure of is there, and what was there before still is.
pub proof fn law_what_is_ensured_is_there(chain: Seq<RuleView>, r: RuleView, x: RuleView)
    ensures
        holds(ensured(chain, r), r),
        holds(chain, x) ==> holds(ensured(chain, r), x),
{
    let c = ensured(chain, r);
    if !holds(chain, r) {
        match r.placement {
            Placement::Front => {
                assert(same_rule(c[0], r));
            },
            Placement::Back => {
                assert(same_rule(c[chain.len() as int], r));
            },
        }
        if holds(chain, x) {
            let k = choose|k: int| 0 <= k < chain.len() && same_rule(#[trigger] chain[k], x);
            match r.placement {
                Placement::Front => {
                    assert(same_rule(c[k + 1], x));
                },
                Placement::Back => {
                    assert(same_rule(c[k], x));
                },
            }
        }
    }
}

/// Making sure of a rule a second time changes nothing, wherever it is to be placed
/// then.
pub proof fn law_ensuring_is_idempotent(chain: Seq<RuleView>, r: RuleView, again: RuleView)
    requires
        same_rule(r, again),
    ensures
        ensured(ensured(chain, r), again) == ensured(chain, r),
{
    law_what_is_ensured_is_there(chain, r, r);
    let c = ensured(chain, r);
    let k = choose|k: int| 0 <= k < c.len() && same_rule(#[trigger] c[k], r);
    assert(same_rule(c[k], again));
}

/// What a call of `iptables` is to do with a rule.
pub enum Order {
    Append,
    /// Insert it at this position.
    Insert(Seq<char>),
    Look,
    Delete,
}

/// What a call of `iptables` says: what to do, in which chain of which table, with a rule
/// of these arguments; `None` for one that does not say it, or that does not wait for the
/// lock on the tables.
pub open spec fn understood(a: Seq<Seq<char>>) -> Option<(Order, Table, Seq<char>, Seq<Seq<char>>)> {
    if a.len() < 4 || a[0] != "-w"@ {
        None
    } else {
        let nat_table = a.len() >= 6 && a[2] == "-t"@ && a[3] == "nat"@;
        let table = if nat_table {
            Table::Nat
        } else {
            Table::Filter
        };
        let b = if nat_table {
            a.skip(4)
        } else {
            a.skip(2)
        };
        if b[0] == "-A"@ {
            Some((Order::Append, table, b[1], b.skip(2)))
        } else if b[0] == "-C"@ {
            Some((Order::Look, table, b[1], b.skip(2)))
        } else if b[0] == "-D"@ {
            Some((Order::Delete, table, b[1], b.skip(2)))
        } else if b[0] == "-I"@ && b.len() >= 3 {
            Some((Order::Insert(b[2]), table, b[1], b.skip(3)))
        } else {
            None
        }
    }
}

/// The call that adds a rule puts it at the first position of its chain or at the end, as
/// the rule says; the calls that look for it and delete it name the same rule in the same
/// chain of the same table.
pub proof fn law_calls_say_what_is_meant(r: RuleView)
    ensures
        understood(adding(r)) == Some(
            (
                match r.placement {
                    Placement::Front => Order::Insert("1"@),
                    Placement::Back => Order::Append,
                },
                r.table,
                r.chain,
                r.args,
            ),
        ),
        understood(checking(r)) == Some((Order::Look, r.table, r.chain, r.args)),
        understood(deleting(r)) == Some((Order::Delete, r.table, r.chain, r.args)),
        call(adding(r)).program == "iptables"@ && call(adding(r)).args == adding(r),
{
    reveal_strlit("-w");
    reveal_strlit("-t");
    reveal_strlit("-A");
    reveal_strlit("-C");
    reveal_strlit("-D");
    reveal_strlit("-I");
    assert("-t"@[1] == 't' && "-A"@[1] == 'A' && "-C"@[1] == 'C' && "-D"@[1] == 'D' && "-I"@[1]
        == 'I');
    let k: int = match r.table {
        Table::Filter => 2,
        Table::Nat => 4,
    };
    let a = adding(r);
    let c = checking(r);
    let d = deleting(r);
    assert(c.skip(k).skip(2) =~= r.args);
    assert(d.skip(k).skip(2) =~= r.args);
    match r.placement {
        Placement::Front => {
            assert(a.skip(k).skip(3) =~= r.args);
        },
        Placement::Back => {
            assert(a.skip(k).skip(2) =~= r.args);
        },
    }
}

} // verus!
