//! Procedures: things to do one after the other, with what to do when one of
//! them fails.
//!
//! A procedure is a list of steps. Whoever carries it out asks for the first
//! action, performs it, says whether it succeeded, and is told the next one.

use vstd::prelude::*;

verus! {

/// One thing to do.
#[derive(Debug)]
pub struct Step<A> {
    /// What to do.
    pub action: A,
    /// What to do in its place when it fails. Failures of these do not count.
    pub undo: Vec<A>,
    /// Whether the procedure goes on when it fails.
    pub tolerate: bool,
}

/// A [`Step`], its actions taken by their views.
#[verifier::ext_equal]
pub struct StepView<V> {
    pub action: V,
    pub undo: Seq<V>,
    pub tolerate: bool,
}

impl<A: View> View for Step<A> {
    type V = StepView<A::V>;

    open spec fn view(&self) -> StepView<A::V> {
        StepView {
            action: self.action@,
            undo: self.undo@.map_values(|a: A| a@),
            tolerate: self.tolerate,
        }
    }
}

/// The views of a list of steps.
pub open spec fn plan<A: View>(steps: Seq<Step<A>>) -> Seq<StepView<A::V>> {
    steps.map_values(|s: Step<A>| s@)
}

/// A step that the procedure cannot do without.
pub open spec fn must<V>(action: V) -> StepView<V> {
    StepView { action, undo: seq![], tolerate: false }
}

/// A step that the procedure cannot do without, and what to do when it fails.
pub open spec fn must_or<V>(action: V, undo: Seq<V>) -> StepView<V> {
    StepView { action, undo, tolerate: false }
}

/// A step whose failure does not stop the procedure.
pub open spec fn may<V>(action: V) -> StepView<V> {
    StepView { action, undo: seq![], tolerate: true }
}

/// The procedure `steps` with one more step, that it cannot do without.
pub fn then_must<A: View>(steps: Vec<Step<A>>, action: A) -> (r: Vec<Step<A>>)
    ensures
        plan(r@) == plan(steps@).push(must(action@)),
{
    let undo: Vec<A> = Vec::new();
    let mut steps = steps;
    let ghost before = steps@;
    let s = Step { action, undo, tolerate: false };
    steps.push(s);
    assert(undo@.map_values(|a: A| a@) =~= seq![]);
    assert(plan(steps@) =~= plan(before).push(s@));
    steps
}

/// The procedure `steps` with one more step, and what to do when it fails.
pub fn then_must_or<A: View>(steps: Vec<Step<A>>, action: A, undo: A) -> (r: Vec<Step<A>>)
    ensures
        plan(r@) == plan(steps@).push(must_or(action@, seq![undo@])),
{
    let mut list: Vec<A> = Vec::new();
    list.push(undo);
    let mut steps = steps;
    let ghost before = steps@;
    let s = Step { action, undo: list, tolerate: false };
    steps.push(s);
    assert(list@.map_values(|a: A| a@) =~= seq![undo@]);
    assert(plan(steps@) =~= plan(before).push(s@));
    steps
}

/// The views of a list of actions.
pub open spec fn views<A: View>(actions: Seq<A>) -> Seq<A::V> {
    actions.map_values(|a: A| a@)
}

/// The list `actions` with one more action.
pub fn and<A: View>(actions: Vec<A>, action: A) -> (r: Vec<A>)
    ensures
        views(r@) == views(actions@).push(action@),
{
    let mut actions = actions;
    let ghost before = actions@;
    actions.push(action);
    assert(views(actions@) =~= views(before).push(action@));
    actions
}

/// The list without actions.
pub fn no_actions<A: View>() -> (r: Vec<A>)
    ensures
        views(r@) == Seq::<A::V>::empty(),
{
    let v: Vec<A> = Vec::new();
    assert(views(v@) =~= Seq::<A::V>::empty());
    v
}

/// The procedure `steps` with one more step, and all that is to be done when it
/// fails.
pub fn then_must_undo<A: View>(steps: Vec<Step<A>>, action: A, undo: Vec<A>) -> (r: Vec<Step<A>>)
    ensures
        plan(r@) == plan(steps@).push(must_or(action@, views(undo@))),
{
    let mut steps = steps;
    let ghost before = steps@;
    let s = Step { action, undo, tolerate: false };
    steps.push(s);
    assert(plan(steps@) =~= plan(before).push(s@));
    steps
}

/// The procedure `steps` with one more step, whose failure does not stop it.
pub fn then_may<A: View>(steps: Vec<Step<A>>, action: A) -> (r: Vec<Step<A>>)
    ensures
        plan(r@) == plan(steps@).push(may(action@)),
{
    let undo: Vec<A> = Vec::new();
    let mut steps = steps;
    let ghost before = steps@;
    let s = Step { action, undo, tolerate: true };
    steps.push(s);
    assert(undo@.map_values(|a: A| a@) =~= seq![]);
    assert(plan(steps@) =~= plan(before).push(s@));
    steps
}

/// The procedure `steps` and then the procedure `more`.
pub fn then_all<A: View>(steps: Vec<Step<A>>, more: Vec<Step<A>>) -> (r: Vec<Step<A>>)
    ensures
        plan(r@) == plan(steps@) + plan(more@),
{
    let mut steps = steps;
    let mut more = more;
    let ghost before = steps@;
    let ghost rest = more@;
    steps.append(&mut more);
    assert(plan(steps@) =~= plan(before) + plan(rest));
    steps
}

/// The procedure without steps.
pub fn no_steps<A: View>() -> (r: Vec<Step<A>>)
    ensures
        plan(r@) == Seq::<StepView<A::V>>::empty(),
{
    let v: Vec<Step<A>> = Vec::new();
    assert(plan(v@) =~= Seq::<StepView<A::V>>::empty());
    v
}

/// Where a procedure stands.
#[derive(Debug, Clone, Copy, PartialEq, Eq, Structural)]
pub enum Position {
    /// The action of a step is to be performed.
    Step(usize),
    /// The step has failed, and one of the actions that take its place is to
    /// be performed.
    Undo(usize, usize),
}

/// Whether `p` is a position in the procedure.
pub open spec fn in_range<A>(steps: Seq<Step<A>>, p: Position) -> bool {
    match p {
        Position::Step(i) => i < steps.len(),
        Position::Undo(i, j) => i < steps.len() && j < steps[i as int].undo@.len(),
    }
}

/// The position of the step `i`, when there is one.
pub open spec fn at_step<A>(steps: Seq<Step<A>>, i: int) -> Option<Position> {
    if 0 <= i < steps.len() {
        Some(Position::Step(i as usize))
    } else {
        None
    }
}

/// The position of the action `j` that takes the place of the step `i`.
pub open spec fn at_undo<A>(steps: Seq<Step<A>>, i: int, j: int) -> Option<Position> {
    if 0 <= j < steps[i].undo@.len() {
        Some(Position::Undo(i as usize, j as usize))
    } else {
        None
    }
}

/// Where a procedure goes on from `p`, given whether the action at `p`
/// succeeded. It has come to its end where the result is `None`.
pub open spec fn following<A>(steps: Seq<Step<A>>, p: Position, ok: bool) -> Option<Position> {
    match p {
        Position::Step(i) => if ok || steps[i as int].tolerate {
            at_step(steps, i + 1)
        } else {
            at_undo(steps, i as int, 0)
        },
        Position::Undo(i, j) => at_undo(steps, i as int, j + 1),
    }
}

/// Where a procedure starts.
pub fn first<A>(steps: &Vec<Step<A>>) -> (r: Option<Position>)
    ensures
        r == at_step(steps@, 0),
        r matches Some(p) ==> in_range(steps@, p),
{
    if steps.len() > 0 {
        Some(Position::Step(0))
    } else {
        None
    }
}

/// Where a procedure goes on.
pub fn next<A>(steps: &Vec<Step<A>>, p: Position, ok: bool) -> (r: Option<Position>)
    requires
        in_range(steps@, p),
    ensures
        r == following(steps@, p, ok),
        r matches Some(q) ==> in_range(steps@, q),
{
    match p {
        Position::Step(i) => {
            if ok || steps[i].tolerate {
                if i < steps.len() - 1 {
                    Some(Position::Step(i + 1))
                } else {
                    None
                }
            } else if steps[i].undo.len() > 0 {
                Some(Position::Undo(i, 0))
            } else {
                None
            }
        },
        Position::Undo(i, j) => {
            if j < steps[i].undo.len() - 1 {
                Some(Position::Undo(i, j + 1))
            } else {
                None
            }
        },
    }
}

/// Whether a procedure fails for what happened at `p`: a step failed that it cannot
/// do without. What takes the place of a step that failed does not count.
pub open spec fn is_failure<A>(steps: Seq<Step<A>>, p: Position, ok: bool) -> bool {
    p matches Position::Step(i) && !ok && !steps[i as int].tolerate
}

/// Whether a procedure fails for what happened at `p`.
pub fn stops<A>(steps: &Vec<Step<A>>, p: Position, ok: bool) -> (r: bool)
    requires
        in_range(steps@, p),
    ensures
        r == (p matches Position::Step(i) && !ok && !steps@[i as int].tolerate),
        r == is_failure(steps@, p, ok),
{
    match p {
        Position::Step(i) => !ok && !steps[i].tolerate,
        Position::Undo(_, _) => false,
    }
}

/// How a procedure has gone so far, once it is known how the action at `p` went:
/// the error of a step that it cannot do without is the error of the procedure.
pub fn verdict<A, E>(
    steps: &Vec<Step<A>>,
    p: Position,
    did: Result<(), E>,
    so_far: Result<(), E>,
) -> (r: Result<(), E>)
    requires
        in_range(steps@, p),
    ensures
        r == (if is_failure(steps@, p, did is Ok) {
            did
        } else {
            so_far
        }),
{
    if stops(steps, p, did.is_ok()) {
        did
    } else {
        so_far
    }
}

/// The action at a position.
pub open spec fn action_of<A>(steps: Seq<Step<A>>, p: Position) -> A {
    match p {
        Position::Step(i) => steps[i as int].action,
        Position::Undo(i, j) => steps[i as int].undo@[j as int],
    }
}

/// The action at a position.
pub fn action_at<A>(steps: &Vec<Step<A>>, p: Position) -> (r: &A)
    requires
        in_range(steps@, p),
    ensures
        *r == action_of(steps@, p),
{
    match p {
        Position::Step(i) => &steps[i].action,
        Position::Undo(i, j) => &steps[i].undo[j],
    }
}

/// What is performed from the step `i` on, when `ok` says which steps succeed.
pub open spec fn performed<A>(steps: Seq<Step<A>>, ok: spec_fn(int) -> bool, i: int) -> Seq<A>
    decreases steps.len() - i,
{
    if i < 0 || i >= steps.len() {
        seq![]
    } else if ok(i) || steps[i].tolerate {
        seq![steps[i].action] + performed(steps, ok, i + 1)
    } else {
        seq![steps[i].action] + steps[i].undo@
    }
}

/// The first step from `i` on that fails and that the procedure cannot do without.
pub open spec fn first_failure<A>(steps: Seq<Step<A>>, ok: spec_fn(int) -> bool, i: int) -> Option<
    int,
>
    decreases steps.len() - i,
{
    if i < 0 || i >= steps.len() {
        None
    } else if ok(i) || steps[i].tolerate {
        first_failure(steps, ok, i + 1)
    } else {
        Some(i)
    }
}

/// How much is still ahead of a position, at most.
pub open spec fn ahead<A>(steps: Seq<Step<A>>, p: Option<Position>) -> (int, int) {
    match p {
        None => (0, 0),
        Some(Position::Step(i)) => (steps.len() - i + 1, 0),
        Some(Position::Undo(i, j)) => (1, steps[i as int].undo@.len() - j),
    }
}

/// Whether the procedure and every list in it can be indexed.
pub open spec fn indexable<A>(steps: Seq<Step<A>>) -> bool {
    &&& steps.len() <= usize::MAX
    &&& forall|k: int| 0 <= k < steps.len() ==> (#[trigger] steps[k]).undo@.len() <= usize::MAX
}

/// What is performed when one goes from `p` to where [`following`] leads, until
/// the end.
pub open spec fn carried_out<A>(
    steps: Seq<Step<A>>,
    ok: spec_fn(int) -> bool,
    p: Option<Position>,
) -> Seq<A>
    decreases ahead(steps, p).0, ahead(steps, p).1,
    when indexable(steps) && (p matches Some(q) ==> in_range(steps, q))
{
    match p {
        None => seq![],
        Some(q) => {
            let good = match q {
                Position::Step(i) => ok(i as int),
                Position::Undo(i, j) => true,
            };
            seq![action_of(steps, q)] + carried_out(steps, ok, following(steps, q, good))
        },
    }
}

proof fn lemma_undo_carried_out<A>(steps: Seq<Step<A>>, ok: spec_fn(int) -> bool, i: int, j: int)
    requires
        indexable(steps),
        0 <= i < steps.len(),
        0 <= j <= steps[i].undo@.len(),
    ensures
        carried_out(steps, ok, at_undo(steps, i, j)) == steps[i].undo@.skip(j),
    decreases steps[i].undo@.len() - j,
{
    let u = steps[i].undo@;
    if j < u.len() {
        lemma_undo_carried_out(steps, ok, i, j + 1);
        assert(u.skip(j) =~= seq![u[j]] + u.skip(j + 1));
    } else {
        assert(u.skip(j) =~= seq![]);
    }
}

/// Going from position to position performs the steps in their order up to
/// the first that fails and is not tolerated, and then what takes its place.
pub proof fn law_procedure<A>(steps: Seq<Step<A>>, ok: spec_fn(int) -> bool, i: int)
    requires
        indexable(steps),
        0 <= i <= steps.len(),
    ensures
        carried_out(steps, ok, at_step(steps, i)) == performed(steps, ok, i),
    decreases steps.len() - i,
{
    if i < steps.len() {
        assert(steps[i].undo@.len() <= usize::MAX);
        if ok(i) || steps[i].tolerate {
            law_procedure(steps, ok, i + 1);
        } else {
            lemma_undo_carried_out(steps, ok, i, 0);
            assert(steps[i].undo@.skip(0) =~= steps[i].undo@);
        }
    }
}

/// The steps at which a procedure fails, when one goes from `p` to where
/// [`following`] leads, until the end.
pub open spec fn failed_at<A>(
    steps: Seq<Step<A>>,
    ok: spec_fn(int) -> bool,
    p: Option<Position>,
) -> Seq<int>
    decreases ahead(steps, p).0, ahead(steps, p).1,
    when indexable(steps) && (p matches Some(q) ==> in_range(steps, q))
{
    match p {
        None => seq![],
        Some(q) => {
            let good = match q {
                Position::Step(i) => ok(i as int),
                Position::Undo(i, j) => true,
            };
            let rest = failed_at(steps, ok, following(steps, q, good));
            match q {
                Position::Step(i) => if is_failure(steps, q, good) {
                    seq![i as int] + rest
                } else {
                    rest
                },
                Position::Undo(_, _) => rest,
            }
        },
    }
}

proof fn lemma_undo_fails_nowhere<A>(steps: Seq<Step<A>>, ok: spec_fn(int) -> bool, i: int, j: int)
    requires
        indexable(steps),
        0 <= i < steps.len(),
        0 <= j <= steps[i].undo@.len(),
    ensures
        failed_at(steps, ok, at_undo(steps, i, j)) == Seq::<int>::empty(),
    decreases steps[i].undo@.len() - j,
{
    if j < steps[i].undo@.len() {
        lemma_undo_fails_nowhere(steps, ok, i, j + 1);
    }
}

/// A procedure fails at one step at most: the first that fails and that it cannot do
/// without. It succeeds exactly where there is no such step.
pub proof fn law_one_failure_counts<A>(steps: Seq<Step<A>>, ok: spec_fn(int) -> bool, i: int)
    requires
        indexable(steps),
        0 <= i <= steps.len(),
    ensures
        failed_at(steps, ok, at_step(steps, i)) == (match first_failure(steps, ok, i) {
            Some(f) => seq![f],
            None => seq![],
        }),
    decreases steps.len() - i,
{
    if i < steps.len() {
        assert(steps[i].undo@.len() <= usize::MAX);
        if ok(i) || steps[i].tolerate {
            law_one_failure_counts(steps, ok, i + 1);
        } else {
            lemma_undo_fails_nowhere(steps, ok, i, 0);
            assert(failed_at(steps, ok, at_step(steps, i)) =~= seq![i]);
        }
    }
}

/// Which steps succeed, given how each action goes.
pub open spec fn succeeding<E>(did: spec_fn(Position) -> Result<(), E>) -> spec_fn(int) -> bool {
    |k: int| did(Position::Step(k as usize)) is Ok
}

/// Whether the first `n` steps succeed.
pub open spec fn all_good<E>(did: spec_fn(Position) -> Result<(), E>, n: int) -> bool {
    forall|k: int| 0 <= k < n ==> (#[trigger] did(Position::Step(k as usize))) is Ok
}

/// How a procedure goes from `p` on, given how each action goes, when one goes to
/// where [`next`] leads and keeps what [`verdict`] says, until the end.
pub open spec fn ended<A, E>(
    steps: Seq<Step<A>>,
    did: spec_fn(Position) -> Result<(), E>,
    p: Option<Position>,
    so_far: Result<(), E>,
) -> Result<(), E>
    decreases ahead(steps, p).0, ahead(steps, p).1,
    when indexable(steps) && (p matches Some(q) ==> in_range(steps, q))
{
    match p {
        None => so_far,
        Some(q) => ended(
            steps,
            did,
            following(steps, q, did(q) is Ok),
            if is_failure(steps, q, did(q) is Ok) {
                did(q)
            } else {
                so_far
            },
        ),
    }
}

/// How a procedure goes, given how each action goes: the error is that of the first
/// step that fails and that it cannot do without.
pub open spec fn outcome_of<A, E>(
    steps: Seq<Step<A>>,
    did: spec_fn(Position) -> Result<(), E>,
) -> Result<(), E> {
    match first_failure(steps, succeeding(did), 0) {
        Some(f) => did(Position::Step(f as usize)),
        None => Ok(()),
    }
}

proof fn lemma_undo_changes_nothing<A, E>(
    steps: Seq<Step<A>>,
    did: spec_fn(Position) -> Result<(), E>,
    i: int,
    j: int,
    so_far: Result<(), E>,
)
    requires
        indexable(steps),
        0 <= i < steps.len(),
        0 <= j <= steps[i].undo@.len(),
    ensures
        ended(steps, did, at_undo(steps, i, j), so_far) == so_far,
    decreases steps[i].undo@.len() - j,
{
    if j < steps[i].undo@.len() {
        lemma_undo_changes_nothing(steps, did, i, j + 1, so_far);
    }
}

proof fn lemma_ended<A, E>(
    steps: Seq<Step<A>>,
    did: spec_fn(Position) -> Result<(), E>,
    i: int,
)
    requires
        indexable(steps),
        0 <= i <= steps.len(),
    ensures
        ended(steps, did, at_step(steps, i), Ok(())) == (match first_failure(
            steps,
            succeeding(did),
            i,
        ) {
            Some(f) => did(Position::Step(f as usize)),
            None => Ok(()),
        }),
    decreases steps.len() - i,
{
    if i < steps.len() {
        assert(steps[i].undo@.len() <= usize::MAX);
        let d = did(Position::Step(i as usize));
        if d is Ok || steps[i].tolerate {
            lemma_ended(steps, did, i + 1);
        } else {
            lemma_undo_changes_nothing(steps, did, i, 0, d);
        }
    }
}

/// Whoever goes from position to position and keeps what [`verdict`] says ends with
/// the error of the first step that failed and that the procedure cannot do without,
/// whatever became of what took its place.
pub proof fn law_first_error_is_the_result<A, E>(
    steps: Seq<Step<A>>,
    did: spec_fn(Position) -> Result<(), E>,
)
    requires
        indexable(steps),
    ensures
        ended(steps, did, at_step(steps, 0), Ok(())) == outcome_of(steps, did),
{
    lemma_ended(steps, did, 0);
}

/// Up to the step that a procedure fails at everything is performed in order, and
/// then what takes the place of that step; where it does not fail, everything is.
pub proof fn law_performed_up_to_the_failure<A>(
    steps: Seq<Step<A>>,
    ok: spec_fn(int) -> bool,
    i: int,
)
    requires
        0 <= i <= steps.len(),
    ensures
        match first_failure(steps, ok, i) {
            Some(f) => {
                &&& i <= f < steps.len()
                &&& !ok(f) && !steps[f].tolerate
                &&& forall|k: int| i <= k < f ==> ok(k) || (#[trigger] steps[k]).tolerate
                &&& performed(steps, ok, i) == steps.subrange(i, f + 1).map_values(
                    |s: Step<A>| s.action,
                ) + steps[f].undo@
            },
            None => {
                &&& forall|k: int| i <= k < steps.len() ==> ok(k) || (#[trigger] steps[k]).tolerate
                &&& performed(steps, ok, i) == steps.skip(i).map_values(|s: Step<A>| s.action)
            },
        },
    decreases steps.len() - i,
{
    let act = |s: Step<A>| s.action;
    if i < steps.len() {
        law_performed_up_to_the_failure(steps, ok, i + 1);
        if ok(i) || steps[i].tolerate {
            match first_failure(steps, ok, i + 1) {
                Some(f) => {
                    assert(steps.subrange(i, f + 1).map_values(act) =~= seq![steps[i].action]
                        + steps.subrange(i + 1, f + 1).map_values(act));
                    assert(performed(steps, ok, i) =~= steps.subrange(i, f + 1).map_values(act)
                        + steps[f].undo@);
                },
                None => {
                    assert(steps.skip(i).map_values(act) =~= seq![steps[i].action] + steps.skip(
                        i + 1,
                    ).map_values(act));
                },
            }
        } else {
            assert(steps.subrange(i, i + 1).map_values(act) =~= seq![steps[i].action]);
        }
    } else {
        assert(steps.skip(i).map_values(act) =~= seq![]);
    }
}

/// Where nothing takes the place of a step that fails, what is performed are the
/// first steps in their order, and all of them but the last have succeeded or
/// need not have.
pub proof fn law_failure_stops<A>(steps: Seq<Step<A>>, ok: spec_fn(int) -> bool, i: int)
    requires
        0 <= i <= steps.len(),
        forall|k: int| 0 <= k < steps.len() ==> (#[trigger] steps[k]).undo@.len() == 0,
    ensures
        ({
            let did = performed(steps, ok, i);
            &&& i + did.len() <= steps.len()
            &&& forall|j: int| 0 <= j < did.len() ==> #[trigger] did[j] == steps[i + j].action
            &&& forall|k: int|
                i <= k < i + did.len() - 1 ==> ok(k) || (#[trigger] steps[k]).tolerate
        }),
    decreases steps.len() - i,
{
    if i < steps.len() {
        law_failure_stops(steps, ok, i + 1);
        let did = performed(steps, ok, i);
        let rest = performed(steps, ok, i + 1);
        if ok(i) || steps[i].tolerate {
            assert(did == seq![steps[i].action] + rest);
            assert forall|j: int| 0 <= j < did.len() implies #[trigger] did[j]
                == steps[i + j].action by {
                if j > 0 {
                    assert(did[j] == rest[j - 1]);
                }
            }
        } else {
            assert(did =~= seq![steps[i].action]);
        }
    }
}

/// When every step succeeds, every action is performed, in order, and nothing
/// else is.
pub proof fn law_procedure_all_good<A>(steps: Seq<Step<A>>, i: int)
    requires
        0 <= i <= steps.len(),
    ensures
        performed(steps, |k: int| true, i) == steps.skip(i).map_values(|s: Step<A>| s.action),
    decreases steps.len() - i,
{
    if i < steps.len() {
        law_procedure_all_good(steps, i + 1);
        assert(steps.skip(i).map_values(|s: Step<A>| s.action) =~= seq![steps[i].action]
            + steps.skip(i + 1).map_values(|s: Step<A>| s.action));
    } else {
        assert(steps.skip(i).map_values(|s: Step<A>| s.action) =~= seq![]);
    }
}

} // verus!
