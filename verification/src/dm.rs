//! Device-mapper devices, through `dmsetup`.

use vstd::prelude::*;
use vstd::string::*;

use crate::command::{Invocation, InvocationView};
use crate::error::{outcome, Error, ErrorView};
use crate::procedure::{
    first_failure, must, must_or, no_steps, outcome_of, performed, plan, succeeding, then_must,
    then_must_or, Position, Step, StepView,
};
use crate::text::{
    contains, has_prefix, lemma_texts_push, lines, lines_of, occurs, same, split_words,
    starts_with, texts, words,
};

verus! {

/// The bytes of a sector.
pub const SECTOR_SIZE: u64 = 512;

/// Where a device-mapper device shows.
pub open spec fn device_path_of(name: Seq<char>) -> Seq<char> {
    "/dev/mapper/"@ + name
}

/// Where a device-mapper device shows.
pub fn device_path(name: &str) -> (r: String)
    ensures
        r@ == device_path_of(name@),
{
    "/dev/mapper/".to_owned().concat(name)
}

/// A call of `dmsetup`. Errors refer to it by its verb where it cannot be started.
pub open spec fn dmsetup(args: Seq<Seq<char>>, label: Seq<char>) -> InvocationView {
    InvocationView {
        program: "dmsetup"@,
        args,
        label,
        start_label: "dmsetup "@ + args[0],
    }
}

/// A call of `dmsetup` with its verb.
pub fn call(verb: &str, label: &str) -> (r: Invocation)
    ensures
        r@ == dmsetup(seq![verb@], label@),
{
    let start = "dmsetup ".to_owned().concat(verb);
    Invocation::new("dmsetup", label).started_as(start.as_str()).arg(verb)
}

/// Asks whether a device is there: the call succeeds when it is.
pub fn device_exists(name: &str) -> (r: Invocation)
    ensures
        r@ == dmsetup(seq!["info"@, "--noheadings"@, name@], "dmsetup info"@),
{
    call("info", "dmsetup info").arg("--noheadings").arg(name)
}

/// The call that creates a device.
pub open spec fn create_call(name: Seq<char>, table: Seq<char>) -> InvocationView {
    dmsetup(seq!["create"@, name, "--table"@, table], "dmsetup create "@ + name)
}

/// Creates a device.
pub fn create(name: &str, table: &str) -> (r: Invocation)
    ensures
        r@ == create_call(name@, table@),
{
    let label = "dmsetup create ".to_owned().concat(name);
    call("create", label.as_str()).arg(name).arg("--table").arg(table)
}

/// The call that removes a device.
pub open spec fn remove_call(name: Seq<char>) -> InvocationView {
    dmsetup(seq!["remove"@, name], "dmsetup remove "@ + name)
}

/// Removes a device.
pub fn remove(name: &str) -> (r: Invocation)
    ensures
        r@ == remove_call(name@),
{
    let label = "dmsetup remove ".to_owned().concat(name);
    call("remove", label.as_str()).arg(name)
}

/// The call that suspends a device.
pub open spec fn suspend_call(name: Seq<char>) -> InvocationView {
    dmsetup(seq!["suspend"@, name], "dmsetup suspend "@ + name)
}

/// Suspends a device.
pub fn suspend(name: &str) -> (r: Invocation)
    ensures
        r@ == suspend_call(name@),
{
    let label = "dmsetup suspend ".to_owned().concat(name);
    call("suspend", label.as_str()).arg(name)
}

/// The call that resumes a device.
pub open spec fn resume_call(name: Seq<char>) -> InvocationView {
    dmsetup(seq!["resume"@, name], "dmsetup resume "@ + name)
}

/// Resumes a device.
pub fn resume(name: &str) -> (r: Invocation)
    ensures
        r@ == resume_call(name@),
{
    let label = "dmsetup resume ".to_owned().concat(name);
    call("resume", label.as_str()).arg(name)
}

/// The call that loads a table beside the live one.
pub open spec fn load_call(name: Seq<char>, table: Seq<char>) -> InvocationView {
    dmsetup(seq!["load"@, name, "--table"@, table], "dmsetup load "@ + name)
}

/// Loads a table beside the live one.
pub fn load(name: &str, table: &str) -> (r: Invocation)
    ensures
        r@ == load_call(name@, table@),
{
    let label = "dmsetup load ".to_owned().concat(name);
    call("load", label.as_str()).arg(name).arg("--table").arg(table)
}

/// How the table of a device is changed while it stands still. When the new table
/// is refused, the device goes on with the old one.
pub open spec fn reloading(name: Seq<char>, table: Seq<char>) -> Seq<StepView<InvocationView>> {
    seq![
        must(suspend_call(name)),
        must_or(load_call(name, table), seq![resume_call(name)]),
        must(resume_call(name)),
    ]
}

/// Changes the table of a device while it stands still. When the new table is
/// refused, the device goes on with the old one.
pub fn reload(name: &str, table: &str) -> (r: Vec<Step<Invocation>>)
    ensures
        plan(r@) == reloading(name@, table@),
{
    let steps = then_must(no_steps(), suspend(name));
    let steps = then_must_or(steps, load(name, table), resume(name));
    then_must(steps, resume(name))
}

/// How the table of a device is changed that goes on running until the change.
pub open spec fn swapping(name: Seq<char>, table: Seq<char>) -> Seq<StepView<InvocationView>> {
    seq![must(load_call(name, table)), must(resume_call(name))]
}

/// Changes the table of a device that goes on running until the change.
pub fn swap_table(name: &str, table: &str) -> (r: Vec<Step<Invocation>>)
    ensures
        plan(r@) == swapping(name@, table@),
{
    let steps = then_must(no_steps(), load(name, table));
    then_must(steps, resume(name))
}

/// The calls that are made of these steps, given how each goes.
pub open spec fn calls_made<E>(
    steps: Seq<Step<Invocation>>,
    did: spec_fn(Position) -> Result<(), E>,
) -> Seq<InvocationView> {
    performed(steps, succeeding(did), 0).map_values(|i: Invocation| i@)
}

/// A device whose new table is refused is resumed all the same, and the refusal is
/// the result, whatever became of that. One that cannot be suspended is left alone.
/// Else the result is that of resuming it.
pub proof fn law_a_refused_table_leaves_nothing_suspended<E>(
    steps: Seq<Step<Invocation>>,
    did: spec_fn(Position) -> Result<(), E>,
    name: Seq<char>,
    table: Seq<char>,
)
    requires
        plan(steps) == reloading(name, table),
    ensures
        ({
            let suspended = did(Position::Step(0));
            let loaded = did(Position::Step(1));
            let resumed = did(Position::Step(2));
            if suspended is Err {
                &&& calls_made(steps, did) == seq![suspend_call(name)]
                &&& outcome_of(steps, did) == suspended
            } else if loaded is Err {
                &&& calls_made(steps, did) == seq![
                    suspend_call(name),
                    load_call(name, table),
                    resume_call(name),
                ]
                &&& outcome_of(steps, did) == loaded
            } else {
                &&& calls_made(steps, did) == seq![
                    suspend_call(name),
                    load_call(name, table),
                    resume_call(name),
                ]
                &&& outcome_of(steps, did) == resumed
            }
        }),
{
    let ok = succeeding(did);
    let p = plan(steps);
    assert(p.len() == steps.len());
    assert(p[0] == steps[0]@ && p[1] == steps[1]@ && p[2] == steps[2]@);
    assert(steps[0]@.undo.len() == steps[0].undo@.len());
    assert(steps[1]@.undo.len() == steps[1].undo@.len());
    assert(steps[2]@.undo.len() == steps[2].undo@.len());
    assert(steps[1]@.undo[0] == steps[1].undo@[0]@);
    reveal_with_fuel(first_failure, 4);
    reveal_with_fuel(performed, 4);
    let made = calls_made(steps, did);
    let resumed = did(Position::Step(2));
    if resumed is Ok {
        assert(resumed->Ok_0 == ());
        assert(resumed == Ok::<(), E>(()));
    }
    if did(Position::Step(0)) is Err {
        assert(first_failure(steps, ok, 0) == Some(0int));
        assert(made =~= seq![suspend_call(name)]);
    } else {
        assert(made =~= seq![suspend_call(name), load_call(name, table), resume_call(name)]);
    }
}

/// A device whose table is swapped is never suspended by it. A table that is refused
/// is the result, and the device is left alone; else the result is that of resuming
/// the device once.
pub proof fn law_swapping_never_suspends<E>(
    steps: Seq<Step<Invocation>>,
    did: spec_fn(Position) -> Result<(), E>,
    name: Seq<char>,
    table: Seq<char>,
)
    requires
        plan(steps) == swapping(name, table),
    ensures
        ({
            let loaded = did(Position::Step(0));
            let resumed = did(Position::Step(1));
            if loaded is Err {
                &&& calls_made(steps, did) == seq![load_call(name, table)]
                &&& outcome_of(steps, did) == loaded
            } else {
                &&& calls_made(steps, did) == seq![load_call(name, table), resume_call(name)]
                &&& outcome_of(steps, did) == resumed
            }
        }),
{
    let p = plan(steps);
    assert(p.len() == steps.len());
    assert(p[0] == steps[0]@ && p[1] == steps[1]@);
    assert(steps[0]@.undo.len() == steps[0].undo@.len());
    assert(steps[1]@.undo.len() == steps[1].undo@.len());
    reveal_with_fuel(first_failure, 3);
    reveal_with_fuel(performed, 3);
    let made = calls_made(steps, did);
    let resumed = did(Position::Step(1));
    if resumed is Ok {
        assert(resumed->Ok_0 == ());
        assert(resumed == Ok::<(), E>(()));
    }
    if did(Position::Step(0)) is Err {
        assert(made =~= seq![load_call(name, table)]);
    } else {
        assert(made =~= seq![load_call(name, table), resume_call(name)]);
    }
}

/// The call that gives a device another name.
pub open spec fn rename_call(old_name: Seq<char>, new_name: Seq<char>) -> InvocationView {
    dmsetup(seq!["rename"@, old_name, new_name], "dmsetup rename "@ + old_name)
}

/// Gives a device another name.
pub fn rename(old_name: &str, new_name: &str) -> (r: Invocation)
    ensures
        r@ == rename_call(old_name@, new_name@),
{
    let label = "dmsetup rename ".to_owned().concat(old_name);
    call("rename", label.as_str()).arg(old_name).arg(new_name)
}

/// The call that sends a message to a device.
pub open spec fn message_call(name: Seq<char>, msg: Seq<char>) -> InvocationView {
    dmsetup(seq!["message"@, name, "0"@, msg], "dmsetup message "@ + name + " "@ + msg)
}

/// Sends a message to a device. What the device answers is on the standard
/// output.
pub fn message(name: &str, msg: &str) -> (r: Invocation)
    ensures
        r@ == message_call(name@, msg@),
{
    let label = "dmsetup message ".to_owned().concat(name).concat(" ").concat(msg);
    call("message", label.as_str()).arg(name).arg("0").arg(msg)
}

/// Sends a message to a target that answers it. The answer is what the call
/// prints.
pub fn message_response(name: &str, msg: &str) -> (r: Invocation)
    ensures
        r@ == message_call(name@, msg@),
{
    message(name, msg)
}

/// Asks for the status line of a device.
pub fn status(name: &str) -> (r: Invocation)
    ensures
        r@ == dmsetup(seq!["status"@, name@], "dmsetup status "@ + name@),
{
    let label = "dmsetup status ".to_owned().concat(name);
    call("status", label.as_str()).arg(name)
}

/// Asks for the list of devices, for [`list_with_prefix`] to read.
pub fn list_devices() -> (r: Invocation)
    ensures
        r@ == dmsetup(seq!["ls"@], "dmsetup ls"@),
{
    call("ls", "dmsetup ls")
}

/// The first words of the lines that start with `prefix`.
pub open spec fn first_words(l: Seq<Seq<char>>, prefix: Seq<char>) -> Seq<Seq<char>>
    decreases l.len(),
{
    if l.len() == 0 {
        seq![]
    } else {
        let w = words(l.last());
        let before = first_words(l.drop_last(), prefix);
        if w.len() > 0 && has_prefix(w[0], prefix) {
            before.push(w[0])
        } else {
            before
        }
    }
}

/// The devices of a listing whose names start with `prefix`.
pub fn list_with_prefix(listing: &str, prefix: &str) -> (r: Vec<String>)
    ensures
        texts(r@) == first_words(lines_of(listing@), prefix@),
{
    let l = lines(listing);
    let ghost all = lines_of(listing@);
    let mut r: Vec<String> = Vec::new();
    let mut i: usize = 0;
    assert(texts(r@) =~= seq![]);
    while i < l.len()
        invariant
            i <= l.len(),
            texts(l@) == all,
            texts(r@) == first_words(all.take(i as int), prefix@),
        decreases l.len() - i,
    {
        assert(all.take(i + 1).drop_last() =~= all.take(i as int));
        assert(texts(l@)[i as int] == l@[i as int]@);
        let w = split_words(l[i].as_str());
        if w.len() > 0 {
            assert(texts(w@)[0] == w@[0]@);
            if starts_with(w[0].as_str(), prefix) {
                let name = w[0].clone();
                proof {
                    lemma_texts_push(r@, name);
                }
                r.push(name);
            }
        }
        i = i + 1;
    }
    assert(all.take(i as int) =~= all);
    r
}

/// Whether the first word of a line is `target`.
pub open spec fn names_target(line: Seq<char>, target: Seq<char>) -> bool {
    words(line).len() > 0 && words(line)[0] == target
}

/// Whether a line of a listing names `target`.
pub open spec fn provides(listing: Seq<char>, target: Seq<char>) -> bool {
    exists|i: int|
        0 <= i < lines_of(listing).len() && names_target(#[trigger] lines_of(listing)[i], target)
}

/// Whether a listing of targets holds `target`: as a whole name, not as a part
/// of one.
pub fn has_target(listing: &str, target: &str) -> (r: bool)
    ensures
        r == provides(listing@, target@),
{
    let l = lines(listing);
    let ghost all = lines_of(listing@);
    let mut i: usize = 0;
    while i < l.len()
        invariant
            i <= l.len(),
            texts(l@) == all,
            all == lines_of(listing@),
            forall|j: int| 0 <= j < i ==> !names_target(#[trigger] all[j], target@),
        decreases l.len() - i,
    {
        assert(all[i as int] == l@[i as int]@);
        let w = split_words(l[i].as_str());
        if w.len() > 0 {
            assert(texts(w@)[0] == w@[0]@);
            if same(w[0].as_str(), target) {
                assert(names_target(all[i as int], target@));
                return true;
            }
        }
        i = i + 1;
    }
    false
}

/// The error for a target that the kernel lacks.
pub open spec fn missing_target(
    module: Seq<char>,
    target: Seq<char>,
    config_hint: Seq<char>,
) -> ErrorView {
    ErrorView::Command {
        command: "dmsetup targets"@,
        exit_code: 0,
        stderr: "kernel does not provide the '"@ + target
            + "' device-mapper target. Install or enable a kernel with "@ + config_hint
            + " and load it with 'modprobe "@ + module + "'."@,
    }
}

/// Refuses to go on when a listing of targets lacks one.
pub fn ensure_target(listing: &str, module: &str, target: &str, config_hint: &str) -> (r: Result<
    (),
    Error,
>)
    ensures
        outcome(r) == (if provides(listing@, target@) {
            Ok::<(), ErrorView>(())
        } else {
            Err(missing_target(module@, target@, config_hint@))
        }),
{
    if has_target(listing, target) {
        return Ok(());
    }
    Err(
        Error::Command {
            command: "dmsetup targets".to_owned(),
            exit_code: 0,
            stderr: "kernel does not provide the '".to_owned().concat(target).concat(
                "' device-mapper target. Install or enable a kernel with ",
            ).concat(config_hint).concat(" and load it with 'modprobe ").concat(module).concat(
                "'.",
            ),
        },
    )
}

/// Whether an error is a failed command that wrote `text`.
pub open spec fn wrote(e: ErrorView, text: Seq<char>) -> bool {
    e matches ErrorView::Command { stderr, .. } && occurs(stderr, text)
}

fn command_wrote(err: &Error, text: &str) -> (r: bool)
    ensures
        r == wrote(err@, text@),
{
    match err {
        Error::Command { stderr, .. } => contains(stderr.as_str(), text),
        _ => false,
    }
}

/// Whether an error says that something is there already.
pub fn is_already_exists(err: &Error) -> (r: bool)
    ensures
        r == wrote(err@, "File exists"@),
{
    command_wrote(err, "File exists")
}

/// Whether an error says that something is in use.
pub fn is_busy(err: &Error) -> (r: bool)
    ensures
        r == wrote(err@, "Device or resource busy"@),
{
    command_wrote(err, "Device or resource busy")
}

/// Whether an error says that an argument was refused.
pub fn is_invalid_argument(err: &Error) -> (r: bool)
    ensures
        r == wrote(err@, "Invalid argument"@),
{
    command_wrote(err, "Invalid argument")
}

/// The devices of a listing with a prefix are those that a line begins with, and whose
/// names begin with the prefix; all of them, in the order of the lines.
pub proof fn law_devices_with_a_prefix(l: Seq<Seq<char>>, prefix: Seq<char>)
    ensures
        forall|i: int|
            0 <= i < first_words(l, prefix).len() ==> has_prefix(
                #[trigger] first_words(l, prefix)[i],
                prefix,
            ) && exists|k: int|
                0 <= k < l.len() && names_target(#[trigger] l[k], first_words(l, prefix)[i]),
        forall|k: int|
            0 <= k < l.len() && words(#[trigger] l[k]).len() > 0 && has_prefix(
                words(l[k])[0],
                prefix,
            ) ==> first_words(l, prefix).contains(words(l[k])[0]),
    decreases l.len(),
{
    if l.len() > 0 {
        let before = l.drop_last();
        law_devices_with_a_prefix(before, prefix);
        let f = first_words(before, prefix);
        let all = first_words(l, prefix);
        assert forall|i: int| 0 <= i < all.len() implies has_prefix(#[trigger] all[i], prefix)
            && exists|k: int| 0 <= k < l.len() && names_target(#[trigger] l[k], all[i]) by {
            if i < f.len() {
                assert(all[i] == f[i]);
                let k = choose|k: int|
                    0 <= k < before.len() && names_target(#[trigger] before[k], f[i]);
                assert(names_target(l[k], all[i]));
            } else {
                assert(names_target(l[l.len() - 1], all[i]));
            }
        }
        assert forall|k: int|
            0 <= k < l.len() && words(#[trigger] l[k]).len() > 0 && has_prefix(
                words(l[k])[0],
                prefix,
            ) implies all.contains(words(l[k])[0]) by {
            if k < before.len() {
                assert(before[k] == l[k]);
                assert(f.contains(words(l[k])[0]));
                let j = choose|j: int| 0 <= j < f.len() && f[j] == words(l[k])[0];
                assert(all[j] == f[j]);
            } else {
                assert(all[f.len() as int] == words(l[k])[0]);
            }
        }
    }
}

} // verus!
