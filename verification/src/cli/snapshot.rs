//! Snapshots of machines.

use vstd::prelude::*;
use vstd::string::*;

use super::fmt::{bytes_text, format_bytes_binary, left, left_in, right, right_in};
use super::vm::{OutputFormat, Refusal, RefusalView};
use crate::backend::SnapshotInfo;
use crate::calendar::{epoch_text, format_epoch};
use crate::command::{nothing, with};
use crate::procedure::{must, no_steps, plan, then_must, Step, StepView};
use crate::text::{same, texts};
use crate::vm::{not_stopped, require_stopped, VmMetadata};

verus! {

#[derive(Debug)]
pub struct CreateArgs {
    pub vm_name: String,
    pub snapshot_name: String,
}

#[derive(Debug)]
pub struct RestoreArgs {
    pub vm_name: String,
    pub snapshot_name: String,
}

#[derive(Debug)]
pub struct ListArgs {
    pub vm_name: String,
    pub format: OutputFormat,
}

#[derive(Debug)]
pub struct DeleteArgs {
    pub vm_name: String,
    pub snapshot_name: String,
}

/// A command about snapshots.
#[derive(Debug)]
pub enum SnapshotCommand {
    Create(CreateArgs),
    Restore(RestoreArgs),
    List(ListArgs),
    Delete(DeleteArgs),
}

/// Whether a snapshot of this name is there.
pub open spec fn has_snapshot(list: Seq<SnapshotInfo>, name: Seq<char>) -> bool {
    exists|i: int| 0 <= i < list.len() && (#[trigger] list[i]).name@ == name
}

fn find(list: &Vec<SnapshotInfo>, name: &str) -> (r: bool)
    ensures
        r == has_snapshot(list@, name@),
{
    let mut i: usize = 0;
    while i < list.len()
        invariant
            i <= list.len(),
            forall|k: int| 0 <= k < i ==> (#[trigger] list@[k]).name@ != name@,
        decreases list.len() - i,
    {
        if same(list[i].name.as_str(), name) {
            assert(list@[i as int].name@ == name@);
            return true;
        }
        i = i + 1;
    }
    false
}

/// Something to do about a snapshot of a machine.
#[derive(Debug, PartialEq)]
pub enum SnapshotAction {
    /// Take a snapshot of this name.
    Take(String),
    /// Put the machine back to it.
    PutBack(String),
    /// Delete it.
    Remove(String),
    /// Tell the user.
    Say(String),
}

/// A [`SnapshotAction`], its strings taken by their texts.
#[verifier::ext_equal]
pub enum SnapshotView {
    Take(Seq<char>),
    PutBack(Seq<char>),
    Remove(Seq<char>),
    Say(Seq<char>),
}

impl View for SnapshotAction {
    type V = SnapshotView;

    open spec fn view(&self) -> SnapshotView {
        match self {
            SnapshotAction::Take(n) => SnapshotView::Take(n@),
            SnapshotAction::PutBack(n) => SnapshotView::PutBack(n@),
            SnapshotAction::Remove(n) => SnapshotView::Remove(n@),
            SnapshotAction::Say(t) => SnapshotView::Say(t@),
        }
    }
}

/// How a snapshot is taken, or the refusal to: the name has to be allowed, what
/// snapshots there are has to be known, and the name has to be free, in this order.
pub open spec fn creating(
    vm: Seq<char>,
    name: Seq<char>,
    there: Result<Vec<SnapshotInfo>, String>,
) -> Result<Seq<StepView<SnapshotView>>, Seq<char>> {
    if name == "base"@ {
        Err("snapshot name 'base' is reserved for image cloning"@)
    } else {
        match there {
            Err(e) => Err(e@),
            Ok(list) => if has_snapshot(list@, name) {
                Err("snapshot '"@ + name + "' already exists on vm '"@ + vm + "'"@)
            } else {
                Ok(
                    seq![
                        must(SnapshotView::Take(name)),
                        must(
                            SnapshotView::Say(
                                "Created snapshot '"@ + name + "' of vm '"@ + vm + "'"@,
                            ),
                        ),
                    ],
                )
            },
        }
    }
}

/// How a snapshot is taken, or the refusal to. `there` are the snapshots of the
/// machine, or why they are not known.
pub fn create(args: &CreateArgs, there: &Result<Vec<SnapshotInfo>, String>) -> (r: Result<
    Vec<Step<SnapshotAction>>,
    String,
>)
    ensures
        match r {
            Ok(steps) => creating(args.vm_name@, args.snapshot_name@, *there) == Ok::<
                Seq<StepView<SnapshotView>>,
                Seq<char>,
            >(plan(steps@)),
            Err(e) => creating(args.vm_name@, args.snapshot_name@, *there) == Err::<
                Seq<StepView<SnapshotView>>,
                Seq<char>,
            >(e@),
        },
{
    let name = args.snapshot_name.as_str();
    if same(name, "base") {
        return Err("snapshot name 'base' is reserved for image cloning".to_owned());
    }
    match there {
        Err(e) => {
            return Err(e.clone());
        },
        Ok(list) => {
            if find(list, name) {
                return Err(
                    "snapshot '".to_owned().concat(name).concat("' already exists on vm '").concat(
                        args.vm_name.as_str(),
                    ).concat("'"),
                );
            }
        },
    }
    let steps = then_must(no_steps(), SnapshotAction::Take(args.snapshot_name.clone()));
    let steps = then_must(steps, SnapshotAction::Say(created_text(args)));
    assert(plan(steps@) =~= creating(args.vm_name@, args.snapshot_name@, *there)->Ok_0);
    Ok(steps)
}

/// The error for a snapshot that is not there.
pub open spec fn no_snapshot(vm: Seq<char>, name: Seq<char>) -> Seq<char> {
    "snapshot '"@ + name + "' does not exist on vm '"@ + vm
        + "'\nHint: list snapshots with: ember snapshot list "@ + vm
}

fn missing(vm: &str, name: &str) -> (r: String)
    ensures
        r@ == no_snapshot(vm@, name@),
{
    "snapshot '".to_owned().concat(name).concat("' does not exist on vm '").concat(vm).concat(
        "'\nHint: list snapshots with: ember snapshot list ",
    ).concat(vm)
}

/// How a snapshot is deleted, or the refusal to: the name has to be allowed, what
/// snapshots there are has to be known, and it has to be one of them, in this order.
pub open spec fn deleting(
    vm: Seq<char>,
    name: Seq<char>,
    there: Result<Vec<SnapshotInfo>, String>,
) -> Result<Seq<StepView<SnapshotView>>, Seq<char>> {
    if name == "base"@ {
        Err("snapshot 'base' is reserved for image cloning and cannot be deleted"@)
    } else {
        match there {
            Err(e) => Err(e@),
            Ok(list) => if !has_snapshot(list@, name) {
                Err(no_snapshot(vm, name))
            } else {
                Ok(
                    seq![
                        must(SnapshotView::Remove(name)),
                        must(
                            SnapshotView::Say(
                                "Deleted snapshot '"@ + name + "' from vm '"@ + vm + "'"@,
                            ),
                        ),
                    ],
                )
            },
        }
    }
}

/// How a snapshot is deleted, or the refusal to. `there` are the snapshots of the
/// machine, or why they are not known.
pub fn delete(args: &DeleteArgs, there: &Result<Vec<SnapshotInfo>, String>) -> (r: Result<
    Vec<Step<SnapshotAction>>,
    String,
>)
    ensures
        match r {
            Ok(steps) => deleting(args.vm_name@, args.snapshot_name@, *there) == Ok::<
                Seq<StepView<SnapshotView>>,
                Seq<char>,
            >(plan(steps@)),
            Err(e) => deleting(args.vm_name@, args.snapshot_name@, *there) == Err::<
                Seq<StepView<SnapshotView>>,
                Seq<char>,
            >(e@),
        },
{
    let name = args.snapshot_name.as_str();
    if same(name, "base") {
        return Err(
            "snapshot 'base' is reserved for image cloning and cannot be deleted".to_owned(),
        );
    }
    match there {
        Err(e) => {
            return Err(e.clone());
        },
        Ok(list) => {
            if !find(list, name) {
                return Err(missing(args.vm_name.as_str(), name));
            }
        },
    }
    let steps = then_must(no_steps(), SnapshotAction::Remove(args.snapshot_name.clone()));
    let steps = then_must(steps, SnapshotAction::Say(deleted_text(args)));
    assert(plan(steps@) =~= deleting(args.vm_name@, args.snapshot_name@, *there)->Ok_0);
    Ok(steps)
}

/// How a machine is put back to a snapshot, or the refusal to: it has to stand
/// still, what snapshots there are has to be known, and it has to be one of them,
/// in this order.
pub open spec fn restoring(
    args: RestoreArgs,
    m: VmMetadata,
    there: Result<Vec<SnapshotInfo>, String>,
) -> Result<Seq<StepView<SnapshotView>>, RefusalView> {
    let vm = args.vm_name@;
    let name = args.snapshot_name@;
    if m.status.spec_is_active() {
        Err(RefusalView::NotStopped(not_stopped(m, "restoring a snapshot"@)))
    } else {
        match there {
            Err(e) => Err(RefusalView::Words(e@)),
            Ok(list) => if !has_snapshot(list@, name) {
                Err(RefusalView::Words(no_snapshot(vm, name)))
            } else {
                Ok(
                    seq![
                        must(SnapshotView::PutBack(name)),
                        must(
                            SnapshotView::Say(
                                "Restored vm '"@ + vm + "' to snapshot '"@ + name + "'"@,
                            ),
                        ),
                    ],
                )
            },
        }
    }
}

/// How a machine is put back to a snapshot, or the refusal to. `there` are its
/// snapshots, or why they are not known.
pub fn restore(
    args: &RestoreArgs,
    m: &VmMetadata,
    there: &Result<Vec<SnapshotInfo>, String>,
) -> (r: Result<Vec<Step<SnapshotAction>>, Refusal>)
    ensures
        match r {
            Ok(steps) => restoring(*args, *m, *there) == Ok::<
                Seq<StepView<SnapshotView>>,
                RefusalView,
            >(plan(steps@)),
            Err(e) => restoring(*args, *m, *there) == Err::<
                Seq<StepView<SnapshotView>>,
                RefusalView,
            >(e@),
        },
{
    match require_stopped(m, "restoring a snapshot") {
        Ok(()) => {},
        Err(e) => {
            return Err(Refusal::NotStopped(e));
        },
    }
    let name = args.snapshot_name.as_str();
    match there {
        Err(e) => {
            return Err(Refusal::Words(e.clone()));
        },
        Ok(list) => {
            if !find(list, name) {
                return Err(Refusal::Words(missing(args.vm_name.as_str(), name)));
            }
        },
    }
    let steps = then_must(no_steps(), SnapshotAction::PutBack(args.snapshot_name.clone()));
    let steps = then_must(steps, SnapshotAction::Say(restored_text(args)));
    assert(plan(steps@) =~= restoring(*args, *m, *there)->Ok_0);
    Ok(steps)
}

/// What the user is told of a snapshot that was taken.
fn created_text(args: &CreateArgs) -> (r: String)
    ensures
        r@ == "Created snapshot '"@ + args.snapshot_name@ + "' of vm '"@ + args.vm_name@ + "'"@,
{
    "Created snapshot '".to_owned().concat(args.snapshot_name.as_str()).concat(
        "' of vm '",
    ).concat(args.vm_name.as_str()).concat("'")
}

/// What the user is told of a snapshot that was deleted.
fn deleted_text(args: &DeleteArgs) -> (r: String)
    ensures
        r@ == "Deleted snapshot '"@ + args.snapshot_name@ + "' from vm '"@ + args.vm_name@ + "'"@,
{
    "Deleted snapshot '".to_owned().concat(args.snapshot_name.as_str()).concat(
        "' from vm '",
    ).concat(args.vm_name.as_str()).concat("'")
}

/// What the user is told of a machine that was put back to a snapshot.
fn restored_text(args: &RestoreArgs) -> (r: String)
    ensures
        r@ == "Restored vm '"@ + args.vm_name@ + "' to snapshot '"@ + args.snapshot_name@ + "'"@,
{
    "Restored vm '".to_owned().concat(args.vm_name.as_str()).concat("' to snapshot '").concat(
        args.snapshot_name.as_str(),
    ).concat("'")
}

/// A line of the table of snapshots.
pub open spec fn line_of(name: Seq<char>, created: Seq<char>, size: Seq<char>) -> Seq<char> {
    left_in(name, 30) + " "@ + left_in(created, 24) + " "@ + right_in(size, 10)
}

fn line(name: &str, created: &str, size: &str) -> (r: String)
    ensures
        r@ == line_of(name@, created@, size@),
{
    let b = left(created, 24);
    let c = right(size, 10);
    left(name, 30).concat(" ").concat(b.as_str()).concat(" ").concat(c.as_str())
}

/// The lines of the first `n` snapshots.
pub open spec fn snapshot_lines(list: Seq<SnapshotInfo>, n: int) -> Seq<Seq<char>>
    decreases n,
{
    if n <= 0 {
        seq![]
    } else {
        let s = list[n - 1];
        snapshot_lines(list, n - 1).push(
            line_of(s.name@, epoch_text(s.created_at), bytes_text(s.size)),
        )
    }
}

/// The lines of the table of snapshots.
pub fn list(vm_name: &str, all: &Vec<SnapshotInfo>) -> (r: Vec<String>)
    ensures
        texts(r@) == (if all@.len() == 0 {
            seq![
                "No snapshots for vm '"@ + vm_name@ + "'. Create one with: ember snapshot create "@
                    + vm_name@ + " <name>"@,
            ]
        } else {
            seq![line_of("NAME"@, "CREATED"@, "SIZE"@)] + snapshot_lines(
                all@,
                all@.len() as int,
            )
        }),
{
    if all.len() == 0 {
        let t = "No snapshots for vm '".to_owned().concat(vm_name).concat(
            "'. Create one with: ember snapshot create ",
        ).concat(vm_name).concat(" <name>");
        return with(nothing(), t.as_str());
    }
    let head = line("NAME", "CREATED", "SIZE");
    let mut r = with(nothing(), head.as_str());
    let ghost first = seq![line_of("NAME"@, "CREATED"@, "SIZE"@)];
    let mut i: usize = 0;
    assert(texts(r@) =~= first + snapshot_lines(all@, 0));
    while i < all.len()
        invariant
            i <= all.len(),
            texts(r@) == first + snapshot_lines(all@, i as int),
        decreases all.len() - i,
    {
        let when = format_epoch(all[i].created_at);
        let size = format_bytes_binary(all[i].size);
        let t = line(all[i].name.as_str(), when.as_str(), size.as_str());
        r = with(r, t.as_str());
        assert(texts(r@) =~= first + snapshot_lines(all@, i + 1));
        i = i + 1;
    }
    r
}

/// The snapshot that machines are cloned from is neither made nor deleted.
pub proof fn law_base_is_reserved(vm: Seq<char>, there: Result<Vec<SnapshotInfo>, String>)
    ensures
        creating(vm, "base"@, there) is Err,
        deleting(vm, "base"@, there) is Err,
{
}

/// A name that is free for a snapshot is that of none that can be deleted; and where
/// the snapshots are known, every name but that of the base is one or the other.
pub proof fn law_created_or_deleted(
    vm: Seq<char>,
    name: Seq<char>,
    there: Result<Vec<SnapshotInfo>, String>,
)
    ensures
        !(creating(vm, name, there) is Ok && deleting(vm, name, there) is Ok),
        there is Ok && name != "base"@ ==> creating(vm, name, there) is Ok || deleting(
            vm,
            name,
            there,
        ) is Ok,
{
}

/// What a machine holds, what it held when its snapshots were taken, and whether the
/// user was told how it went.
pub struct Kept {
    pub holds: Seq<u8>,
    pub snapshots: Map<Seq<char>, Seq<u8>>,
    pub told: bool,
}

/// What an action makes of it; `None` where it cannot be done.
pub open spec fn effect(k: Kept, a: SnapshotView) -> Option<Kept> {
    match a {
        SnapshotView::Take(n) => if k.snapshots.contains_key(n) {
            None
        } else {
            Some(Kept { snapshots: k.snapshots.insert(n, k.holds), ..k })
        },
        SnapshotView::PutBack(n) => if k.snapshots.contains_key(n) {
            Some(Kept { holds: k.snapshots[n], ..k })
        } else {
            None
        },
        SnapshotView::Remove(n) => if k.snapshots.contains_key(n) {
            Some(Kept { snapshots: k.snapshots.remove(n), ..k })
        } else {
            None
        },
        SnapshotView::Say(_) => Some(Kept { told: true, ..k }),
    }
}

/// What two steps come to, neither of which can be done without.
pub open spec fn both(k: Kept, p: Seq<StepView<SnapshotView>>) -> Option<Kept> {
    if p.len() == 2 && !p[0].tolerate && !p[1].tolerate && p[0].undo.len() == 0 {
        match effect(k, p[0].action) {
            Some(x) => effect(x, p[1].action),
            None => None,
        }
    } else {
        None
    }
}

/// Whether these are the snapshots of a machine.
pub open spec fn lists(there: Result<Vec<SnapshotInfo>, String>, k: Kept) -> bool {
    there matches Ok(list) && forall|n: Seq<char>|
        has_snapshot(list@, n) <==> #[trigger] k.snapshots.contains_key(n)
}

/// A snapshot that is taken holds what the machine holds, which goes on as it is. A
/// machine that is put back holds what it held then, and keeps all its snapshots. A
/// snapshot that is deleted is gone, and no other, and the machine goes on as it is. The
/// user is told each time. Each is refused where it could not be done.
pub proof fn law_snapshots_of_a_machine(
    args: RestoreArgs,
    m: VmMetadata,
    there: Result<Vec<SnapshotInfo>, String>,
    k: Kept,
)
    requires
        lists(there, k),
    ensures
        ({
            let vm = args.vm_name@;
            let name = args.snapshot_name@;
            &&& match creating(vm, name, there) {
                Ok(p) => both(k, p) == Some(
                    Kept {
                        snapshots: k.snapshots.insert(name, k.holds),
                        told: true,
                        ..k
                    },
                ) && !k.snapshots.contains_key(name),
                Err(_) => name == "base"@ || k.snapshots.contains_key(name),
            }
            &&& match restoring(args, m, there) {
                Ok(p) => both(k, p) == Some(
                    Kept { holds: k.snapshots[name], told: true, ..k },
                ) && k.snapshots.contains_key(name) && !m.status.spec_is_active(),
                Err(_) => m.status.spec_is_active() || !k.snapshots.contains_key(name),
            }
            &&& match deleting(vm, name, there) {
                Ok(p) => both(k, p) == Some(
                    Kept { snapshots: k.snapshots.remove(name), told: true, ..k },
                ) && k.snapshots.contains_key(name),
                Err(_) => name == "base"@ || !k.snapshots.contains_key(name),
            }
        }),
{
    let list = there->Ok_0;
    let name = args.snapshot_name@;
    assert(has_snapshot(list@, name) <==> k.snapshots.contains_key(name));
}

} // verus!
