//! How disks are mounted and unmounted, and how files become devices.

use vstd::prelude::*;
use vstd::string::*;

use crate::command::{Invocation, InvocationView};
use crate::linux_image::umount;
use crate::procedure::{
    may, must, must_or, no_steps, plan, then_may, then_must, then_must_or, Step, StepView,
};

verus! {

/// Something to do to mount a disk or to unmount it.
#[derive(Debug, PartialEq)]
pub enum MountAction {
    /// Wait until a device is there.
    WaitFor(String),
    /// Make an empty directory to mount the disk at.
    MakeMountPoint,
    /// Mount the device at the directory.
    Mount(String),
    /// Remove the directory that was made.
    RemoveMountPoint,
    /// Run a program.
    Run(Invocation),
    /// Remove a directory.
    RemoveDir(String),
}

/// A [`MountAction`], its strings taken by their texts.
#[verifier::ext_equal]
pub enum MountView {
    WaitFor(Seq<char>),
    MakeMountPoint,
    Mount(Seq<char>),
    RemoveMountPoint,
    Run(InvocationView),
    RemoveDir(Seq<char>),
}

impl View for MountAction {
    type V = MountView;

    open spec fn view(&self) -> MountView {
        match *self {
            MountAction::WaitFor(p) => MountView::WaitFor(p@),
            MountAction::MakeMountPoint => MountView::MakeMountPoint,
            MountAction::Mount(p) => MountView::Mount(p@),
            MountAction::RemoveMountPoint => MountView::RemoveMountPoint,
            MountAction::Run(i) => MountView::Run(i@),
            MountAction::RemoveDir(p) => MountView::RemoveDir(p@),
        }
    }
}

/// How a disk is mounted at a directory of its own, which goes again if that
/// fails.
pub open spec fn mounting(path: Seq<char>) -> Seq<StepView<MountView>> {
    seq![
        must(MountView::MakeMountPoint),
        must_or(MountView::Mount(path), seq![MountView::RemoveMountPoint]),
    ]
}

/// How a disk is mounted. It is waited for where that is asked.
pub open spec fn mount_plan(path: Seq<char>, wait: bool) -> Seq<StepView<MountView>> {
    (if wait {
        seq![must(MountView::WaitFor(path))]
    } else {
        seq![]
    }) + mounting(path)
}

/// How a disk is mounted. It is waited for where that is asked.
pub fn mount(path: &str, wait: bool) -> (r: Vec<Step<MountAction>>)
    ensures
        plan(r@) == mount_plan(path@, wait),
{
    let mut steps = no_steps();
    if wait {
        steps = then_must(steps, MountAction::WaitFor(path.to_owned()));
    }
    let steps = then_must(steps, MountAction::MakeMountPoint);
    let steps = then_must_or(
        steps,
        MountAction::Mount(path.to_owned()),
        MountAction::RemoveMountPoint,
    );
    assert(plan(steps@) =~= (if wait {
        seq![must(MountView::WaitFor(path@))]
    } else {
        seq![]
    }) + mounting(path@));
    steps
}

/// The call that mounts a device at a directory.
pub open spec fn mounts(path: Seq<char>, mount_dir: Seq<char>) -> InvocationView {
    InvocationView {
        program: "mount"@,
        args: seq![path, mount_dir],
        label: "mount"@,
        start_label: "mount"@,
    }
}

/// The call that mounts a device at a directory.
pub fn mount_call(path: &str, mount_dir: &str) -> (r: Invocation)
    ensures
        r@ == mounts(path@, mount_dir@),
{
    Invocation::new("mount", "mount").arg(path).arg(mount_dir)
}

/// How a disk is unmounted. The directory need not go.
pub open spec fn unmount_plan(mount_point: Seq<char>) -> Seq<StepView<MountView>> {
    seq![
        must(
            MountView::Run(
                InvocationView {
                    program: "umount"@,
                    args: seq![mount_point],
                    label: "umount"@,
                    start_label: "umount"@,
                },
            ),
        ),
        may(MountView::RemoveDir(mount_point)),
    ]
}

/// How a disk is unmounted. The directory need not go.
pub fn unmount(mount_point: &str) -> (r: Vec<Step<MountAction>>)
    ensures
        plan(r@) == unmount_plan(mount_point@),
{
    let steps = then_must(no_steps(), MountAction::Run(umount(mount_point)));
    then_may(steps, MountAction::RemoveDir(mount_point.to_owned()))
}

/// Where a file or a device can be used as a device.
#[derive(Debug, PartialEq)]
pub enum BlockDevice {
    /// At this path.
    Ready(String),
    /// At the loop device that this file is still to be attached to.
    Attach(String),
}

/// Where a path can be used as a device: a file by the loop device that it is
/// attached to, anything else as it is.
pub fn ensure_loop_or_block(path: &str, is_file: bool, attached: Option<&str>) -> (r: BlockDevice)
    ensures
        match r {
            BlockDevice::Ready(p) => if is_file {
                attached is Some && p@ == attached->0@
            } else {
                p@ == path@
            },
            BlockDevice::Attach(p) => is_file && attached is None && p@ == path@,
        },
{
    if !is_file {
        return BlockDevice::Ready(path.to_owned());
    }
    match attached {
        Some(device) => BlockDevice::Ready(device.to_owned()),
        None => BlockDevice::Attach(path.to_owned()),
    }
}

/// Whether a disk shows, the directory that it is to be mounted at, and what is mounted
/// there.
pub struct Tree {
    pub shows: bool,
    pub dir: Option<Seq<char>>,
    pub holds: Option<Seq<char>>,
}

/// What an action makes of it, where `made` is the directory that is made and a disk shows
/// once it was waited for; `None` where it cannot be done. A directory goes only when
/// nothing is mounted there.
pub open spec fn effect(w: Tree, made: Seq<char>, a: MountView) -> Option<Tree> {
    match a {
        MountView::WaitFor(_) => Some(Tree { shows: true, ..w }),
        MountView::MakeMountPoint => if w.dir is None {
            Some(Tree { dir: Some(made), ..w })
        } else {
            None
        },
        MountView::Mount(p) => if w.shows && w.dir is Some && w.holds is None {
            Some(Tree { holds: Some(p), ..w })
        } else {
            None
        },
        MountView::RemoveMountPoint => if w.dir is Some && w.holds is None {
            Some(Tree { dir: None, ..w })
        } else {
            None
        },
        MountView::Run(call) => if call.program == "umount"@ && w.dir is Some && call.args
            == seq![w.dir->0] && w.holds is Some {
            Some(Tree { holds: None, ..w })
        } else {
            None
        },
        MountView::RemoveDir(d) => if w.dir == Some(d) && w.holds is None {
            Some(Tree { dir: None, ..w })
        } else {
            None
        },
    }
}

/// A disk that is mounted is at the directory that was made for it, and was waited for
/// where that was asked. When it cannot be mounted, the directory is gone again. A disk
/// that is unmounted is not there, and neither is the directory; it is unmounted before
/// the directory goes, which may fail.
pub proof fn law_mounting_and_unmounting(path: Seq<char>, made: Seq<char>, wait: bool, w: Tree)
    requires
        w.dir is None,
        w.holds is None,
        wait || w.shows,
    ensures
        ({
            let p = mount_plan(path, wait);
            let k = p.len() - 2;
            let shown = if wait {
                effect(w, made, p[0].action)
            } else {
                Some(w)
            };
            let there = effect(shown->0, made, p[k].action);
            let done = effect(there->0, made, p[k + 1].action);
            let u = unmount_plan(made);
            let off = effect(done->0, made, u[0].action);
            let gone = effect(off->0, made, u[1].action);
            &&& p.len() == (if wait {
                3int
            } else {
                2int
            })
            &&& shown is Some && there is Some && done is Some
            &&& done->0 == (Tree { shows: true, dir: Some(made), holds: Some(path) })
            &&& !p[k].tolerate && !p[k + 1].tolerate
            &&& p[k + 1].undo.len() == 1
            &&& effect(there->0, made, p[k + 1].undo[0]) == shown
            &&& u.len() == 2 && !u[0].tolerate && u[1].tolerate
            &&& off is Some && gone is Some
            &&& gone->0.dir is None && gone->0.holds is None
        }),
{
}

/// A disk is mounted by a call that names it before the directory.
pub proof fn law_a_call_mounts_the_disk(path: Seq<char>, dir: Seq<char>)
    ensures
        mounts(path, dir).program == "mount"@,
        mounts(path, dir).args.len() == 2,
        mounts(path, dir).args[0] == path,
        mounts(path, dir).args.last() == dir,
{
}

} // verus!
