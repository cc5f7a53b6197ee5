//! What the plans for machines come to.
//!
//! A plan says what is done; here stands what each of these things does to a
//! machine, and what a machine is like once a whole plan has been carried out.

use vstd::prelude::*;
use vstd::string::*;

use super::lifecycle::{
    deletion_plan, pause_plan, paused, rename_plan, resize_plan, resume_plan, resumed, start_plan,
    stop_kind, stop_plan, stopped,
};
use super::vm::{copy_plan, copy_sizes, create_plan, CopySizes, CpArgs, ResolvedVmCreate, VmView};
use crate::procedure::StepView;
use crate::store::vm_dir_of;
use crate::vm::{VmMetadata, VmStatus};

verus! {

// ---------------------------------------------------------------------
// Machines
// ---------------------------------------------------------------------

/// What the process of a machine is at.
pub enum Process {
    Absent,
    Running,
    Paused,
}

/// What there is of the record of a machine.
pub enum Record {
    Absent,
    /// It does not say what has become of the machine since.
    Stale,
    Current,
}

/// A machine, as far as plans have to do with it.
#[verifier::ext_equal]
pub struct World {
    /// The size of its disk in MiB, where there is one.
    pub disk_mib: Option<nat>,
    /// Whether it is known where its disk shows.
    pub open: bool,
    /// The key that lets one log in, by its place.
    pub key: Option<Seq<char>>,
    /// The name that it calls itself.
    pub hostname: Option<Seq<char>>,
    /// Whether it is known what kernel it boots, and whether one was looked for.
    pub kernel: bool,
    pub new_kernel: bool,
    /// Whether the machine that it was copied from keeps something for it.
    pub forked: bool,
    pub record: Record,
    /// The name that it and its disk go by, and the one of its disk before that.
    pub disk_name: Seq<char>,
    pub old_disk_name: Seq<char>,
    /// The directory of its record.
    pub dir: Seq<char>,
    /// Whether its copies know its name.
    pub known_to_copies: bool,
    pub network: bool,
    pub process: Process,
    pub socket: bool,
    /// Whether the platform was asked before it is paused or resumed.
    pub asked: bool,
    /// What the user was told, and what there was of the record then.
    pub told: Seq<(Seq<char>, Record)>,
}

/// What there is of a record once something has changed that it speaks of.
#[verifier::opaque]
pub open spec fn stale(r: Record) -> Record {
    match r {
        Record::Absent => Record::Absent,
        _ => Record::Stale,
    }
}

impl World {
    /// Whether nothing is there yet.
    pub open spec fn is_nothing(self) -> bool {
        &&& self.disk_mib is None
        &&& !self.open
        &&& self.key is None
        &&& self.hostname is None
        &&& !self.kernel
        &&& !self.new_kernel
        &&& !self.forked
        &&& self.record is Absent
        &&& self.stands_still()
    }

    /// Whether it neither runs nor has a network.
    pub open spec fn stands_still(self) -> bool {
        !self.network && self.process is Absent
    }

    /// Whether it is a machine as its record says.
    pub open spec fn is_whole(self) -> bool {
        self.disk_mib is Some && self.kernel && self.record is Current
    }
}

/// What one action makes of a machine; `None` where it cannot be done. `source_mib` is
/// the size of the disk that a new one is cloned from.
#[verifier::opaque]
pub open spec fn effect(w: World, a: VmView, source_mib: nat) -> Option<World> {
    match a {
        VmView::Say(t) => Some(World { told: w.told.push((t, w.record)), ..w }),
        VmView::Warn(_) => Some(w),
        VmView::CloneImage => if w.disk_mib is None {
            Some(World { disk_mib: Some(source_mib), record: stale(w.record), ..w })
        } else {
            None
        },
        VmView::CloneVm => if w.disk_mib is None {
            // A copy boots what its source boots, and keeps the keys in its disk.
            Some(World { disk_mib: Some(source_mib), forked: true, kernel: true, record: stale(w.record), ..w })
        } else {
            None
        },
        VmView::Resize(gib) => if w.disk_mib is Some && w.disk_mib->0 < gib * 1024 && !w.open
            && w.process is Absent {
            Some(World { disk_mib: Some((gib * 1024) as nat), record: stale(w.record), ..w })
        } else {
            None
        },
        VmView::OpenDisk => if w.disk_mib is Some {
            Some(World { open: true, ..w })
        } else {
            None
        },
        VmView::InjectKey(p) => if w.open {
            Some(World { key: Some(p), record: stale(w.record), ..w })
        } else {
            None
        },
        VmView::InjectHostname(n) => if w.open {
            Some(World { hostname: Some(n), record: stale(w.record), ..w })
        } else {
            None
        },
        VmView::EnsureKernel => Some(World { kernel: true, new_kernel: true, record: stale(w.record), ..w }),
        VmView::SaveRecord => if w.disk_mib is Some && w.kernel {
            Some(World { record: Record::Current, ..w })
        } else {
            None
        },
        VmView::DeleteRecord(n) => if n == w.disk_name && w.disk_mib is None && w.stands_still() {
            Some(World { record: Record::Absent, ..w })
        } else {
            None
        },
        VmView::DestroyStorage => if w.process is Absent {
            Some(World { disk_mib: None, open: false, record: stale(w.record), ..w })
        } else {
            None
        },
        VmView::Start(n) => if n == w.disk_name && w.is_whole() && w.stands_still() {
            Some(World { network: true, process: Process::Running, ..w })
        } else {
            None
        },
        VmView::CleanupFork => if w.disk_mib is None {
            Some(World { forked: false, record: stale(w.record), ..w })
        } else {
            None
        },
        VmView::SetupNetwork => if w.process is Absent {
            Some(World { network: true, record: stale(w.record), ..w })
        } else {
            None
        },
        VmView::TellAddresses => if w.network {
            Some(w)
        } else {
            None
        },
        VmView::TeardownNetwork => if w.process is Absent {
            Some(World { network: false, record: stale(w.record), ..w })
        } else {
            None
        },
        VmView::StartProcess => if w.network && w.disk_mib is Some && w.process is Absent {
            Some(World { process: Process::Running, socket: true, record: stale(w.record), ..w })
        } else {
            None
        },
        VmView::TellStarted(n) => if n == w.disk_name && w.process is Running && w.record is Current {
            Some(w)
        } else {
            None
        },
        VmView::ForceStop => Some(World { process: Process::Absent, record: stale(w.record), ..w }),
        VmView::Stop => if w.process is Absent {
            None
        } else {
            Some(World { process: Process::Absent, record: stale(w.record), ..w })
        },
        VmView::PrePauseCheck => Some(World { asked: true, ..w }),
        VmView::Pause => if w.process is Running && w.asked {
            Some(World { process: Process::Paused, record: stale(w.record), ..w })
        } else {
            None
        },
        VmView::Resume => if w.process is Paused && w.asked {
            Some(World { process: Process::Running, record: stale(w.record), ..w })
        } else {
            None
        },
        VmView::RenameStorage(n) => if w.process is Absent {
            Some(World { disk_name: n, old_disk_name: w.disk_name, record: stale(w.record), ..w })
        } else {
            None
        },
        VmView::RevertStorage => Some(World { disk_name: w.old_disk_name, ..w }),
        VmView::MoveDir(a, b) => if w.dir == a {
            Some(World { dir: b, known_to_copies: false, record: stale(w.record), ..w })
        } else {
            None
        },
        VmView::RenameParents => if w.record is Current {
            Some(World { known_to_copies: true, ..w })
        } else {
            None
        },
        VmView::RemoveSocket => if w.process is Absent {
            Some(World { socket: false, ..w })
        } else {
            None
        },
        VmView::PostDelete => Some(w),
        VmView::Refuse(_) => None,
    }
}

/// What actions make of a machine, one after the other; `None` where one of them
/// cannot be done.
pub open spec fn run(acts: Seq<VmView>, w: World, source_mib: nat) -> Option<World>
    decreases acts.len(),
{
    if acts.len() == 0 {
        Some(w)
    } else {
        match run(acts.drop_last(), w, source_mib) {
            Some(x) => effect(x, acts.last(), source_mib),
            None => None,
        }
    }
}

/// One more action.
proof fn next(acts: Seq<VmView>, a: VmView, w: World, source_mib: nat, x: World, y: World)
    requires
        run(acts, w, source_mib) == Some(x),
        effect(x, a, source_mib) == Some(y),
    ensures
        run(acts.push(a), w, source_mib) == Some(y),
{
    assert(acts.push(a).drop_last() =~= acts);
}

proof fn lemma_start(w: World, source_mib: nat)
    ensures
        run(Seq::empty(), w, source_mib) == Some(w),
{
}

/// What actions make of a machine where it does not matter whether each of them can be
/// done.
pub open spec fn run_anyway(acts: Seq<VmView>, w: World) -> World
    decreases acts.len(),
{
    if acts.len() == 0 {
        w
    } else {
        let x = run_anyway(acts.drop_last(), w);
        match effect(x, acts.last(), 0) {
            Some(y) => y,
            None => x,
        }
    }
}

proof fn lemma_anyway(acts: Seq<VmView>, a: VmView, w: World)
    ensures
        run_anyway(acts.push(a), w) == ({
            let x = run_anyway(acts, w);
            match effect(x, a, 0) {
                Some(y) => y,
                None => x,
            }
        }),
{
    assert(acts.push(a).drop_last() =~= acts);
}

/// The actions of a plan in which nothing fails.
pub open spec fn acts(p: Seq<StepView<VmView>>) -> Seq<VmView> {
    p.map_values(|s: StepView<VmView>| s.action)
}

// ---------------------------------------------------------------------
// Creating and copying
// ---------------------------------------------------------------------

/// A machine that is created has a disk as large as was asked for, or as large as the
/// image where that is larger, with the key and the name of the machine in it. It is
/// recorded when the user is told that it is there, and it runs in the end unless that
/// is not wanted.
pub proof fn law_creation_makes_a_machine(
    resolved: ResolvedVmCreate,
    image_size_mib: u64,
    pubkey: Seq<char>,
    w: World,
)
    requires
        w.is_nothing(),
        w.disk_name == resolved.name@,
    ensures
        ({
            let end = run(
                acts(create_plan(resolved, image_size_mib, Some(pubkey))),
                w,
                image_size_mib as nat,
            );
            &&& end is Some
            &&& end->0.disk_mib == Some(
                if resolved.disk_size * 1024 > image_size_mib {
                    (resolved.disk_size * 1024) as nat
                } else {
                    image_size_mib as nat
                },
            )
            &&& end->0.key == Some(pubkey)
            &&& end->0.hostname == Some(resolved.name@)
            &&& end->0.is_whole()
            &&& end->0.new_kernel
            &&& !end->0.forked
            &&& end->0.told.len() > w.told.len()
            &&& end->0.told.last() == (
                "VM '"@ + resolved.name@ + "' created successfully."@,
                Record::Current,
            )
            &&& end->0.process is Running <==> !resolved.no_start
            &&& end->0.network <==> !resolved.no_start
        }),
{
    let name = resolved.name@;
    let n = image_size_mib as nat;
    let all = acts(create_plan(resolved, image_size_mib, Some(pubkey)));
    let grown = resolved.disk_size * 1024 > image_size_mib;
    let t0 = Seq::<VmView>::empty();
    lemma_start(w, n);
    let a1 = VmView::Say("Cloning image for VM '"@ + name + "'..."@);
    let x1 = World { told: w.told.push(("Cloning image for VM '"@ + name + "'..."@, w.record)), ..w };
    assert(effect(w, a1, n) == Some(x1)) by {
        reveal(effect);
    }
    next(t0, a1, w, n, w, x1);
    let t1 = t0.push(a1);
    let a2 = VmView::CloneImage;
    let x2 = World { disk_mib: Some(n), record: stale(x1.record), ..x1 };
    assert(effect(x1, a2, n) == Some(x2)) by {
        reveal(effect);
    }
    next(t1, a2, w, n, x1, x2);
    let t2 = t1.push(a2);
    let a3 = VmView::Say(all[2]->Say_0);
    let x3 = if grown {
        World { told: x2.told.push((all[2]->Say_0, x2.record)), ..x2 }
    } else {
        x2
    };
    if grown {
        assert(effect(x2, a3, n) == Some(x3)) by {
            reveal(effect);
        }
        next(t2, a3, w, n, x2, x3);
    }
    let t3 = if grown {
        t2.push(a3)
    } else {
        t2
    };
    let a4 = VmView::Resize(resolved.disk_size);
    let x4 = if grown {
        World { disk_mib: Some((resolved.disk_size * 1024) as nat), record: stale(x3.record), ..x3 }
    } else {
        x3
    };
    if grown {
        assert(effect(x3, a4, n) == Some(x4)) by {
            reveal(effect);
        }
        next(t3, a4, w, n, x3, x4);
    }
    let t4 = if grown {
        t3.push(a4)
    } else {
        t3
    };
    assert(x4.stands_still() && x4.disk_mib is Some);
    let a5 = VmView::OpenDisk;
    let x5 = World { open: true, ..x4 };
    assert(effect(x4, a5, n) == Some(x5)) by {
        reveal(effect);
    }
    next(t4, a5, w, n, x4, x5);
    let t5 = t4.push(a5);
    let a6 = VmView::Say("Injecting SSH key from "@ + pubkey + "..."@);
    let x6 = World { told: x5.told.push(("Injecting SSH key from "@ + pubkey + "..."@, x5.record)), ..x5 };
    assert(effect(x5, a6, n) == Some(x6)) by {
        reveal(effect);
    }
    next(t5, a6, w, n, x5, x6);
    let t6 = t5.push(a6);
    let a7 = VmView::InjectKey(pubkey);
    let x7 = World { key: Some(pubkey), record: stale(x6.record), ..x6 };
    assert(effect(x6, a7, n) == Some(x7)) by {
        reveal(effect);
    }
    next(t6, a7, w, n, x6, x7);
    let t7 = t6.push(a7);
    let a8 = VmView::InjectHostname(name);
    let x8 = World { hostname: Some(name), record: stale(x7.record), ..x7 };
    assert(effect(x7, a8, n) == Some(x8)) by {
        reveal(effect);
    }
    next(t7, a8, w, n, x7, x8);
    let t8 = t7.push(a8);
    let a9 = VmView::EnsureKernel;
    let x9 = World { kernel: true, new_kernel: true, record: stale(x8.record), ..x8 };
    assert(effect(x8, a9, n) == Some(x9)) by {
        reveal(effect);
    }
    next(t8, a9, w, n, x8, x9);
    let t9 = t8.push(a9);
    let a10 = VmView::SaveRecord;
    let x10 = World { record: Record::Current, ..x9 };
    assert(effect(x9, a10, n) == Some(x10)) by {
        reveal(effect);
    }
    next(t9, a10, w, n, x9, x10);
    let t10 = t9.push(a10);
    let a11 = VmView::Say("VM '"@ + name + "' created successfully."@);
    let x11 = World { told: x10.told.push(("VM '"@ + name + "' created successfully."@, x10.record)), ..x10 };
    assert(effect(x10, a11, n) == Some(x11)) by {
        reveal(effect);
    }
    next(t10, a11, w, n, x10, x11);
    let t11 = t10.push(a11);
    let a12 = VmView::Start(name);
    let x12 = if !resolved.no_start {
        World { network: true, process: Process::Running, ..x11 }
    } else {
        x11
    };
    if !resolved.no_start {
        assert(effect(x11, a12, n) == Some(x12)) by {
            reveal(effect);
        }
        next(t11, a12, w, n, x11, x12);
    }
    let t12 = if !resolved.no_start {
        t11.push(a12)
    } else {
        t11
    };
    assert(grown ==> all[2] is Say);
    assert(all =~= t12);
}

proof fn lemma_clone_undone(undo: Seq<VmView>, w: World)
    requires
        undo.len() == 4,
        undo[0] is Warn,
        undo[1] is Warn,
        undo[2] == VmView::DestroyStorage,
        undo[3] == VmView::DeleteRecord(w.disk_name),
        w.stands_still(),
    ensures
        run_anyway(undo, w).disk_mib is None,
        run_anyway(undo, w).record is Absent,
{
    let u1 = undo.take(1);
    let u2 = undo.take(2);
    let u3 = undo.take(3);
    assert(u1 =~= Seq::empty().push(undo[0]));
    assert(u2 =~= u1.push(undo[1]));
    assert(u3 =~= u2.push(undo[2]));
    assert(undo =~= u3.push(undo[3]));
    assert(run_anyway(Seq::empty(), w) == w);
    let v1 = w;
    assert(effect(w, undo[0], 0) == Some(v1)) by {
        reveal(effect);
    }
    lemma_anyway(Seq::<VmView>::empty(), undo[0], w);
    let v2 = v1;
    assert(effect(v1, undo[1], 0) == Some(v2)) by {
        reveal(effect);
    }
    lemma_anyway(u1, undo[1], w);
    let v3 = World { disk_mib: None, open: false, record: stale(v2.record), ..v2 };
    assert(effect(v2, undo[2], 0) == Some(v3)) by {
        reveal(effect);
    }
    lemma_anyway(u2, undo[2], w);
    let v4 = World { record: Record::Absent, ..v3 };
    assert(effect(v3, undo[3], 0) == Some(v4)) by {
        reveal(effect);
    }
    lemma_anyway(u3, undo[3], w);
}

proof fn lemma_copy_undone(undo: Seq<VmView>, w: World)
    requires
        undo.len() == 5,
        undo[0] is Warn,
        undo[1] is Warn,
        undo[2] == VmView::DestroyStorage,
        undo[3] == VmView::CleanupFork,
        undo[4] == VmView::DeleteRecord(w.disk_name),
        w.stands_still(),
    ensures
        run_anyway(undo, w).disk_mib is None,
        !run_anyway(undo, w).forked,
        run_anyway(undo, w).record is Absent,
{
    let u1 = undo.take(1);
    let u2 = undo.take(2);
    let u3 = undo.take(3);
    let u4 = undo.take(4);
    assert(u1 =~= Seq::empty().push(undo[0]));
    assert(u2 =~= u1.push(undo[1]));
    assert(u3 =~= u2.push(undo[2]));
    assert(u4 =~= u3.push(undo[3]));
    assert(undo =~= u4.push(undo[4]));
    assert(run_anyway(Seq::empty(), w) == w);
    let v1 = w;
    assert(effect(w, undo[0], 0) == Some(v1)) by {
        reveal(effect);
    }
    lemma_anyway(Seq::<VmView>::empty(), undo[0], w);
    let v2 = v1;
    assert(effect(v1, undo[1], 0) == Some(v2)) by {
        reveal(effect);
    }
    lemma_anyway(u1, undo[1], w);
    let v3 = World { disk_mib: None, open: false, record: stale(v2.record), ..v2 };
    assert(effect(v2, undo[2], 0) == Some(v3)) by {
        reveal(effect);
    }
    lemma_anyway(u2, undo[2], w);
    let v4 = World { forked: false, record: stale(v3.record), ..v3 };
    assert(effect(v3, undo[3], 0) == Some(v4)) by {
        reveal(effect);
    }
    lemma_anyway(u3, undo[3], w);
    let v5 = World { record: Record::Absent, ..v4 };
    assert(effect(v4, undo[4], 0) == Some(v5)) by {
        reveal(effect);
    }
    lemma_anyway(u4, undo[4], w);
}

proof fn lemma_network_down(undo: Seq<VmView>, w: World)
    requires
        undo.len() == 3,
        undo[0] is Warn,
        undo[1] is Warn,
        undo[2] == VmView::TeardownNetwork,
        w.process is Absent,
    ensures
        run_anyway(undo, w).stands_still(),
{
    let u1 = undo.take(1);
    let u2 = undo.take(2);
    assert(u1 =~= Seq::empty().push(undo[0]));
    assert(u2 =~= u1.push(undo[1]));
    assert(undo =~= u2.push(undo[2]));
    assert(run_anyway(Seq::empty(), w) == w);
    let v1 = w;
    assert(effect(w, undo[0], 0) == Some(v1)) by {
        reveal(effect);
    }
    lemma_anyway(Seq::<VmView>::empty(), undo[0], w);
    let v2 = v1;
    assert(effect(v1, undo[1], 0) == Some(v2)) by {
        reveal(effect);
    }
    lemma_anyway(u1, undo[1], w);
    let v3 = World { network: false, record: stale(v2.record), ..v2 };
    assert(effect(v2, undo[2], 0) == Some(v3)) by {
        reveal(effect);
    }
    lemma_anyway(u2, undo[2], w);
}

proof fn lemma_both_down(undo: Seq<VmView>, w: World)
    requires
        undo.len() == 5,
        undo[0] is Warn,
        undo[1] is Warn,
        undo[2] == VmView::ForceStop,
        undo[3] is Warn,
        undo[4] == VmView::TeardownNetwork,
    ensures
        run_anyway(undo, w).stands_still(),
{
    let u1 = undo.take(1);
    let u2 = undo.take(2);
    let u3 = undo.take(3);
    let u4 = undo.take(4);
    assert(u1 =~= Seq::empty().push(undo[0]));
    assert(u2 =~= u1.push(undo[1]));
    assert(u3 =~= u2.push(undo[2]));
    assert(u4 =~= u3.push(undo[3]));
    assert(undo =~= u4.push(undo[4]));
    assert(run_anyway(Seq::empty(), w) == w);
    let v1 = w;
    assert(effect(w, undo[0], 0) == Some(v1)) by {
        reveal(effect);
    }
    lemma_anyway(Seq::<VmView>::empty(), undo[0], w);
    let v2 = v1;
    assert(effect(v1, undo[1], 0) == Some(v2)) by {
        reveal(effect);
    }
    lemma_anyway(u1, undo[1], w);
    let v3 = World { process: Process::Absent, record: stale(v2.record), ..v2 };
    assert(effect(v2, undo[2], 0) == Some(v3)) by {
        reveal(effect);
    }
    lemma_anyway(u2, undo[2], w);
    let v4 = v3;
    assert(effect(v3, undo[3], 0) == Some(v4)) by {
        reveal(effect);
    }
    lemma_anyway(u3, undo[3], w);
    let v5 = World { network: false, record: stale(v4.record), ..v4 };
    assert(effect(v4, undo[4], 0) == Some(v5)) by {
        reveal(effect);
    }
    lemma_anyway(u4, undo[4], w);
}

/// Whatever goes wrong once the disk of a new machine is there and before it is recorded
/// for good, neither disk nor record is left. That it cannot be started leaves it as it is.
pub proof fn law_failed_creation_leaves_nothing(
    resolved: ResolvedVmCreate,
    image_size_mib: u64,
    pubkey: Option<Seq<char>>,
    i: int,
    w: World,
)
    requires
        2 <= i < create_plan(resolved, image_size_mib, pubkey).len(),
        w.stands_still(),
        w.disk_name == resolved.name@,
    ensures
        ({
            let step = create_plan(resolved, image_size_mib, pubkey)[i];
            let left = run_anyway(step.undo, w);
            &&& !step.tolerate
            &&& if step.action is Start {
                left == w
            } else {
                left.disk_mib is None && left.record is Absent
            }
        }),
{
    let p = create_plan(resolved, image_size_mib, pubkey);
    let undo = p[i].undo;
    if p[i].action is Start {
        assert(undo.len() == 0);
    } else {
        lemma_clone_undone(undo, w);
    }
}

/// Whatever goes wrong once the disk of a copy is there and before it is recorded,
/// neither disk nor record is left, nor what the source keeps for it.
pub proof fn law_failed_copy_leaves_nothing(
    args: CpArgs,
    source: VmMetadata,
    sizes: CopySizes,
    i: int,
    w: World,
)
    requires
        2 <= i < copy_plan(args, source, sizes).len(),
        w.stands_still(),
        w.disk_name == args.name@,
    ensures
        ({
            let p = copy_plan(args, source, sizes);
            let left = run_anyway(p[i].undo, w);
            let recorded = exists|k: int| 0 <= k < i && #[trigger] p[k].action is SaveRecord;
            &&& !p[i].tolerate
            &&& if recorded {
                left == w
            } else {
                left.disk_mib is None && !left.forked && left.record is Absent
            }
        }),
{
    let p = copy_plan(args, source, sizes);
    let undo = p[i].undo;
    let last = if args.no_start {
        p.len() - 1
    } else {
        p.len() - 2
    };
    assert(p[last - 1].action is SaveRecord);
    if i >= last {
        assert(undo.len() == 0);
    } else {
        assert(forall|k: int| 0 <= k < last - 1 ==> !(#[trigger] p[k].action is SaveRecord));
        lemma_copy_undone(undo, w);
    }
}

/// Without a key to log in with no machine is created.
pub proof fn law_no_machine_without_a_key(
    resolved: ResolvedVmCreate,
    image_size_mib: u64,
    w: World,
)
    requires
        w.is_nothing(),
    ensures
        run(acts(create_plan(resolved, image_size_mib, None)), w, image_size_mib as nat) is None,
        !acts(create_plan(resolved, image_size_mib, None)).contains(VmView::SaveRecord),
{
    let all = acts(create_plan(resolved, image_size_mib, None));
    let k = if resolved.no_start {
        all.len() - 1
    } else {
        all.len() - 2
    };
    assert(all[k] is Refuse);
    lemma_refused(all, w, image_size_mib as nat, k);
}

proof fn lemma_refused(acts: Seq<VmView>, w: World, n: nat, k: int)
    requires
        0 <= k < acts.len(),
        acts[k] is Refuse,
    ensures
        run(acts, w, n) is None,
    decreases acts.len(),
{
    reveal(effect);
    if k < acts.len() - 1 {
        lemma_refused(acts.drop_last(), w, n, k);
    }
}

/// A copy has a disk as large as was settled, which calls itself by the name of the copy.
/// It boots the kernel that was asked for, where one was. It is recorded when the user is
/// told that it is there, and it runs in the end unless that is not wanted.
pub proof fn law_copying_makes_a_machine(
    args: CpArgs,
    source: VmMetadata,
    sizes: CopySizes,
    w: World,
)
    requires
        w.is_nothing(),
        w.disk_name == args.name@,
        copy_sizes(args, source) == Ok::<CopySizes, Seq<char>>(sizes),
    ensures
        ({
            let end = run(
                acts(copy_plan(args, source, sizes)),
                w,
                (source.disk_size_gib * 1024) as nat,
            );
            &&& end is Some
            &&& end->0.disk_mib == Some((sizes.disk_size_gib * 1024) as nat)
            &&& end->0.hostname == Some(args.name@)
            &&& end->0.is_whole()
            &&& end->0.forked
            &&& end->0.new_kernel <==> args.kernel is Some
            &&& end->0.told.last() == (
                "VM '"@ + args.name@ + "' copied from '"@ + args.source@ + "'."@,
                Record::Current,
            )
            &&& end->0.process is Running <==> !args.no_start
        }),
{
    let n = (source.disk_size_gib * 1024) as nat;
    let name = args.name@;
    let all = acts(copy_plan(args, source, sizes));
    let grown = sizes.disk_size_gib > source.disk_size_gib;
    let t0 = Seq::<VmView>::empty();
    lemma_start(w, n);
    let a1 = VmView::Say(all[0]->Say_0);
    let x1 = World { told: w.told.push((all[0]->Say_0, w.record)), ..w };
    assert(effect(w, a1, n) == Some(x1)) by {
        reveal(effect);
    }
    next(t0, a1, w, n, w, x1);
    let t1 = t0.push(a1);
    let a2 = VmView::CloneVm;
    let x2 = World { disk_mib: Some(n), forked: true, kernel: true, record: stale(x1.record), ..x1 };
    assert(effect(x1, a2, n) == Some(x2)) by {
        reveal(effect);
    }
    next(t1, a2, w, n, x1, x2);
    let t2 = t1.push(a2);
    let a3 = VmView::Say(all[2]->Say_0);
    let x3 = if grown {
        World { told: x2.told.push((all[2]->Say_0, x2.record)), ..x2 }
    } else {
        x2
    };
    if grown {
        assert(effect(x2, a3, n) == Some(x3)) by {
            reveal(effect);
        }
        next(t2, a3, w, n, x2, x3);
    }
    let t3 = if grown {
        t2.push(a3)
    } else {
        t2
    };
    let a4 = VmView::Resize(sizes.disk_size_gib);
    let x4 = if grown {
        World { disk_mib: Some((sizes.disk_size_gib * 1024) as nat), record: stale(x3.record), ..x3 }
    } else {
        x3
    };
    if grown {
        assert(effect(x3, a4, n) == Some(x4)) by {
            reveal(effect);
        }
        next(t3, a4, w, n, x3, x4);
    }
    let t4 = if grown {
        t3.push(a4)
    } else {
        t3
    };
    assert(x4.stands_still() && x4.disk_mib == Some((sizes.disk_size_gib * 1024) as nat));
    let a5 = VmView::OpenDisk;
    let x5 = World { open: true, ..x4 };
    assert(effect(x4, a5, n) == Some(x5)) by {
        reveal(effect);
    }
    next(t4, a5, w, n, x4, x5);
    let t5 = t4.push(a5);
    let a6 = VmView::InjectHostname(name);
    let x6 = World { hostname: Some(name), record: stale(x5.record), ..x5 };
    assert(effect(x5, a6, n) == Some(x6)) by {
        reveal(effect);
    }
    next(t5, a6, w, n, x5, x6);
    let t6 = t5.push(a6);
    let a7 = VmView::EnsureKernel;
    let x7 = if args.kernel is Some {
        World { kernel: true, new_kernel: true, record: stale(x6.record), ..x6 }
    } else {
        x6
    };
    if args.kernel is Some {
        assert(effect(x6, a7, n) == Some(x7)) by {
            reveal(effect);
        }
        next(t6, a7, w, n, x6, x7);
    }
    let t7 = if args.kernel is Some {
        t6.push(a7)
    } else {
        t6
    };
    let a8 = VmView::SaveRecord;
    let x8 = World { record: Record::Current, ..x7 };
    assert(effect(x7, a8, n) == Some(x8)) by {
        reveal(effect);
    }
    next(t7, a8, w, n, x7, x8);
    let t8 = t7.push(a8);
    let a9 = VmView::Say("VM '"@ + name + "' copied from '"@ + args.source@ + "'."@);
    let x9 = World { told: x8.told.push(("VM '"@ + name + "' copied from '"@ + args.source@ + "'."@, x8.record)), ..x8 };
    assert(effect(x8, a9, n) == Some(x9)) by {
        reveal(effect);
    }
    next(t8, a9, w, n, x8, x9);
    let t9 = t8.push(a9);
    let a10 = VmView::Start(name);
    let x10 = if !args.no_start {
        World { network: true, process: Process::Running, ..x9 }
    } else {
        x9
    };
    if !args.no_start {
        assert(effect(x9, a10, n) == Some(x10)) by {
            reveal(effect);
        }
        next(t9, a10, w, n, x9, x10);
    }
    let t10 = if !args.no_start {
        t9.push(a10)
    } else {
        t9
    };
    assert(all[0] is Say);
    assert(grown ==> all[2] is Say);
    assert(all =~= t10);
}

/// A machine that is started has a network and runs, and its record says so before the
/// user is told.
pub proof fn law_starting_runs_a_machine(
    name: Seq<char>,
    w: World,
)
    requires
        w.is_whole(),
        w.stands_still(),
        w.disk_name == name,
    ensures
        ({
            let end = run(acts(start_plan(name)), w, 0);
            &&& end is Some
            &&& end->0.is_whole()
            &&& end->0.network
            &&& end->0.process is Running
            &&& end->0.disk_mib == w.disk_mib
        }),
        acts(start_plan(name)).last() == VmView::TellStarted(name),
{
    let t0 = Seq::<VmView>::empty();
    lemma_start(w, 0);
    let a1 = VmView::Say("Setting up network..."@);
    let x1 = World { told: w.told.push(("Setting up network..."@, w.record)), ..w };
    assert(effect(w, a1, 0) == Some(x1)) by {
        reveal(effect);
    }
    next(t0, a1, w, 0, w, x1);
    let t1 = t0.push(a1);
    let a2 = VmView::SetupNetwork;
    let x2 = World { network: true, record: stale(x1.record), ..x1 };
    assert(effect(x1, a2, 0) == Some(x2)) by {
        reveal(effect);
    }
    next(t1, a2, w, 0, x1, x2);
    let t2 = t1.push(a2);
    let a3 = VmView::TellAddresses;
    let x3 = x2;
    assert(effect(x2, a3, 0) == Some(x3)) by {
        reveal(effect);
    }
    next(t2, a3, w, 0, x2, x3);
    let t3 = t2.push(a3);
    let a4 = VmView::Say("Starting VM..."@);
    let x4 = World { told: x3.told.push(("Starting VM..."@, x3.record)), ..x3 };
    assert(effect(x3, a4, 0) == Some(x4)) by {
        reveal(effect);
    }
    next(t3, a4, w, 0, x3, x4);
    let t4 = t3.push(a4);
    let a5 = VmView::StartProcess;
    let x5 = World { process: Process::Running, socket: true, record: stale(x4.record), ..x4 };
    assert(effect(x4, a5, 0) == Some(x5)) by {
        reveal(effect);
    }
    next(t4, a5, w, 0, x4, x5);
    let t5 = t4.push(a5);
    let a6 = VmView::SaveRecord;
    let x6 = World { record: Record::Current, ..x5 };
    assert(effect(x5, a6, 0) == Some(x6)) by {
        reveal(effect);
    }
    next(t5, a6, w, 0, x5, x6);
    let t6 = t5.push(a6);
    let a7 = VmView::TellStarted(name);
    let x7 = x6;
    assert(effect(x6, a7, 0) == Some(x7)) by {
        reveal(effect);
    }
    next(t6, a7, w, 0, x6, x7);
    let t7 = t6.push(a7);
    assert(acts(start_plan(name)) =~= t7);
}

/// When a machine could not be started, it neither runs nor has a network: whatever
/// failed once the network was there, and before its record said that it runs.
pub proof fn law_failed_start_leaves_nothing(
    name: Seq<char>,
    i: int,
    w: World,
)
    requires
        3 <= i < start_plan(name).len(),
        !(start_plan(name)[i].action is TellStarted),
        start_plan(name)[i].action is SaveRecord || w.process is Absent,
    ensures
        !start_plan(name)[i].tolerate,
        run_anyway(start_plan(name)[i].undo, w).stands_still(),
{
    let undo = start_plan(name)[i].undo;
    if start_plan(name)[i].action is SaveRecord {
        lemma_both_down(undo, w);
    } else {
        assert(i == 3 || i == 4);
        lemma_network_down(undo, w);
    }
}

/// A machine that is stopped neither runs nor has a network, and its record says so before
/// the user is told.
pub proof fn law_stopping_ends_a_machine(
    name: Seq<char>,
    pid: u32,
    running: bool,
    force: bool,
    w: World,
)
    requires
        w.is_whole(),
        running <==> !(w.process is Absent),
    ensures
        ({
            let p = stop_plan(stop_kind(running, force), name, pid);
            let end = run(acts(p), w, 0);
            &&& end is Some
            &&& end->0.stands_still()
            &&& end->0.is_whole()
            &&& end->0.disk_mib == w.disk_mib
            &&& end->0.told.last() == ("VM '"@ + name + "' stopped."@, Record::Current)
        }),
{
    let p = stop_plan(stop_kind(running, force), name, pid);
    let all = acts(p);
    let t0 = Seq::<VmView>::empty();
    lemma_start(w, 0);
    let a1 = VmView::Say(all[0]->Say_0);
    let x1 = World { told: w.told.push((all[0]->Say_0, w.record)), ..w };
    assert(effect(w, a1, 0) == Some(x1)) by {
        reveal(effect);
    }
    next(t0, a1, w, 0, w, x1);
    let t1 = t0.push(a1);
    let a2 = VmView::ForceStop;
    let x2 = if running && force {
        World { process: Process::Absent, record: stale(x1.record), ..x1 }
    } else {
        x1
    };
    if running && force {
        assert(effect(x1, a2, 0) == Some(x2)) by {
            reveal(effect);
        }
        next(t1, a2, w, 0, x1, x2);
    }
    let t2 = if running && force {
        t1.push(a2)
    } else {
        t1
    };
    let a3 = VmView::Stop;
    let x3 = if running && !force {
        World { process: Process::Absent, record: stale(x2.record), ..x2 }
    } else {
        x2
    };
    if running && !force {
        assert(effect(x2, a3, 0) == Some(x3)) by {
            reveal(effect);
        }
        next(t2, a3, w, 0, x2, x3);
    }
    let t3 = if running && !force {
        t2.push(a3)
    } else {
        t2
    };
    let a4 = VmView::TeardownNetwork;
    let x4 = World { network: false, record: stale(x3.record), ..x3 };
    assert(effect(x3, a4, 0) == Some(x4)) by {
        reveal(effect);
    }
    next(t3, a4, w, 0, x3, x4);
    let t4 = t3.push(a4);
    let a5 = VmView::SaveRecord;
    let x5 = World { record: Record::Current, ..x4 };
    assert(effect(x4, a5, 0) == Some(x5)) by {
        reveal(effect);
    }
    next(t4, a5, w, 0, x4, x5);
    let t5 = t4.push(a5);
    let a6 = VmView::Say("VM '"@ + name + "' stopped."@);
    let x6 = World { told: x5.told.push(("VM '"@ + name + "' stopped."@, x5.record)), ..x5 };
    assert(effect(x5, a6, 0) == Some(x6)) by {
        reveal(effect);
    }
    next(t5, a6, w, 0, x5, x6);
    let t6 = t5.push(a6);
    assert(all[0] is Say);
    assert(all =~= t6);
}

/// A machine is killed only by force and asked to end otherwise, where its process is there
/// at all. Only that its network cannot be taken down does not matter.
pub proof fn law_stopping_by_force(
    name: Seq<char>,
    pid: u32,
    running: bool,
    force: bool,
)
    ensures
        ({
            let p = stop_plan(stop_kind(running, force), name, pid);
            &&& acts(p).contains(VmView::ForceStop) <==> running && force
            &&& acts(p).contains(VmView::Stop) <==> running && !force
            &&& forall|i: int|
                0 <= i < p.len() ==> ((#[trigger] p[i]).tolerate <==> p[i].action
                    is TeardownNetwork)
        }),
{
    let p = stop_plan(stop_kind(running, force), name, pid);
    if running {
        assert(acts(p)[1] == p[1].action);
    }
}

/// Stopping, pausing and resuming change of the record only what they are about.
pub proof fn law_only_the_state_changes(
    m: VmMetadata,
)
    ensures
        stopped(m) == (VmMetadata {
            status: stopped(m).status,
            pid: stopped(m).pid,
            network: stopped(m).network,
            ..m
        }),
        stopped(m).status == VmStatus::Stopped,
        stopped(m).pid is None,
        stopped(m).network is None,
        paused(m) == (VmMetadata { status: VmStatus::Paused, ..m }),
        resumed(m) == (VmMetadata { status: VmStatus::Running, ..m }),
{
}

/// A machine that is paused was running before, and its record says so before the user is told.
/// The platform is asked first.
pub proof fn law_pausing_a_machine(
    name: Seq<char>,
    w: World,
)
    requires
        w.is_whole(),
        w.process is Running,
    ensures
        ({
            let end = run(acts(pause_plan(name)), w, 0);
            &&& end is Some
            &&& end->0.is_whole()
            &&& end->0.process is Paused
            &&& end->0.network == w.network
            &&& end->0.disk_mib == w.disk_mib
            &&& end->0.told.last() == ("VM '"@ + name + "' paused."@, Record::Current)
        }),
        forall|v: World| !(v.process is Running) ==> #[trigger] run(acts(pause_plan(name)), v, 0) is None,
{
    let t0 = Seq::<VmView>::empty();
    lemma_start(w, 0);
    let a1 = VmView::PrePauseCheck;
    let x1 = World { asked: true, ..w };
    assert(effect(w, a1, 0) == Some(x1)) by {
        reveal(effect);
    }
    next(t0, a1, w, 0, w, x1);
    let t1 = t0.push(a1);
    let a2 = VmView::Say(acts(pause_plan(name))[1]->Say_0);
    let x2 = World { told: x1.told.push((acts(pause_plan(name))[1]->Say_0, x1.record)), ..x1 };
    assert(effect(x1, a2, 0) == Some(x2)) by {
        reveal(effect);
    }
    next(t1, a2, w, 0, x1, x2);
    let t2 = t1.push(a2);
    let a3 = VmView::Pause;
    let x3 = World { process: Process::Paused, record: stale(x2.record), ..x2 };
    assert(effect(x2, a3, 0) == Some(x3)) by {
        reveal(effect);
    }
    next(t2, a3, w, 0, x2, x3);
    let t3 = t2.push(a3);
    let a4 = VmView::SaveRecord;
    let x4 = World { record: Record::Current, ..x3 };
    assert(effect(x3, a4, 0) == Some(x4)) by {
        reveal(effect);
    }
    next(t3, a4, w, 0, x3, x4);
    let t4 = t3.push(a4);
    let a5 = VmView::Say("VM '"@ + name + "' paused."@);
    let x5 = World { told: x4.told.push(("VM '"@ + name + "' paused."@, x4.record)), ..x4 };
    assert(effect(x4, a5, 0) == Some(x5)) by {
        reveal(effect);
    }
    next(t4, a5, w, 0, x4, x5);
    let t5 = t4.push(a5);
    assert(acts(pause_plan(name)) =~= t5);
    assert forall|v: World| !(v.process is Running) implies #[trigger] run(acts(pause_plan(name)), v, 0) is None by {
        lemma_stuck(acts(pause_plan(name)), v);
    }
}

/// A machine that is resumed was paused before, and its record says so before the user is told.
/// The platform is asked first.
pub proof fn law_resuming_a_machine(
    name: Seq<char>,
    w: World,
)
    requires
        w.is_whole(),
        w.process is Paused,
    ensures
        ({
            let end = run(acts(resume_plan(name)), w, 0);
            &&& end is Some
            &&& end->0.is_whole()
            &&& end->0.process is Running
            &&& end->0.network == w.network
            &&& end->0.disk_mib == w.disk_mib
            &&& end->0.told.last() == ("VM '"@ + name + "' resumed."@, Record::Current)
        }),
        forall|v: World| !(v.process is Paused) ==> #[trigger] run(acts(resume_plan(name)), v, 0) is None,
{
    let t0 = Seq::<VmView>::empty();
    lemma_start(w, 0);
    let a1 = VmView::PrePauseCheck;
    let x1 = World { asked: true, ..w };
    assert(effect(w, a1, 0) == Some(x1)) by {
        reveal(effect);
    }
    next(t0, a1, w, 0, w, x1);
    let t1 = t0.push(a1);
    let a2 = VmView::Say(acts(resume_plan(name))[1]->Say_0);
    let x2 = World { told: x1.told.push((acts(resume_plan(name))[1]->Say_0, x1.record)), ..x1 };
    assert(effect(x1, a2, 0) == Some(x2)) by {
        reveal(effect);
    }
    next(t1, a2, w, 0, x1, x2);
    let t2 = t1.push(a2);
    let a3 = VmView::Resume;
    let x3 = World { process: Process::Running, record: stale(x2.record), ..x2 };
    assert(effect(x2, a3, 0) == Some(x3)) by {
        reveal(effect);
    }
    next(t2, a3, w, 0, x2, x3);
    let t3 = t2.push(a3);
    let a4 = VmView::SaveRecord;
    let x4 = World { record: Record::Current, ..x3 };
    assert(effect(x3, a4, 0) == Some(x4)) by {
        reveal(effect);
    }
    next(t3, a4, w, 0, x3, x4);
    let t4 = t3.push(a4);
    let a5 = VmView::Say("VM '"@ + name + "' resumed."@);
    let x5 = World { told: x4.told.push(("VM '"@ + name + "' resumed."@, x4.record)), ..x4 };
    assert(effect(x4, a5, 0) == Some(x5)) by {
        reveal(effect);
    }
    next(t4, a5, w, 0, x4, x5);
    let t5 = t4.push(a5);
    assert(acts(resume_plan(name)) =~= t5);
    assert forall|v: World| !(v.process is Paused) implies #[trigger] run(acts(resume_plan(name)), v, 0) is None by {
        lemma_stuck(acts(resume_plan(name)), v);
    }
}

/// A disk that is resized is as large as was asked for, and its record says so before the
/// user is told.
pub proof fn law_resizing_a_disk(
    name: Seq<char>,
    from_gib: u32,
    to_gib: u32,
    w: World,
)
    requires
        w.is_whole(),
        w.process is Absent,
        !w.open,
        w.disk_mib == Some((from_gib * 1024) as nat),
        from_gib < to_gib,
    ensures
        ({
            let end = run(acts(resize_plan(name, from_gib, to_gib)), w, 0);
            &&& end is Some
            &&& end->0.is_whole()
            &&& end->0.disk_mib == Some((to_gib * 1024) as nat)
            &&& end->0.told.len() == w.told.len() + 2
            &&& end->0.told.last().1 is Current
        }),
{
    let t0 = Seq::<VmView>::empty();
    lemma_start(w, 0);
    let a1 = VmView::Say(acts(resize_plan(name, from_gib, to_gib))[0]->Say_0);
    let x1 = World { told: w.told.push((acts(resize_plan(name, from_gib, to_gib))[0]->Say_0, w.record)), ..w };
    assert(effect(w, a1, 0) == Some(x1)) by {
        reveal(effect);
    }
    next(t0, a1, w, 0, w, x1);
    let t1 = t0.push(a1);
    let a2 = VmView::Resize(to_gib);
    let x2 = World { disk_mib: Some((to_gib * 1024) as nat), record: stale(x1.record), ..x1 };
    assert(effect(x1, a2, 0) == Some(x2)) by {
        reveal(effect);
    }
    next(t1, a2, w, 0, x1, x2);
    let t2 = t1.push(a2);
    let a3 = VmView::SaveRecord;
    let x3 = World { record: Record::Current, ..x2 };
    assert(effect(x2, a3, 0) == Some(x3)) by {
        reveal(effect);
    }
    next(t2, a3, w, 0, x2, x3);
    let t3 = t2.push(a3);
    let a4 = VmView::Say(acts(resize_plan(name, from_gib, to_gib))[3]->Say_0);
    let x4 = World { told: x3.told.push((acts(resize_plan(name, from_gib, to_gib))[3]->Say_0, x3.record)), ..x3 };
    assert(effect(x3, a4, 0) == Some(x4)) by {
        reveal(effect);
    }
    next(t3, a4, w, 0, x3, x4);
    let t4 = t3.push(a4);
    assert(acts(resize_plan(name, from_gib, to_gib)) =~= t4);
}

proof fn lemma_stuck(acts: Seq<VmView>, v: World)
    requires
        acts.len() == 5,
        acts[0] == VmView::PrePauseCheck,
        acts[1] is Say,
        acts[2] == VmView::Pause && !(v.process is Running) || acts[2] == VmView::Resume && !(
        v.process is Paused),
    ensures
        run(acts, v, 0) is None,
{
    reveal(effect);
    let t2 = acts.take(2);
    let t3 = acts.take(3);
    let t4 = acts.take(4);
    assert(acts.drop_last() =~= t4);
    assert(t4.drop_last() =~= t3);
    assert(t3.drop_last() =~= t2);
    assert(t2.drop_last() =~= acts.take(1));
    assert(acts.take(1).drop_last() =~= Seq::empty());
    assert(run(Seq::empty(), v, 0) == Some(v));
    assert(run(acts.take(1), v, 0)->0.process == v.process);
    assert(run(t2, v, 0)->0.process == v.process);
    assert(run(t3, v, 0) is None);
    assert(run(t4, v, 0) is None);
}

/// A machine that is renamed has its disk and its record under the new name, its copies
/// know it, and the user is told. When its record could not be moved, its disk has the old
/// name again.
pub proof fn law_renaming_a_machine(
    name: Seq<char>,
    new_name: Seq<char>,
    root: Seq<char>,
    w: World,
)
    requires
        w.is_whole(),
        w.process is Absent,
        w.disk_name == name,
        w.dir == vm_dir_of(root, name),
    ensures
        ({
            let p = rename_plan(name, new_name, root);
            let end = run(acts(p), w, 0);
            &&& end is Some
            &&& end->0.is_whole()
            &&& end->0.disk_name == new_name
            &&& end->0.dir == vm_dir_of(root, new_name)
            &&& end->0.known_to_copies
            &&& end->0.told.last() == (
                "VM '"@ + name + "' renamed to '"@ + new_name + "'."@,
                Record::Current,
            )
            &&& forall|i: int| #![trigger p[i]]
                0 <= i < p.len() && p[i].action is MoveDir ==> ({
                    let moved = run(acts(p.take(i)), w, 0);
                    &&& moved is Some
                    &&& moved->0.disk_name == new_name
                    &&& run_anyway(p[i].undo, moved->0).disk_name == name
                })
        }),
{
    let t0 = Seq::<VmView>::empty();
    lemma_start(w, 0);
    let a1 = VmView::RenameStorage(new_name);
    let x1 = World { disk_name: new_name, old_disk_name: w.disk_name, record: stale(w.record), ..w };
    assert(effect(w, a1, 0) == Some(x1)) by {
        reveal(effect);
    }
    next(t0, a1, w, 0, w, x1);
    let t1 = t0.push(a1);
    let a2 = VmView::MoveDir(vm_dir_of(root, name), vm_dir_of(root, new_name));
    let x2 = World { dir: vm_dir_of(root, new_name), known_to_copies: false, record: stale(x1.record), ..x1 };
    assert(effect(x1, a2, 0) == Some(x2)) by {
        reveal(effect);
    }
    next(t1, a2, w, 0, x1, x2);
    let t2 = t1.push(a2);
    let a3 = VmView::SaveRecord;
    let x3 = World { record: Record::Current, ..x2 };
    assert(effect(x2, a3, 0) == Some(x3)) by {
        reveal(effect);
    }
    next(t2, a3, w, 0, x2, x3);
    let t3 = t2.push(a3);
    let a4 = VmView::RenameParents;
    let x4 = World { known_to_copies: true, ..x3 };
    assert(effect(x3, a4, 0) == Some(x4)) by {
        reveal(effect);
    }
    next(t3, a4, w, 0, x3, x4);
    let t4 = t3.push(a4);
    let a5 = VmView::Say("VM '"@ + name + "' renamed to '"@ + new_name + "'."@);
    let x5 = World { told: x4.told.push(("VM '"@ + name + "' renamed to '"@ + new_name + "'."@, x4.record)), ..x4 };
    assert(effect(x4, a5, 0) == Some(x5)) by {
        reveal(effect);
    }
    next(t4, a5, w, 0, x4, x5);
    let t5 = t4.push(a5);
    let p = rename_plan(name, new_name, root);
    assert(acts(p) =~= t5);
    assert forall|i: int| #![trigger p[i]] 0 <= i < p.len() && p[i].action is MoveDir implies ({
        let moved = run(acts(p.take(i)), w, 0);
        &&& moved is Some
        &&& moved->0.disk_name == new_name
        &&& run_anyway(p[i].undo, moved->0).disk_name == name
    }) by {
        assert(i == 1);
        assert(acts(p.take(1)) =~= t1);
        assert(effect(x1, VmView::RevertStorage, 0) == Some(
            World { disk_name: x1.old_disk_name, ..x1 },
        )) by {
            reveal(effect);
        }
        lemma_anyway(Seq::empty(), p[1].undo[0], x1);
        assert(p[1].undo =~= Seq::empty().push(p[1].undo[0]));
        assert(run_anyway(Seq::empty(), x1) == x1);
    }
}

/// Of a machine that is deleted nothing is left: it does not run, has no network, no disk
/// and no record, and its source keeps nothing for it.
pub proof fn law_deleting_leaves_nothing(
    m: VmMetadata,
    running: bool,
    socket_there: bool,
    w: World,
)
    requires
        w.disk_name == m.name@,
        w.forked ==> m.parent_vm is Some,
        !(w.process is Absent) ==> m.status.spec_is_active() && m.pid is Some && running,
        w.socket ==> m.status.spec_is_active() && socket_there,
    ensures
        ({
            let end = run(acts(deletion_plan(m, running, socket_there)), w, 0);
            &&& end is Some
            &&& end->0.disk_mib is None
            &&& end->0.record is Absent
            &&& end->0.stands_still()
            &&& !end->0.forked
            &&& !end->0.socket
            &&& end->0.told.last().0 == "VM '"@ + m.name@ + "' deleted."@
        }),
{
    let all = acts(deletion_plan(m, running, socket_there));
    let kill = m.status.spec_is_active() && m.pid is Some && running;
    let clear = m.status.spec_is_active() && socket_there;
    let t0 = Seq::<VmView>::empty();
    lemma_start(w, 0);
    let a1 = VmView::Say(all[0]->Say_0);
    let x1 = if kill {
        World { told: w.told.push((all[0]->Say_0, w.record)), ..w }
    } else {
        w
    };
    if kill {
        assert(effect(w, a1, 0) == Some(x1)) by {
            reveal(effect);
        }
        next(t0, a1, w, 0, w, x1);
    }
    let t1 = if kill {
        t0.push(a1)
    } else {
        t0
    };
    let a2 = VmView::ForceStop;
    let x2 = if kill {
        World { process: Process::Absent, record: stale(x1.record), ..x1 }
    } else {
        x1
    };
    if kill {
        assert(effect(x1, a2, 0) == Some(x2)) by {
            reveal(effect);
        }
        next(t1, a2, w, 0, x1, x2);
    }
    let t2 = if kill {
        t1.push(a2)
    } else {
        t1
    };
    let a3 = VmView::RemoveSocket;
    let x3 = if clear {
        World { socket: false, ..x2 }
    } else {
        x2
    };
    if clear {
        assert(effect(x2, a3, 0) == Some(x3)) by {
            reveal(effect);
        }
        next(t2, a3, w, 0, x2, x3);
    }
    let t3 = if clear {
        t2.push(a3)
    } else {
        t2
    };
    assert(x3.process is Absent && !x3.socket && x3.disk_name == m.name@ && x3.forked == w.forked);
    let t10 = lemma_the_rest_goes(t3, x3, w, m.name@, m.parent_vm is Some);
    lemma_deletion_acts(m, running, socket_there);
    assert(t3 =~= (if kill {
        seq![a1, a2]
    } else {
        seq![]
    }) + (if clear {
        seq![a3]
    } else {
        seq![]
    }));
}

proof fn lemma_deletion_acts(m: VmMetadata, running: bool, socket_there: bool)
    ensures
        ({
            let all = acts(deletion_plan(m, running, socket_there));
            let kill = m.status.spec_is_active() && m.pid is Some && running;
            &&& all == (if kill {
                seq![VmView::Say(all[0]->Say_0), VmView::ForceStop]
            } else {
                seq![]
            }) + (if m.status.spec_is_active() && socket_there {
                seq![VmView::RemoveSocket]
            } else {
                seq![]
            }) + seq![
                VmView::TeardownNetwork,
                VmView::PostDelete,
                VmView::Say("Destroying storage for VM '"@ + m.name@ + "'..."@),
                VmView::DestroyStorage,
            ] + (if m.parent_vm is Some {
                seq![VmView::CleanupFork]
            } else {
                seq![]
            }) + seq![
                VmView::DeleteRecord(m.name@),
                VmView::Say("VM '"@ + m.name@ + "' deleted."@),
            ]
        }),
{
    let kill = m.status.spec_is_active() && m.pid is Some && running;
    let all = acts(deletion_plan(m, running, socket_there));
    if kill {
        assert(all[0] == deletion_plan(m, running, socket_there)[0].action);
    }
}

proof fn lemma_the_rest_goes(t3: Seq<VmView>, x3: World, w: World, name: Seq<char>, copied: bool) -> (r:
    Seq<VmView>)
    requires
        run(t3, w, 0) == Some(x3),
        x3.process is Absent,
        !x3.socket,
        x3.disk_name == name,
        x3.forked ==> copied,
    ensures
        r == t3 + seq![
            VmView::TeardownNetwork,
            VmView::PostDelete,
            VmView::Say("Destroying storage for VM '"@ + name + "'..."@),
            VmView::DestroyStorage,
        ] + (if copied {
            seq![VmView::CleanupFork]
        } else {
            seq![]
        }) + seq![
            VmView::DeleteRecord(name),
            VmView::Say("VM '"@ + name + "' deleted."@),
        ],
        ({
            let end = run(r, w, 0);
            &&& end is Some
            &&& end->0.disk_mib is None
            &&& end->0.record is Absent
            &&& end->0.stands_still()
            &&& !end->0.forked
            &&& !end->0.socket
            &&& end->0.told.last().0 == "VM '"@ + name + "' deleted."@
        }),
{
    let a4 = VmView::TeardownNetwork;
    let x4 = World { network: false, record: stale(x3.record), ..x3 };
    assert(effect(x3, a4, 0) == Some(x4)) by {
        reveal(effect);
    }
    next(t3, a4, w, 0, x3, x4);
    let t4 = t3.push(a4);
    let a5 = VmView::PostDelete;
    let x5 = x4;
    assert(effect(x4, a5, 0) == Some(x5)) by {
        reveal(effect);
    }
    next(t4, a5, w, 0, x4, x5);
    let t5 = t4.push(a5);
    let a6 = VmView::Say("Destroying storage for VM '"@ + name + "'..."@);
    let x6 = World { told: x5.told.push(("Destroying storage for VM '"@ + name + "'..."@, x5.record)), ..x5 };
    assert(effect(x5, a6, 0) == Some(x6)) by {
        reveal(effect);
    }
    next(t5, a6, w, 0, x5, x6);
    let t6 = t5.push(a6);
    let a7 = VmView::DestroyStorage;
    let x7 = World { disk_mib: None, open: false, record: stale(x6.record), ..x6 };
    assert(effect(x6, a7, 0) == Some(x7)) by {
        reveal(effect);
    }
    next(t6, a7, w, 0, x6, x7);
    let t7 = t6.push(a7);
    let a8 = VmView::CleanupFork;
    let x8 = if copied {
        World { forked: false, record: stale(x7.record), ..x7 }
    } else {
        x7
    };
    if copied {
        assert(effect(x7, a8, 0) == Some(x8)) by {
            reveal(effect);
        }
        next(t7, a8, w, 0, x7, x8);
    }
    let t8 = if copied {
        t7.push(a8)
    } else {
        t7
    };
    let a9 = VmView::DeleteRecord(name);
    let x9 = World { record: Record::Absent, ..x8 };
    assert(effect(x8, a9, 0) == Some(x9)) by {
        reveal(effect);
    }
    next(t8, a9, w, 0, x8, x9);
    let t9 = t8.push(a9);
    let a10 = VmView::Say("VM '"@ + name + "' deleted."@);
    let x10 = World { told: x9.told.push(("VM '"@ + name + "' deleted."@, x9.record)), ..x9 };
    assert(effect(x9, a10, 0) == Some(x10)) by {
        reveal(effect);
    }
    next(t9, a10, w, 0, x9, x10);
    let t10 = t9.push(a10);
    assert(t10 =~= t3 + seq![a4, a5, a6, a7] + (if copied {
        seq![a8]
    } else {
        seq![]
    }) + seq![a9, a10]);
    t10
}

/// When a machine is deleted, its record is removed whether or not the rest could be.
pub proof fn law_the_record_goes_in_any_case(
    m: VmMetadata,
    running: bool,
    socket_there: bool,
    i: int,
)
    requires
        0 <= i < deletion_plan(m, running, socket_there).len(),
    ensures
        ({
            let step = deletion_plan(m, running, socket_there)[i];
            &&& step.undo.len() == 0
            &&& step.tolerate <==> (step.action is ForceStop || step.action is RemoveSocket
                || step.action is TeardownNetwork || step.action is DestroyStorage || step.action
                is CleanupFork)
        }),
{
}

} // verus!
