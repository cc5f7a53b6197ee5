//! What becomes of the files of machines and images on macOS.
//!
//! The procedures themselves are in [`macos_storage`](crate::macos_storage) and
//! [`macos_image`](crate::macos_image). Here stands what each of their actions does to
//! files, and what the procedures come to.

use vstd::prelude::*;
use vstd::string::*;

use crate::command::InvocationView;
use crate::macos_image::{making, ownership_of};
use crate::macos_storage::{made_dirs, state_dirs, FileView, MacosStorage};
use crate::path::joined;
use crate::procedure::StepView;
use crate::text::{dec, lemma_dec_parsed, parsed};

verus! {

/// A file: how many bytes it has, what it holds, how many bytes of it the file system on
/// it fills, and whether that was checked.
pub struct File {
    pub bytes: nat,
    pub holds: Seq<u8>,
    pub filled: nat,
    pub checked: bool,
}

/// Files by their paths, and the directories that were made.
pub struct Files {
    pub all: Map<Seq<char>, File>,
    pub dirs: Set<Seq<char>>,
}

impl Files {
    /// The same, with one file changed or added.
    pub open spec fn with(self, path: Seq<char>, f: File) -> Files {
        Files { all: self.all.insert(path, f), ..self }
    }

    /// The same, without one file.
    pub open spec fn without(self, path: Seq<char>) -> Files {
        Files { all: self.all.remove(path), ..self }
    }
}

/// Whether a path lies below a directory.
pub open spec fn below(path: Seq<char>, dir: Seq<char>) -> bool {
    path.len() > dir.len() && path.take(dir.len() as int) == dir
}

/// What one action makes of the files; `None` where it cannot be done.
#[verifier::opaque]
pub open spec fn effect(w: Files, a: FileView) -> Option<Files> {
    match a {
        FileView::MakeDirs(p) => Some(Files { dirs: w.dirs.insert(p), ..w }),
        FileView::Move(from, to) | FileView::Rename(from, to) => if w.all.contains_key(from) {
            Some(w.without(from).with(to, w.all[from]))
        } else {
            None
        },
        FileView::CloneFile(from, to) => if w.all.contains_key(from) && !w.all.contains_key(to) {
            Some(w.with(to, w.all[from]))
        } else {
            None
        },
        FileView::RemoveFile(p) => if w.all.contains_key(p) {
            Some(w.without(p))
        } else {
            None
        },
        FileView::RemoveDirs(p) => Some(
            Files {
                all: w.all.restrict(Set::new(|k: Seq<char>| !below(k, p))),
                dirs: w.dirs.remove(p),
            },
        ),
        FileView::Run(call) => if call.program == "truncate"@ && call.args.len() == 3
            && call.args[0] == "-s"@ && w.all.contains_key(call.args[2]) {
            match parsed(call.args[1], u64::MAX as nat) {
                Some(n) => Some(
                    w.with(
                        call.args[2],
                        File { bytes: n, checked: false, ..w.all[call.args[2]] },
                    ),
                ),
                None => None,
            }
        } else {
            None
        },
        FileView::CheckFilesystem(p) => if w.all.contains_key(p) {
            Some(w.with(p, File { checked: true, ..w.all[p] }))
        } else {
            None
        },
        // A file system is grown only after it was checked.
        FileView::GrowFilesystem(p) => if w.all.contains_key(p) && w.all[p].checked {
            Some(w.with(p, File { filled: w.all[p].bytes, ..w.all[p] }))
        } else {
            None
        },
        FileView::Refuse(_) => None,
        _ => Some(w),
    }
}

/// What the steps of a procedure come to when each of them succeeds.
pub open spec fn run(w: Files, p: Seq<StepView<FileView>>) -> Option<Files>
    decreases p.len(),
{
    if p.len() == 0 {
        Some(w)
    } else {
        match run(w, p.drop_last()) {
            Some(x) => effect(x, p.last().action),
            None => None,
        }
    }
}

proof fn lemma_take(w: Files, p: Seq<StepView<FileView>>)
    ensures
        run(w, p.take(0)) == Some(w),
        p.take(p.len() as int) == p,
        forall|i: int|
            0 < i <= p.len() ==> run(w, #[trigger] p.take(i)) == (match run(w, p.take(i - 1)) {
                Some(x) => effect(x, p[i - 1].action),
                None => None,
            }),
{
    assert(p.take(p.len() as int) =~= p);
    assert forall|i: int| 0 < i <= p.len() implies run(w, #[trigger] p.take(i)) == (match run(
        w,
        p.take(i - 1),
    ) {
        Some(x) => effect(x, p[i - 1].action),
        None => None,
    }) by {
        assert(p.take(i).drop_last() =~= p.take(i - 1));
    }
}

proof fn lemma_ends(base: Seq<char>, child: Seq<char>)
    requires
        child.len() >= 2,
    ensures
        joined(base, child).len() >= child.len(),
        joined(base, child).last() == child.last(),
        joined(base, child)[joined(base, child).len() - 2] == child[child.len() - 2],
{
}

/// An image that is taken over lies where images do, and nowhere else.
pub proof fn law_an_image_is_taken_over(
    s: MacosStorage,
    name: Seq<char>,
    path: Seq<char>,
    w: Files,
)
    requires
        w.all.contains_key(path),
        path != s.image(name),
    ensures
        ({
            let done = run(w, s.image_taking(name, path));
            &&& done is Some
            &&& done->0.all == w.all.remove(path).insert(s.image(name), w.all[path])
            &&& !done->0.all.contains_key(path)
        }),
{
    let p = s.image_taking(name, path);
    reveal(effect);
    lemma_take(w, p);
    if p.len() == 2 {
        let x = Files { dirs: w.dirs.insert(p[0].action->MakeDirs_0), ..w };
        assert(run(w, p.take(1)) == Some(x));
        assert(run(w, p.take(2)) is Some);
    } else {
        assert(p.len() == 1);
        assert(run(w, p.take(1)) is Some);
    }
}

/// The disk of a new machine holds what the image holds, which stays, and its directories
/// are there before it is.
pub proof fn law_a_new_disk_holds_the_image(
    s: MacosStorage,
    image: Seq<char>,
    vm: Seq<char>,
    w: Files,
)
    requires
        w.all.contains_key(s.image(image)),
        !w.all.contains_key(s.rootfs(vm)),
    ensures
        ({
            let p = s.machine_cloning(image, vm);
            let before = run(w, p.drop_last());
            let done = run(w, p);
            &&& before is Some && done is Some
            &&& before->0.dirs.contains(s.vm(vm)) && before->0.dirs.contains(s.snapshots(vm))
            &&& done->0.all == w.all.insert(s.rootfs(vm), w.all[s.image(image)])
        }),
{
    let p = s.machine_cloning(image, vm);
    reveal(effect);
    lemma_take(w, p);
    let x = Files { dirs: w.dirs.insert(s.vm(vm)), ..w };
    let y = Files { dirs: x.dirs.insert(s.snapshots(vm)), ..w };
    assert(run(w, p.take(1)) == Some(x));
    assert(run(w, p.take(2)) == Some(y));
    assert(run(w, p.take(3)) is Some);
    assert(p.drop_last() =~= p.take(2));
}

/// A snapshot that is taken holds what the disk holds. A machine that is put back to one
/// holds what that held, whatever the disk held since and whether or not an earlier try
/// left something behind; and no other file changes. The disk is there all the time.
pub proof fn law_restoring_gives_back_what_was_held(
    s: MacosStorage,
    vm: Seq<char>,
    snap: Seq<char>,
    w: Files,
    leftover: bool,
)
    requires
        leftover == w.all.contains_key(joined(s.vm(vm), "rootfs.img.restoring"@)),
    ensures
        w.all.contains_key(s.rootfs(vm)) && !w.all.contains_key(s.snapshot_file(vm, snap)) ==> ({
            let taken = run(w, s.snapshot_plan(vm, snap, false));
            &&& taken is Some
            &&& taken->0.all == w.all.insert(s.snapshot_file(vm, snap), w.all[s.rootfs(vm)])
        }),
        run(w, s.snapshot_plan(vm, snap, true)) is None,
        w.all.contains_key(s.snapshot_file(vm, snap)) ==> ({
            let p = s.restoring(vm, snap, leftover);
            let done = run(w, p);
            let copy = joined(s.vm(vm), "rootfs.img.restoring"@);
            &&& done is Some
            &&& done->0.all.contains_key(s.rootfs(vm))
            &&& done->0.all[s.rootfs(vm)] == w.all[s.snapshot_file(vm, snap)]
            &&& done->0.all.remove(s.rootfs(vm)) == w.all.remove(s.rootfs(vm)).remove(copy)
            &&& w.all.contains_key(s.rootfs(vm)) ==> forall|i: int|
                0 <= i <= p.len() ==> run(w, #[trigger] p.take(i)) is Some && run(
                    w,
                    p.take(i),
                )->0.all.contains_key(s.rootfs(vm))
        }),
{
    let disk = s.rootfs(vm);
    let file = s.snapshot_file(vm, snap);
    let copy = joined(s.vm(vm), "rootfs.img.restoring"@);
    reveal_strlit("rootfs.img.restoring");
    reveal_strlit("rootfs.img");
    reveal_strlit(".img");
    lemma_ends(s.vm(vm), "rootfs.img.restoring"@);
    lemma_ends(s.vm(vm), "rootfs.img"@);
    lemma_ends(s.snapshots(vm), snap + ".img"@);
    assert(copy[copy.len() - 2] == 'n');
    assert(file[file.len() - 2] == 'm');
    assert(disk[disk.len() - 2] == 'm');
    let t = s.snapshot_plan(vm, snap, false);
    lemma_take(w, t);
    let t1 = Files { dirs: w.dirs.insert(s.snapshots(vm)), ..w };
    assert(effect(w, t[0].action) == Some(t1)) by {
        reveal(effect);
    }
    assert(run(w, t.take(1)) == Some(t1));
    assert(t.len() == 2);
    if w.all.contains_key(disk) && !w.all.contains_key(file) {
        assert(effect(t1, t[1].action) == Some(t1.with(file, w.all[disk]))) by {
            reveal(effect);
        }
        assert(run(w, t.take(2)) == Some(t1.with(file, w.all[disk])));
    }
    let q = s.snapshot_plan(vm, snap, true);
    assert(run(w, q) is None) by {
        reveal(effect);
        assert(q.last().action is Refuse);
    }
    let p = s.restoring(vm, snap, leftover);
    lemma_take(w, p);
    if w.all.contains_key(file) {
        let x = w.without(copy);
        let y = x.with(copy, w.all[file]);
        let z = y.without(copy).with(disk, w.all[file]);
        let k: int = if leftover {
            1
        } else {
            0
        };
        if leftover {
            assert(effect(w, p[0].action) == Some(x)) by {
                reveal(effect);
            }
            assert(run(w, p.take(1)) == Some(x));
        } else {
            assert(x.all =~= w.all);
        }
        assert(run(w, p.take(k)) == Some(x));
        assert(p.len() == k + 2);
        assert(effect(x, p[k].action) == Some(y)) by {
            reveal(effect);
        }
        assert(effect(y, p[k + 1].action) == Some(z)) by {
            reveal(effect);
        }
        assert(run(w, p.take(k + 1)) == Some(y));
        assert(run(w, p.take(k + 2)) == Some(z));
        assert(z.all.remove(disk) =~= w.all.remove(disk).remove(copy));
        assert forall|i: int| 0 <= i <= p.len() && w.all.contains_key(disk) implies run(
            w,
            #[trigger] p.take(i),
        ) is Some && run(w, p.take(i))->0.all.contains_key(disk) by {
            assert(i == 0 || i == k || i == k + 1 || i == k + 2);
        }
    }
}

proof fn lemma_fork(
    p: Seq<StepView<FileView>>,
    d: Seq<Seq<char>>,
    disk: Seq<char>,
    file: Seq<char>,
    target: Seq<char>,
    w: Files,
)
    requires
        p.len() == 5,
        d.len() == 3,
        p[0].action == FileView::MakeDirs(d[0]),
        p[1].action == FileView::CloneFile(disk, file),
        p[2].action == FileView::MakeDirs(d[1]),
        p[3].action == FileView::MakeDirs(d[2]),
        p[4].action == FileView::CloneFile(file, target),
        w.all.contains_key(disk),
        !w.all.contains_key(file),
        !w.all.contains_key(target),
        file != target,
    ensures
        run(w, p) is Some,
        run(w, p)->0.all == w.all.insert(file, w.all[disk]).insert(target, w.all[disk]),
        run(w, p.drop_last()) is Some,
        run(w, p.drop_last())->0.all == w.all.insert(file, w.all[disk]),
{
    lemma_take(w, p);
    let w1 = Files { dirs: w.dirs.insert(d[0]), ..w };
    let w2 = w1.with(file, w.all[disk]);
    let w3 = Files { dirs: w2.dirs.insert(d[1]), ..w2 };
    let w4 = Files { dirs: w3.dirs.insert(d[2]), ..w3 };
    let w5 = w4.with(target, w.all[disk]);
    assert(effect(w, p[0].action) == Some(w1)) by {
        reveal(effect);
    }
    assert(effect(w1, p[1].action) == Some(w2)) by {
        reveal(effect);
    }
    assert(effect(w2, p[2].action) == Some(w3)) by {
        reveal(effect);
    }
    assert(effect(w3, p[3].action) == Some(w4)) by {
        reveal(effect);
    }
    assert(effect(w4, p[4].action) == Some(w5)) by {
        reveal(effect);
    }
    assert(run(w, p.take(1)) == Some(w1));
    assert(run(w, p.take(2)) == Some(w2));
    assert(run(w, p.take(3)) == Some(w3));
    assert(run(w, p.take(4)) == Some(w4));
    assert(run(w, p.take(5)) == Some(w5));
    assert(p.drop_last() =~= p.take(4));
}

proof fn lemma_fork_refused(p: Seq<StepView<FileView>>, w: Files)
    requires
        p.len() == 5,
        p[1].action is Refuse,
    ensures
        run(w, p) is None,
{
    lemma_take(w, p);
    assert(run(w, p.take(2)) is None) by {
        reveal(effect);
        assert(p.take(2) == p.take(2));
    }
    assert(run(w, p.take(3)) is None);
    assert(run(w, p.take(4)) is None);
    assert(run(w, p.take(5)) is None);
}

/// The disk of a copy holds what the disk of its source holds, which goes on as it is.
/// When the copy could not be made, the snapshot that was taken for it is gone again.
pub proof fn law_a_fork_holds_what_its_source_holds(
    s: MacosStorage,
    source: Seq<char>,
    snap: Seq<char>,
    target: Seq<char>,
    w: Files,
)
    requires
        w.all.contains_key(s.rootfs(source)),
        !w.all.contains_key(s.snapshot_file(source, snap)),
        !w.all.contains_key(s.rootfs(target)),
        s.snapshot_file(source, snap) != s.rootfs(target),
    ensures
        ({
            let p = s.forking(source, snap, target, false);
            let done = run(w, p);
            let file = s.snapshot_file(source, snap);
            &&& done is Some
            &&& done->0.all == w.all.insert(file, w.all[s.rootfs(source)]).insert(
                s.rootfs(target),
                w.all[s.rootfs(source)],
            )
            &&& done->0.all[s.rootfs(source)] == w.all[s.rootfs(source)]
            &&& p.last().undo.len() == 1 && !p.last().tolerate
            &&& ({
                let left = effect(run(w, p.drop_last())->0, p.last().undo[0]);
                left is Some && left->0.all == w.all
            })
            &&& run(w, s.forking(source, snap, target, true)) is None
        }),
{
    let p = s.forking(source, snap, target, false);
    let q = s.forking(source, snap, target, true);
    let file = s.snapshot_file(source, snap);
    let disk = s.rootfs(source);
    let d = seq![s.snapshots(source), s.vm(target), s.snapshots(target)];
    assert(p.len() == 5 && q.len() == 5);
    lemma_fork(p, d, disk, file, s.rootfs(target), w);
    lemma_fork_refused(q, w);
    let x = run(w, p.drop_last())->0;
    assert(effect(x, p[4].undo[0]) == Some(x.without(file))) by {
        reveal(effect);
    }
    assert(x.without(file).all =~= w.all);
}

/// A snapshot that is deleted is gone, and nothing else is.
pub proof fn law_a_dropped_snapshot_is_gone(
    s: MacosStorage,
    vm: Seq<char>,
    snap: Seq<char>,
    w: Files,
)
    requires
        w.all.contains_key(s.snapshot_file(vm, snap)),
    ensures
        effect(w, s.dropping(vm, snap)) == Some(w.without(s.snapshot_file(vm, snap))),
{
    reveal(effect);
}

/// A disk that is made larger has the size that was asked for, its file system fills it,
/// and it holds what it held.
pub proof fn law_a_larger_disk_is_filled(
    s: MacosStorage,
    vm: Seq<char>,
    bytes: u64,
    w: Files,
)
    requires
        w.all.contains_key(s.rootfs(vm)),
    ensures
        ({
            let done = run(w, s.resizing(vm, bytes));
            let disk = s.rootfs(vm);
            &&& done is Some
            &&& done->0.all.contains_key(disk)
            &&& done->0.all[disk].bytes == bytes
            &&& done->0.all[disk].filled == bytes
            &&& done->0.all[disk].holds == w.all[disk].holds
            &&& done->0.all.remove(disk) == w.all.remove(disk)
        }),
{
    let p = s.resizing(vm, bytes);
    let disk = s.rootfs(vm);
    lemma_dec_parsed(bytes as nat, u64::MAX as nat);
    lemma_take(w, p);
    let x = w.with(disk, File { bytes: bytes as nat, checked: false, ..w.all[disk] });
    let y = x.with(disk, File { checked: true, ..x.all[disk] });
    let z = y.with(disk, File { filled: bytes as nat, ..y.all[disk] });
    assert(effect(w, p[0].action) == Some(x)) by {
        reveal(effect);
    }
    assert(effect(x, p[1].action) == Some(y)) by {
        reveal(effect);
    }
    assert(effect(y, p[2].action) == Some(z)) by {
        reveal(effect);
    }
    assert(run(w, p.take(1)) == Some(x));
    assert(run(w, p.take(2)) == Some(y));
    assert(run(w, p.take(3)) == Some(z));
    assert(z.all.remove(disk) =~= w.all.remove(disk));
}

/// The directories that an installation needs are all made.
pub proof fn law_the_directories_are_made(state_dir: Seq<char>, w: Files)
    ensures
        ({
            let done = run(w, made_dirs(state_dirs(state_dir), 4));
            &&& done is Some && done->0.all == w.all
            &&& done->0.dirs.contains(joined(joined(state_dir, "images"@), "data"@))
            &&& done->0.dirs.contains(joined(state_dir, "vms"@))
            &&& done->0.dirs.contains(joined(state_dir, "kernels"@))
            &&& done->0.dirs.contains(joined(state_dir, "network"@))
        }),
{
    let dirs = state_dirs(state_dir);
    lemma_dirs(dirs, 4, w);
    let done = run(w, made_dirs(dirs, 4))->0;
    assert(done.dirs.contains(dirs[0]));
    assert(done.dirs.contains(dirs[1]));
    assert(done.dirs.contains(dirs[2]));
    assert(done.dirs.contains(dirs[3]));
}

proof fn lemma_dirs(dirs: Seq<Seq<char>>, n: int, w: Files)
    requires
        0 <= n <= dirs.len(),
    ensures
        run(w, made_dirs(dirs, n)) is Some,
        run(w, made_dirs(dirs, n))->0.all == w.all,
        forall|i: int|
            0 <= i < n ==> run(w, made_dirs(dirs, n))->0.dirs.contains(#[trigger] dirs[i]),
    decreases n,
{
    if n > 0 {
        lemma_dirs(dirs, n - 1, w);
        let p = made_dirs(dirs, n);
        let before = made_dirs(dirs, n - 1);
        assert(p.drop_last().drop_last() =~= before);
        assert(p.drop_last().last().action == FileView::MakeDirs(dirs[n - 1]));
        let x = run(w, before)->0;
        let y = Files { dirs: x.dirs.insert(dirs[n - 1]), ..x };
        assert(effect(x, p.drop_last().last().action) == Some(y)) by {
            reveal(effect);
        }
        assert(effect(y, p.last().action) == Some(y)) by {
            reveal(effect);
        }
        assert(run(w, p.drop_last()) == Some(y));
    }
}

// ---------------------------------------------------------------------
// Images
// ---------------------------------------------------------------------

/// What the calls that make an image come to: the bytes of the file, and the directory
/// that its file system holds with the record of who owns what there.
pub struct Made {
    pub bytes: Option<nat>,
    pub holds: Option<(Seq<char>, Option<Seq<char>>)>,
}

/// The bytes that a size in the words of the tool stands for.
pub open spec fn mebibytes(t: Seq<char>) -> Option<nat> {
    if t.len() > 0 && t.last() == 'm' {
        match parsed(t.drop_last(), u64::MAX as nat) {
            Some(n) => Some(n * 1048576),
            None => None,
        }
    } else {
        None
    }
}

/// The call that a call runs in its turn, with the record of who owns what that it runs
/// it under.
pub open spec fn told(call: InvocationView) -> (Seq<Seq<char>>, Option<Seq<char>>) {
    let a = call.args;
    if call.program == "fakeroot"@ && a.len() >= 4 && a[0] == "-i"@ && a[2] == "--"@ {
        (a.skip(3), Some(a[1]))
    } else {
        (seq![call.program] + a, None)
    }
}

/// What one call makes of an image at a path; `None` where it cannot be done. A file
/// system goes into a file that has a size.
pub open spec fn called(
    w: Made,
    image: Seq<char>,
    mkfs: Seq<char>,
    call: InvocationView,
) -> Option<Made> {
    let (a, owners) = told(call);
    if call.program == "truncate"@ && call.args.len() == 3 && call.args[0] == "-s"@
        && call.args[2] == image && mebibytes(call.args[1]) is Some {
        Some(Made { bytes: mebibytes(call.args[1]), ..w })
    } else if a.len() >= 3 && a[0] == mkfs && a.last() == image && w.bytes is Some && a[a.len() - 3]
        == "-d"@ {
        Some(Made { holds: Some((a[a.len() - 2], owners)), ..w })
    } else {
        None
    }
}

/// An image that is made has the size that was asked for and holds what the directory
/// holds, with the owners that were recorded of it where they were. Each call is needed.
pub proof fn law_an_image_holds_its_directory(
    dir: Seq<char>,
    image: Seq<char>,
    size_mib: u64,
    mkfs: Seq<char>,
    owned: bool,
)
    requires
        mkfs != "truncate"@,
        mkfs != "fakeroot"@,
    ensures
        ({
            let p = making(dir, image, size_mib, mkfs, owned);
            let none = Made { bytes: None, holds: None };
            let sized = called(none, image, mkfs, p[0].action);
            let done = called(sized->0, image, mkfs, p[1].action);
            &&& p.len() == 2 && !p[0].tolerate && !p[1].tolerate
            &&& sized is Some && done is Some
            &&& done->0.bytes == Some((size_mib * 1048576) as nat)
            &&& done->0.holds == Some(
                (
                    dir,
                    if owned {
                        Some(ownership_of(dir))
                    } else {
                        None
                    },
                ),
            )
        }),
{
    reveal_strlit("m");
    reveal_strlit("fakeroot");
    reveal_strlit("truncate");
    assert("fakeroot"@[0] == 'f');
    assert("truncate"@[0] == 't');
    let n = size_mib as nat;
    lemma_dec_parsed(n, u64::MAX as nat);
    assert((dec(n) + "m"@).drop_last() =~= dec(n));
    let p = making(dir, image, size_mib, mkfs, owned);
    let call = p[1].action;
    let (a, owners) = told(call);
    let common = seq!["-F"@, "-q"@, "-i"@, "8192"@, "-m"@, "0"@, "-d"@, dir, image];
    if owned {
        let state = ownership_of(dir);
        let all = seq!["-i"@, state, "--"@, mkfs] + common;
        assert(call.args =~= all);
        assert(a =~= seq![mkfs] + common);
    } else {
        assert(a =~= seq![mkfs] + common);
    }
    assert(a.len() == 10);
    assert(a[7] == "-d"@ && a[8] == dir && a[9] == image);
}

} // verus!
