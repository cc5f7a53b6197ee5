//! The disks of machines and images, as files that share what they have in
//! common.

use vstd::prelude::*;
use vstd::seq_lib::group_to_multiset_ensures;
use vstd::string::*;

use crate::backend::SnapshotInfo;
use crate::command::{Invocation, InvocationView};
use crate::config::{opt_str, GlobalConfig};
use crate::error::{Error, ErrorView};
use crate::path::{join, joined, parent, parent_of};
use crate::procedure::{
    must, must_or, no_steps, plan, then_must, then_must_or, Step, StepView,
};
use crate::size::ByteSize;
use crate::text::{
    around, chars_of, contains, dec, decimal, find_from, is_first, lines, lines_of, lowered, occurs,
    opt_text, parse_u32, parsed, pieces, same, split, split_once, split_words, stands_at, strip_prefix,
    has_prefix, text_of, texts, to_lower, trim, trimmed, words,
};

verus! {

/// Something to do to files.
#[derive(Debug, PartialEq)]
pub enum FileAction {
    /// Make a directory with all above it.
    MakeDirs(String),
    /// Move a file, the first, to the second place, by copying it where it
    /// cannot be renamed.
    Move(String, String),
    /// Make a copy, the second, that shares what it has in common with the
    /// first.
    CloneFile(String, String),
    /// Rename a file.
    Rename(String, String),
    RemoveFile(String),
    /// Remove a directory with all in it.
    RemoveDirs(String),
    Run(Invocation),
    /// Check a file system, and mend it.
    CheckFilesystem(String),
    /// Make a file system fill its file.
    GrowFilesystem(String),
    /// Tell the user.
    Say(String),
    /// Tell the user that something is not as it should be.
    Warn(String),
    /// Fail with this error.
    Refuse(Error),
}

/// A [`FileAction`], its strings taken by their texts.
#[verifier::ext_equal]
pub enum FileView {
    MakeDirs(Seq<char>),
    Move(Seq<char>, Seq<char>),
    CloneFile(Seq<char>, Seq<char>),
    Rename(Seq<char>, Seq<char>),
    RemoveFile(Seq<char>),
    RemoveDirs(Seq<char>),
    Run(InvocationView),
    CheckFilesystem(Seq<char>),
    GrowFilesystem(Seq<char>),
    Say(Seq<char>),
    Warn(Seq<char>),
    Refuse(ErrorView),
}

impl View for FileAction {
    type V = FileView;

    open spec fn view(&self) -> FileView {
        match self {
            FileAction::MakeDirs(p) => FileView::MakeDirs(p@),
            FileAction::Move(a, b) => FileView::Move(a@, b@),
            FileAction::CloneFile(a, b) => FileView::CloneFile(a@, b@),
            FileAction::Rename(a, b) => FileView::Rename(a@, b@),
            FileAction::RemoveFile(p) => FileView::RemoveFile(p@),
            FileAction::RemoveDirs(p) => FileView::RemoveDirs(p@),
            FileAction::Run(i) => FileView::Run(i@),
            FileAction::CheckFilesystem(p) => FileView::CheckFilesystem(p@),
            FileAction::GrowFilesystem(p) => FileView::GrowFilesystem(p@),
            FileAction::Say(t) => FileView::Say(t@),
            FileAction::Warn(t) => FileView::Warn(t@),
            FileAction::Refuse(e) => FileView::Refuse(e@),
        }
    }
}

/// The files of an installation.
#[derive(Debug)]
pub struct MacosStorage {
    pub state_dir: String,
}

/// The directories of an installation.
pub open spec fn state_dirs(state_dir: Seq<char>) -> Seq<Seq<char>> {
    seq![
        joined(joined(state_dir, "images"@), "data"@),
        joined(state_dir, "vms"@),
        joined(state_dir, "kernels"@),
        joined(state_dir, "network"@),
    ]
}

/// How the first `n` directories are made.
pub open spec fn made_dirs(dirs: Seq<Seq<char>>, n: int) -> Seq<StepView<FileView>>
    decreases n,
{
    if n <= 0 {
        seq![]
    } else {
        made_dirs(dirs, n - 1) + seq![
            must(FileView::MakeDirs(dirs[n - 1])),
            must(FileView::Say("Created "@ + dirs[n - 1])),
        ]
    }
}

/// A warning, where there is one.
pub open spec fn warned(w: Option<Seq<char>>) -> Seq<StepView<FileView>> {
    match w {
        Some(t) => seq![must(FileView::Warn(t))],
        None => seq![],
    }
}

/// A file of a directory, with when it was changed and its size.
#[derive(Debug)]
pub struct DirEntry {
    pub file_name: String,
    pub modified: u64,
    pub len: u64,
}

/// Whether a file is a snapshot: its name ends in `.img`, with something before
/// that.
pub open spec fn is_snapshot_file(name: Seq<char>) -> bool {
    name.len() > 4 && name.skip(name.len() - 4) == ".img"@
}

/// A snapshot: its name, when it was made and its size.
pub type Shown = (Seq<char>, u64, u64);

/// What a file says of the snapshot that it is.
pub open spec fn as_snapshot(e: DirEntry) -> Shown {
    (e.file_name@.take(e.file_name@.len() - 4), e.modified, e.len)
}

/// A snapshot among others in the order in which they were made: behind all that
/// are not younger.
pub open spec fn placed(list: Seq<Shown>, x: Shown) -> Seq<Shown>
    decreases list.len(),
{
    if list.len() == 0 || list.last().1 <= x.1 {
        list.push(x)
    } else {
        placed(list.drop_last(), x).push(list.last())
    }
}

/// The snapshots among files, in the order in which they were made.
pub open spec fn snapshots_of(entries: Seq<DirEntry>) -> Seq<Shown>
    decreases entries.len(),
{
    if entries.len() == 0 {
        seq![]
    } else if is_snapshot_file(entries.last().file_name@) {
        placed(snapshots_of(entries.drop_last()), as_snapshot(entries.last()))
    } else {
        snapshots_of(entries.drop_last())
    }
}

/// A list of snapshots, as they are shown.
pub open spec fn shown_all(list: Seq<SnapshotInfo>) -> Seq<Shown> {
    list.map_values(|s: SnapshotInfo| (s.name@, s.created_at, s.size))
}

/// Whether the snapshots are in the order in which they were made.
pub open spec fn by_age(list: Seq<Shown>) -> bool {
    forall|i: int, j: int| 0 <= i <= j < list.len() ==> (#[trigger] list[i]).1 <= (#[trigger] list[j]).1
}

/// Whether no snapshot was made later than `m`.
spec fn none_younger(list: Seq<Shown>, m: u64) -> bool {
    forall|i: int| 0 <= i < list.len() ==> (#[trigger] list[i]).1 <= m
}

proof fn lemma_placed(list: Seq<Shown>, x: Shown)
    requires
        by_age(list),
    ensures
        by_age(placed(list, x)),
        placed(list, x).to_multiset() == list.to_multiset().insert(x),
        forall|m: u64| #[trigger]
            none_younger(list, m) && x.1 <= m ==> none_younger(placed(list, x), m),
    decreases list.len(),
{
    broadcast use vstd::seq_lib::group_to_multiset_ensures;

    if list.len() == 0 || list.last().1 <= x.1 {
        let p = list.push(x);
        assert(by_age(p)) by {
            assert forall|i: int, j: int| 0 <= i <= j < p.len() implies (#[trigger] p[i]).1 <= (
            #[trigger] p[j]).1 by {
                if j == list.len() && i < j {
                    assert(list[i].1 <= list[list.len() - 1].1);
                }
            }
        }
    } else {
        let less = list.drop_last();
        assert(by_age(less));
        lemma_placed(less, x);
        let q = placed(less, x);
        let p = q.push(list.last());
        assert(none_younger(less, list.last().1)) by {
            assert forall|i: int| 0 <= i < less.len() implies (#[trigger] less[i]).1
                <= list.last().1 by {
                assert(list[i].1 <= list[list.len() - 1].1);
            }
        }
        assert(none_younger(q, list.last().1));
        assert(by_age(p)) by {
            assert forall|i: int, j: int| 0 <= i <= j < p.len() implies (#[trigger] p[i]).1 <= (
            #[trigger] p[j]).1 by {
                if j < q.len() {
                    assert(q[i].1 <= q[j].1);
                } else if i < q.len() {
                    assert(q[i].1 <= list.last().1);
                }
            }
        }
        assert(list =~= less.push(list.last()));
        assert(p.to_multiset() =~= list.to_multiset().insert(x));
        assert forall|m: u64| #[trigger] none_younger(list, m) && x.1 <= m implies none_younger(
            p,
            m,
        ) by {
            assert(none_younger(less, m)) by {
                assert forall|i: int| 0 <= i < less.len() implies (#[trigger] less[i]).1 <= m by {
                    assert(list[i].1 <= m);
                }
            }
            assert(none_younger(q, m));
            assert(list[list.len() - 1].1 <= m);
        }
    }
}

/// The snapshots come in the order in which they were made.
pub proof fn law_snapshots_by_age(entries: Seq<DirEntry>)
    ensures
        by_age(snapshots_of(entries)),
    decreases entries.len(),
{
    if entries.len() > 0 {
        law_snapshots_by_age(entries.drop_last());
        if is_snapshot_file(entries.last().file_name@) {
            lemma_placed(snapshots_of(entries.drop_last()), as_snapshot(entries.last()));
        }
    }
}

/// The snapshots in a directory, in the order in which it gives its files.
pub open spec fn kept_in(entries: Seq<DirEntry>) -> Seq<Shown> {
    entries.filter(|e: DirEntry| is_snapshot_file(e.file_name@)).map_values(
        |e: DirEntry| as_snapshot(e),
    )
}

/// Every snapshot is listed, and none that is not there.
pub proof fn law_every_snapshot_is_listed(entries: Seq<DirEntry>)
    ensures
        snapshots_of(entries).to_multiset() == kept_in(entries).to_multiset(),
    decreases entries.len(),
{
    broadcast use group_to_multiset_ensures;

    reveal(Seq::filter);
    if entries.len() > 0 {
        law_every_snapshot_is_listed(entries.drop_last());
        if is_snapshot_file(entries.last().file_name@) {
            let x = as_snapshot(entries.last());
            law_snapshots_by_age(entries.drop_last());
            lemma_placed(snapshots_of(entries.drop_last()), x);
            assert(kept_in(entries) =~= kept_in(entries.drop_last()).push(x));
        }
    } else {
        assert(kept_in(entries) =~= seq![]);
    }
}

fn place(list: &mut Vec<SnapshotInfo>, x: SnapshotInfo)
    ensures
        shown_all(final(list)@) == placed(
            shown_all(old(list)@),
            (x.name@, x.created_at, x.size),
        ),
{
    let ghost before = shown_all(list@);
    let ghost s = (x.name@, x.created_at, x.size);
    let mut at: usize = list.len();
    assert(before.take(at as int) =~= before);
    assert(before.skip(at as int) =~= seq![]);
    assert(placed(before, s) =~= placed(before.take(at as int), s) + before.skip(at as int));
    while at > 0 && list[at - 1].created_at > x.created_at
        invariant
            at <= list.len(),
            before == shown_all(list@),
            s == (x.name@, x.created_at, x.size),
            placed(before, s) == placed(before.take(at as int), s) + before.skip(at as int),
        decreases at,
    {
        let ghost cut = before.take(at as int);
        assert(cut.drop_last() =~= before.take(at - 1));
        assert(cut.last() == before[at - 1]);
        assert(before[at - 1].1 == list@[at - 1].created_at);
        assert(placed(cut, s) == placed(cut.drop_last(), s).push(cut.last()));
        assert(placed(cut.drop_last(), s).push(cut.last()) + before.skip(at as int) =~= placed(
            before.take(at - 1),
            s,
        ) + before.skip(at - 1));
        at = at - 1;
    }
    proof {
        let cut = before.take(at as int);
        if at > 0 {
            assert(cut.last() == before[at - 1]);
            assert(before[at - 1].1 == list@[at - 1].created_at);
        }
        assert(placed(cut, s) == cut.push(s));
    }
    list.insert(at, x);
    assert(shown_all(list@) =~= before.take(at as int).push(s) + before.skip(at as int));
}

impl MacosStorage {
    /// The files of an installation.
    pub fn new(config: &GlobalConfig) -> (r: MacosStorage)
        ensures
            r.state_dir@ == config.state_dir@,
    {
        MacosStorage { state_dir: config.state_dir.clone() }
    }

    /// Where the images lie.
    pub open spec fn images(self) -> Seq<char> {
        joined(joined(self.state_dir@, "images"@), "data"@)
    }

    /// Where all about a machine lies.
    pub open spec fn vm(self, name: Seq<char>) -> Seq<char> {
        joined(joined(self.state_dir@, "vms"@), name)
    }

    /// The disk of a machine.
    pub open spec fn rootfs(self, name: Seq<char>) -> Seq<char> {
        joined(self.vm(name), "rootfs.img"@)
    }

    /// Where the snapshots of a machine lie.
    pub open spec fn snapshots(self, name: Seq<char>) -> Seq<char> {
        joined(self.vm(name), "snapshots"@)
    }

    /// A snapshot of a machine.
    pub open spec fn snapshot_file(self, name: Seq<char>, snap: Seq<char>) -> Seq<char> {
        joined(self.snapshots(name), snap + ".img"@)
    }

    /// The disk of an image.
    pub open spec fn image(self, name: Seq<char>) -> Seq<char> {
        joined(self.images(), name + ".img"@)
    }

    /// Where the images lie.
    pub fn images_dir(&self) -> (r: String)
        ensures
            r@ == self.images(),
    {
        let d = join(self.state_dir.as_str(), "images");
        join(d.as_str(), "data")
    }

    /// Where the machines lie.
    pub fn vms_dir(&self) -> (r: String)
        ensures
            r@ == joined(self.state_dir@, "vms"@),
    {
        join(self.state_dir.as_str(), "vms")
    }

    /// Where all about a machine lies.
    pub fn vm_dir(&self, vm_name: &str) -> (r: String)
        ensures
            r@ == self.vm(vm_name@),
    {
        let d = self.vms_dir();
        join(d.as_str(), vm_name)
    }

    /// The disk of a machine.
    pub fn vm_rootfs(&self, vm_name: &str) -> (r: String)
        ensures
            r@ == self.rootfs(vm_name@),
    {
        let d = self.vm_dir(vm_name);
        join(d.as_str(), "rootfs.img")
    }

    /// Where the snapshots of a machine lie.
    pub fn vm_snapshots_dir(&self, vm_name: &str) -> (r: String)
        ensures
            r@ == self.snapshots(vm_name@),
    {
        let d = self.vm_dir(vm_name);
        join(d.as_str(), "snapshots")
    }

    /// A snapshot of a machine.
    pub fn snapshot_path(&self, vm_name: &str, snap_name: &str) -> (r: String)
        ensures
            r@ == self.snapshot_file(vm_name@, snap_name@),
    {
        let d = self.vm_snapshots_dir(vm_name);
        let f = snap_name.to_owned().concat(".img");
        join(d.as_str(), f.as_str())
    }

    /// The disk of an image.
    pub fn image_path(&self, name: &str) -> (r: String)
        ensures
            r@ == self.image(name@),
    {
        let d = self.images_dir();
        let f = name.to_owned().concat(".img");
        join(d.as_str(), f.as_str())
    }

    /// How the directories of an installation are made. `plist` is the description of
    /// the volume that it is on, where there is one.
    pub fn init(state_dir: &str, plist: Option<&str>) -> (r: Vec<Step<FileAction>>)
        requires
            plist matches Some(p) ==> tags_in_order(p@),
        ensures
            exists|w: Option<Seq<char>>|
                {
                    &&& #[trigger] apfs_warning(state_dir@, opt_str(plist), w)
                    &&& plan(r@) == warned(w) + made_dirs(state_dirs(state_dir@), 4)
                },
    {
        let warning = check_apfs_volume(state_dir, plist);
        let ghost w = opt_text(warning);
        let mut steps: Vec<Step<FileAction>> = no_steps();
        match warning {
            Some(t) => {
                steps = then_must(steps, FileAction::Warn(t));
            },
            None => {},
        }
        assert(plan(steps@) =~= warned(w));
        let images = join(state_dir, "images");
        let mut dirs: Vec<String> = Vec::new();
        dirs.push(join(images.as_str(), "data"));
        dirs.push(join(state_dir, "vms"));
        dirs.push(join(state_dir, "kernels"));
        dirs.push(join(state_dir, "network"));
        assert(texts(dirs@) =~= state_dirs(state_dir@));
        let mut i: usize = 0;
        assert(plan(steps@) =~= warned(w) + made_dirs(state_dirs(state_dir@), 0));
        while i < dirs.len()
            invariant
                i <= dirs.len(),
                texts(dirs@) == state_dirs(state_dir@),
                plan(steps@) == warned(w) + made_dirs(state_dirs(state_dir@), i as int),
            decreases dirs.len() - i,
        {
            assert(texts(dirs@)[i as int] == dirs@[i as int]@);
            let t = "Created ".to_owned().concat(dirs[i].as_str());
            steps = then_must(steps, FileAction::MakeDirs(dirs[i].clone()));
            steps = then_must(steps, FileAction::Say(t));
            assert(plan(steps@) =~= warned(w) + made_dirs(state_dirs(state_dir@), i + 1));
            i = i + 1;
        }
        assert(texts(dirs@).len() == 4);
        steps
    }

    /// How an image is taken over.
    pub open spec fn image_taking(self, name: Seq<char>, image_path: Seq<char>) -> Seq<
        StepView<FileView>,
    > {
        (match parent_of(self.image(name)) {
            Some(dir) => seq![must(FileView::MakeDirs(dir))],
            None => seq![],
        }) + seq![must(FileView::Move(image_path, self.image(name)))]
    }

    /// How the disk of a machine is made from that of an image.
    pub open spec fn machine_cloning(self, image: Seq<char>, vm: Seq<char>) -> Seq<
        StepView<FileView>,
    > {
        seq![
            must(FileView::MakeDirs(self.vm(vm))),
            must(FileView::MakeDirs(self.snapshots(vm))),
            must(FileView::CloneFile(self.image(image), self.rootfs(vm))),
        ]
    }

    /// How a machine is put back to a snapshot.
    pub open spec fn restoring(self, vm: Seq<char>, snap: Seq<char>, leftover: bool) -> Seq<
        StepView<FileView>,
    > {
        let copy = joined(self.vm(vm), "rootfs.img.restoring"@);
        (if leftover {
            seq![must(FileView::RemoveFile(copy))]
        } else {
            seq![]
        }) + seq![
            must(FileView::CloneFile(self.snapshot_file(vm, snap), copy)),
            must(FileView::Rename(copy, self.rootfs(vm))),
        ]
    }

    /// How a snapshot is deleted.
    pub open spec fn dropping(self, vm: Seq<char>, snap: Seq<char>) -> FileView {
        FileView::RemoveFile(self.snapshot_file(vm, snap))
    }

    /// How the disk of a machine is made larger.
    pub open spec fn resizing(self, vm: Seq<char>, bytes: u64) -> Seq<StepView<FileView>> {
        seq![
            must(
                FileView::Run(
                    InvocationView {
                        program: "truncate"@,
                        args: seq!["-s"@, dec(bytes as nat), self.rootfs(vm)],
                        label: "truncate"@,
                        start_label: "truncate"@,
                    },
                ),
            ),
            must(FileView::CheckFilesystem(self.rootfs(vm))),
            must(FileView::GrowFilesystem(self.rootfs(vm))),
        ]
    }

    /// How the disk of a machine is made from that of another.
    pub open spec fn forking(
        self,
        source: Seq<char>,
        snap: Seq<char>,
        target: Seq<char>,
        taken: bool,
    ) -> Seq<StepView<FileView>> {
        self.snapshot_plan(source, snap, taken) + seq![
            must(FileView::MakeDirs(self.vm(target))),
            must(FileView::MakeDirs(self.snapshots(target))),
            must_or(
                FileView::CloneFile(self.snapshot_file(source, snap), self.rootfs(target)),
                seq![FileView::RemoveFile(self.snapshot_file(source, snap))],
            ),
        ]
    }

    /// How an image is taken over, and where it then lies. The directory that it is
    /// to lie in is made first.
    pub fn create_image_volume(&self, name: &str, image_path: &str) -> (r: (
        Vec<Step<FileAction>>,
        String,
    ))
        ensures
            plan(r.0@) == self.image_taking(name@, image_path@),
            r.1@ == self.image(name@),
    {
        let dest = self.image_path(name);
        let mut steps: Vec<Step<FileAction>> = no_steps();
        match parent(dest.as_str()) {
            Some(dir) => {
                steps = then_must(steps, FileAction::MakeDirs(dir));
            },
            None => {},
        }
        let ghost first = plan(steps@);
        assert(first =~= match parent_of(self.image(name@)) {
            Some(dir) => seq![must(FileView::MakeDirs(dir))],
            None => seq![],
        });
        steps = then_must(steps, FileAction::Move(image_path.to_owned(), dest.clone()));
        assert(plan(steps@) =~= first + seq![
            must(FileView::Move(image_path@, self.image(name@))),
        ]);
        (steps, dest)
    }

    /// How the disk of a machine is made from that of an image, and where it
    /// lies.
    pub fn clone_for_vm(&self, image_name: &str, vm_name: &str, image_exists: bool) -> (r: Result<
        (Vec<Step<FileAction>>, String),
        Error,
    >)
        ensures
            match r {
                Ok((steps, dest)) => {
                    &&& image_exists
                    &&& plan(steps@) == self.machine_cloning(image_name@, vm_name@)
                    &&& dest@ == self.rootfs(vm_name@)
                },
                Err(e) => !image_exists && e@ == ErrorView::Image(
                    "base image not found: "@ + self.image(image_name@),
                ),
            },
    {
        let src = self.image_path(image_name);
        if !image_exists {
            return Err(Error::Image("base image not found: ".to_owned().concat(src.as_str())));
        }
        let dest = self.vm_rootfs(vm_name);
        let steps = then_must(no_steps(), FileAction::MakeDirs(self.vm_dir(vm_name)));
        let steps = then_must(steps, FileAction::MakeDirs(self.vm_snapshots_dir(vm_name)));
        let steps = then_must(steps, FileAction::CloneFile(src, dest.clone()));
        Ok((steps, dest))
    }

    /// How a snapshot is taken.
    pub open spec fn snapshot_plan(self, vm_name: Seq<char>, snap: Seq<char>, taken: bool) -> Seq<
        StepView<FileView>,
    > {
        seq![
            must(FileView::MakeDirs(self.snapshots(vm_name))),
            must(
                if taken {
                    FileView::Refuse(
                        ErrorView::Image(
                            "snapshot '"@ + snap + "' already exists for VM '"@ + vm_name + "'"@,
                        ),
                    )
                } else {
                    FileView::CloneFile(self.rootfs(vm_name), self.snapshot_file(vm_name, snap))
                },
            ),
        ]
    }

    /// The error for a machine without a disk.
    pub open spec fn no_rootfs(self, vm_name: Seq<char>) -> ErrorView {
        ErrorView::Image("VM rootfs not found: "@ + self.rootfs(vm_name))
    }

    /// How a snapshot of a machine is taken. The flags say whether the machine
    /// has a disk, and whether the name is taken.
    pub fn snapshot(&self, vm_name: &str, snap_name: &str, disk_exists: bool, taken: bool) -> (r:
        Result<Vec<Step<FileAction>>, Error>)
        ensures
            match r {
                Ok(steps) => disk_exists && plan(steps@) == self.snapshot_plan(
                    vm_name@,
                    snap_name@,
                    taken,
                ),
                Err(e) => !disk_exists && e@ == self.no_rootfs(vm_name@),
            },
    {
        let src = self.vm_rootfs(vm_name);
        if !disk_exists {
            return Err(Error::Image("VM rootfs not found: ".to_owned().concat(src.as_str())));
        }
        let steps = then_must(no_steps(), FileAction::MakeDirs(self.vm_snapshots_dir(vm_name)));
        if taken {
            let why = "snapshot '".to_owned().concat(snap_name).concat(
                "' already exists for VM '",
            ).concat(vm_name).concat("'");
            Ok(then_must(steps, FileAction::Refuse(Error::Image(why))))
        } else {
            Ok(
                then_must(
                    steps,
                    FileAction::CloneFile(src, self.snapshot_path(vm_name, snap_name)),
                ),
            )
        }
    }

    /// The error for a snapshot that is not there.
    pub open spec fn no_snapshot(vm_name: Seq<char>, snap: Seq<char>) -> ErrorView {
        ErrorView::Image("snapshot '"@ + snap + "' not found for VM '"@ + vm_name + "'"@)
    }

    fn missing_snapshot(vm_name: &str, snap_name: &str) -> (r: Error)
        ensures
            r@ == MacosStorage::no_snapshot(vm_name@, snap_name@),
    {
        Error::Image(
            "snapshot '".to_owned().concat(snap_name).concat("' not found for VM '").concat(
                vm_name,
            ).concat("'"),
        )
    }

    /// How a machine is put back to a snapshot: a copy of it is made, and takes
    /// the place of the disk at once. `leftover` says whether an earlier copy is
    /// in the way.
    pub fn restore_snapshot(
        &self,
        vm_name: &str,
        snap_name: &str,
        snapshot_exists: bool,
        leftover: bool,
    ) -> (r: Result<Vec<Step<FileAction>>, Error>)
        ensures
            match r {
                Ok(steps) => snapshot_exists && plan(steps@) == self.restoring(
                    vm_name@,
                    snap_name@,
                    leftover,
                ),
                Err(e) => !snapshot_exists && e@ == MacosStorage::no_snapshot(
                    vm_name@,
                    snap_name@,
                ),
            },
    {
        if !snapshot_exists {
            return Err(MacosStorage::missing_snapshot(vm_name, snap_name));
        }
        let dir = self.vm_dir(vm_name);
        let copy = join(dir.as_str(), "rootfs.img.restoring");
        let mut steps: Vec<Step<FileAction>> = no_steps();
        if leftover {
            steps = then_must(steps, FileAction::RemoveFile(copy.clone()));
        }
        steps = then_must(
            steps,
            FileAction::CloneFile(self.snapshot_path(vm_name, snap_name), copy.clone()),
        );
        steps = then_must(steps, FileAction::Rename(copy, self.vm_rootfs(vm_name)));
        Ok(steps)
    }

    /// How a snapshot is deleted.
    pub fn delete_snapshot(&self, vm_name: &str, snap_name: &str, snapshot_exists: bool) -> (r:
        Result<FileAction, Error>)
        ensures
            match r {
                Ok(a) => snapshot_exists && a@ == self.dropping(vm_name@, snap_name@),
                Err(e) => !snapshot_exists && e@ == MacosStorage::no_snapshot(
                    vm_name@,
                    snap_name@,
                ),
            },
    {
        if !snapshot_exists {
            return Err(MacosStorage::missing_snapshot(vm_name, snap_name));
        }
        Ok(FileAction::RemoveFile(self.snapshot_path(vm_name, snap_name)))
    }

    /// The snapshots among the files of the directory of snapshots, in the order
    /// in which they were made.
    pub fn list_snapshots(entries: &Vec<DirEntry>) -> (r: Vec<SnapshotInfo>)
        ensures
            shown_all(r@) == snapshots_of(entries@),
    {
        let mut r: Vec<SnapshotInfo> = Vec::new();
        let mut i: usize = 0;
        assert(shown_all(r@) =~= seq![]);
        while i < entries.len()
            invariant
                i <= entries.len(),
                shown_all(r@) == snapshots_of(entries@.take(i as int)),
            decreases entries.len() - i,
        {
            assert(entries@.take(i + 1).drop_last() =~= entries@.take(i as int));
            let e = &entries[i];
            match stem(e.file_name.as_str()) {
                Some(name) => {
                    place(
                        &mut r,
                        SnapshotInfo { name, created_at: e.modified, size: e.len },
                    );
                },
                None => {},
            }
            i = i + 1;
        }
        assert(entries@.take(i as int) =~= entries@);
        r
    }

    /// How the disk of a machine is made larger, with the file system on it.
    pub fn resize(&self, vm_name: &str, new_size: ByteSize, disk_exists: bool) -> (r: Result<
        Vec<Step<FileAction>>,
        Error,
    >)
        ensures
            match r {
                Ok(steps) => disk_exists && plan(steps@) == self.resizing(
                    vm_name@,
                    new_size.bytes(),
                ),
                Err(e) => !disk_exists && e@ == self.no_rootfs(vm_name@),
            },
    {
        let disk = self.vm_rootfs(vm_name);
        if !disk_exists {
            return Err(Error::Image("VM rootfs not found: ".to_owned().concat(disk.as_str())));
        }
        let bytes = decimal(new_size.bytes());
        let call = Invocation::new("truncate", "truncate").arg("-s").arg(bytes.as_str()).arg(
            disk.as_str(),
        );
        assert(call@.args =~= seq!["-s"@, bytes@, disk@]);
        let steps = then_must(no_steps(), FileAction::Run(call));
        let steps = then_must(steps, FileAction::CheckFilesystem(disk.clone()));
        Ok(then_must(steps, FileAction::GrowFilesystem(disk)))
    }

    /// How the disk of a machine is destroyed, with its snapshots.
    pub fn destroy_vm_storage(&self, vm_name: &str, there: bool) -> (r: Option<FileAction>)
        ensures
            r is Some <==> there,
            r matches Some(a) ==> a@ == FileView::RemoveDirs(self.vm(vm_name@)),
    {
        if there {
            Some(FileAction::RemoveDirs(self.vm_dir(vm_name)))
        } else {
            None
        }
    }

    /// How the disk of an image is destroyed.
    pub fn destroy_image_storage(&self, name: &str, there: bool) -> (r: Option<FileAction>)
        ensures
            r is Some <==> there,
            r matches Some(a) ==> a@ == FileView::RemoveFile(self.image(name@)),
    {
        if there {
            Some(FileAction::RemoveFile(self.image_path(name)))
        } else {
            None
        }
    }

    /// The disk of a machine.
    pub fn disk_device_path(&self, vm_name: &str) -> (r: String)
        ensures
            r@ == self.rootfs(vm_name@),
    {
        self.vm_rootfs(vm_name)
    }

    /// How the disk of a machine is made from that of another: a snapshot is
    /// taken and cloned, and deleted again when it cannot be cloned. Where the
    /// disk lies and what it was cloned from come with it.
    pub fn clone_from_snapshot(
        &self,
        source_vm: &str,
        snap_name: &str,
        target_vm: &str,
        disk_exists: bool,
        taken: bool,
    ) -> (r: Result<(Vec<Step<FileAction>>, String, String), Error>)
        ensures
            match r {
                Ok((steps, disk, origin)) => {
                    &&& disk_exists
                    &&& plan(steps@) == self.forking(source_vm@, snap_name@, target_vm@, taken)
                    &&& disk@ == self.rootfs(target_vm@)
                    &&& origin@ == source_vm@ + "/"@ + snap_name@
                },
                Err(e) => !disk_exists && e@ == self.no_rootfs(source_vm@),
            },
    {
        let steps = match self.snapshot(source_vm, snap_name, disk_exists, taken) {
            Ok(s) => s,
            Err(e) => {
                return Err(e);
            },
        };
        let snap = self.snapshot_path(source_vm, snap_name);
        let disk = self.vm_rootfs(target_vm);
        let steps = then_must(steps, FileAction::MakeDirs(self.vm_dir(target_vm)));
        let steps = then_must(steps, FileAction::MakeDirs(self.vm_snapshots_dir(target_vm)));
        let steps = then_must_or(
            steps,
            FileAction::CloneFile(snap.clone(), disk.clone()),
            FileAction::RemoveFile(snap),
        );
        let origin = source_vm.to_owned().concat("/").concat(snap_name);
        Ok((steps, disk, origin))
    }

    /// The machine and the snapshot that another was cloned from.
    pub fn destroy_fork_origin(fork_origin: &str) -> (r: Option<(&str, &str)>)
        ensures
            match (r, around(fork_origin@, '/')) {
                (None, None) => true,
                (Some((a, b)), Some((x, y))) => a@ == x && b@ == y,
                _ => false,
            },
    {
        split_once(fork_origin, '/')
    }

    /// The error for mounting, which macOS cannot do.
    pub fn mount() -> (r: Error)
        ensures
            r@ == ErrorView::Image(
                "ext4 mounting is not supported on macOS — macOS has no native ext4 filesystem support"@,
            ),
    {
        Error::Image(
            "ext4 mounting is not supported on macOS — macOS has no native ext4 filesystem support".to_owned(),
        )
    }

    /// The error for unmounting, which macOS cannot do.
    pub fn unmount() -> (r: Error)
        ensures
            r@ == ErrorView::Image("ext4 unmounting is not supported on macOS"@),
    {
        Error::Image("ext4 unmounting is not supported on macOS".to_owned())
    }
}

fn stem(name: &str) -> (r: Option<String>)
    ensures
        match r {
            Some(s) => is_snapshot_file(name@) && s@ == name@.take(name@.len() - 4),
            None => !is_snapshot_file(name@),
        },
{
    proof {
        reveal_strlit(".img");
    }
    let v = chars_of(name);
    if v.len() <= 4 {
        return None;
    }
    let n: usize = v.len() - 4;
    let tail = text_of(&v, n, v.len());
    assert(tail@ =~= name@.skip(n as int));
    if same(tail.as_str(), ".img") {
        let s = text_of(&v, 0, n);
        assert(s@ =~= name@.take(n as int));
        Some(s)
    } else {
        None
    }
}

// ---------------------------------------------------------------------
// The key of a user in an image
// ---------------------------------------------------------------------

/// The numbers of a user and of the group, or `None` when one of them is none.
pub open spec fn ids(uid: Seq<char>, gid: Seq<char>) -> Option<(u32, u32)> {
    match (parsed(uid, u32::MAX as nat), parsed(gid, u32::MAX as nat)) {
        (Some(u), Some(g)) => Some((u as u32, g as u32)),
        _ => None,
    }
}

fn parse_ids(uid: &str, gid: &str) -> (r: Option<(u32, u32)>)
    ensures
        r == ids(uid@, gid@),
{
    match (parse_u32(uid), parse_u32(gid)) {
        (Some(u), Some(g)) => Some((u, g)),
        _ => None,
    }
}

/// Whether a line of the file of users is about a user.
pub open spec fn is_about(line: Seq<char>, username: Seq<char>) -> bool {
    let f = pieces(line, ':');
    f.len() >= 4 && f[0] == username
}

/// The numbers of a user, as the first line about them has it.
pub open spec fn passwd_ids(l: Seq<Seq<char>>, username: Seq<char>) -> Option<(u32, u32)>
    decreases l.len(),
{
    if l.len() == 0 {
        None
    } else if is_about(l[0], username) {
        ids(pieces(l[0], ':')[2], pieces(l[0], ':')[3])
    } else {
        passwd_ids(l.skip(1), username)
    }
}

/// Reads the numbers of a user from the file of users.
pub fn read_passwd_uid_gid(passwd: &str, username: &str) -> (r: Option<(u32, u32)>)
    ensures
        r == passwd_ids(lines_of(passwd@), username@),
{
    let l = lines(passwd);
    let ghost all = lines_of(passwd@);
    let mut i: usize = 0;
    assert(all.skip(0) =~= all);
    while i < l.len()
        invariant
            i <= l.len(),
            texts(l@) == all,
            all == lines_of(passwd@),
            passwd_ids(all, username@) == passwd_ids(all.skip(i as int), username@),
        decreases l.len() - i,
    {
        assert(all[i as int] == l@[i as int]@);
        assert(all.skip(i as int)[0] == all[i as int]);
        assert(all.skip(i as int).skip(1) =~= all.skip(i + 1));
        let f = split(l[i].as_str(), ':');
        assert(texts(f@).len() == f@.len());
        assert(forall|k: int| 0 <= k < f@.len() ==> texts(f@)[k] == #[trigger] f@[k]@);
        if f.len() >= 4 && same(f[0].as_str(), username) {
            return parse_ids(f[2].as_str(), f[3].as_str());
        }
        i = i + 1;
    }
    None
}

/// Whether a line of the state of a file names its owner and group.
pub open spec fn names_owner(line: Seq<char>) -> bool {
    let t = trimmed(line);
    let p = words(t.skip("User:"@.len() as int));
    has_prefix(t, "User:"@) && p.len() >= 3 && p[1] == "Group:"@
}

/// The numbers of the owner and of the group of a file, as the first line that
/// names both has it.
pub open spec fn stat_ids(l: Seq<Seq<char>>) -> Option<(u32, u32)>
    decreases l.len(),
{
    if l.len() == 0 {
        None
    } else if names_owner(l[0]) {
        let p = words(trimmed(l[0]).skip("User:"@.len() as int));
        ids(p[0], p[2])
    } else {
        stat_ids(l.skip(1))
    }
}

/// Reads the numbers of the owner and of the group from the state of a file.
pub fn parse_debugfs_uid_gid(stat_output: &str) -> (r: Option<(u32, u32)>)
    ensures
        r == stat_ids(lines_of(stat_output@)),
{
    let l = lines(stat_output);
    let ghost all = lines_of(stat_output@);
    let mut i: usize = 0;
    assert(all.skip(0) =~= all);
    while i < l.len()
        invariant
            i <= l.len(),
            texts(l@) == all,
            all == lines_of(stat_output@),
            stat_ids(all) == stat_ids(all.skip(i as int)),
        decreases l.len() - i,
    {
        assert(all[i as int] == l@[i as int]@);
        assert(all.skip(i as int)[0] == all[i as int]);
        assert(all.skip(i as int).skip(1) =~= all.skip(i + 1));
        match strip_prefix(trim(l[i].as_str()), "User:") {
            Some(rest) => {
                let p = split_words(rest);
                assert(texts(p@).len() == p@.len());
                assert(forall|k: int| 0 <= k < p@.len() ==> texts(p@)[k] == #[trigger] p@[k]@);
                if p.len() >= 3 && same(p[1].as_str(), "Group:") {
                    return parse_ids(p[0].as_str(), p[2].as_str());
                }
            },
            None => {},
        }
        i = i + 1;
    }
    None
}

/// Asks for the state of the directory of the usual user of an image, for
/// [`ssh_user`] to read. `debugfs` is where the tool lies.
pub fn ask_home(debugfs: &str, image_path: &str) -> (r: Invocation)
    ensures
        r@ == (InvocationView {
            program: debugfs@,
            args: seq!["-R"@, "stat /home/ubuntu"@, image_path@],
            label: "debugfs stat"@,
            start_label: "debugfs stat"@,
        }),
{
    Invocation::new(debugfs, "debugfs stat").arg("-R").arg("stat /home/ubuntu").arg(image_path)
}

/// Asks for the file of users of an image, for [`ssh_user`] to read.
pub fn ask_passwd(debugfs: &str, image_path: &str) -> (r: Invocation)
    ensures
        r@ == (InvocationView {
            program: debugfs@,
            args: seq!["-R"@, "cat /etc/passwd"@, image_path@],
            label: "debugfs cat"@,
            start_label: "debugfs cat"@,
        }),
{
    Invocation::new(debugfs, "debugfs cat").arg("-R").arg("cat /etc/passwd").arg(image_path)
}

/// The call that puts a key into an image; `script` is the file with what
/// [`inject_ssh_key`] says. What it leaves behind is for [`key_injected`] to read.
pub fn write_key(debugfs: &str, script: &str, image_path: &str) -> (r: Invocation)
    ensures
        r@ == (InvocationView {
            program: debugfs@,
            args: seq!["-w"@, "-f"@, script@, image_path@],
            label: "debugfs write"@,
            start_label: "debugfs write"@,
        }),
{
    Invocation::new(debugfs, "debugfs write").arg("-w").arg("-f").arg(script).arg(image_path)
}

/// The call that checks a file system, and mends it. `e2fsck` is where the tool
/// lies.
pub fn check_call(e2fsck: &str, path: &str) -> (r: Invocation)
    ensures
        r@ == (InvocationView {
            program: e2fsck@,
            args: seq!["-f"@, "-y"@, path@],
            label: "e2fsck"@,
            start_label: "e2fsck"@,
        }),
{
    Invocation::new(e2fsck, "e2fsck").arg("-f").arg("-y").arg(path)
}

/// The call that makes a file system fill its file. `resize2fs` is where the tool
/// lies.
pub fn grow_call(resize2fs: &str, path: &str) -> (r: Invocation)
    ensures
        r@ == (InvocationView {
            program: resize2fs@,
            args: seq![path@],
            label: "resize2fs"@,
            start_label: "resize2fs"@,
        }),
{
    Invocation::new(resize2fs, "resize2fs").arg(path)
}

/// The user who gets a key, with their directory and numbers.
#[derive(Debug, PartialEq)]
pub struct SshUser {
    pub name: String,
    pub home: String,
    pub uid: u32,
    pub gid: u32,
}

/// The numbers of the usual user: those in the file of users, or else those of
/// the owner of the directory, or else 1000.
pub open spec fn usual_ids(stat: Seq<char>, passwd: Option<Seq<char>>) -> (u32, u32) {
    let named = match passwd {
        Some(p) => passwd_ids(lines_of(p), "ubuntu"@),
        None => None,
    };
    match named {
        Some(x) => x,
        None => match stat_ids(lines_of(stat)) {
            Some(x) => x,
            None => (1000, 1000),
        },
    }
}

/// Whether this is the user of an image who gets a key, from what [`ssh_user`] is told.
pub open spec fn gets_key(
    user: SshUser,
    stat_stdout: Seq<char>,
    stat_stderr: Seq<char>,
    passwd: Option<Seq<char>>,
) -> bool {
    if occurs(stat_stderr, "File not found"@) {
        user.name@ == "root"@ && user.home@ == "/root"@ && user.uid == 0 && user.gid == 0
    } else {
        &&& user.name@ == "ubuntu"@
        &&& user.home@ == "/home/ubuntu"@
        &&& (user.uid, user.gid) == usual_ids(stat_stdout, passwd)
    }
}

/// The user of an image who gets a key: the usual one where there is one, and
/// the superuser where there is not. `stat_stdout` and `stat_stderr` are what
/// asking for the state of the directory of the usual user left behind, and
/// `passwd` is the file of users, where it can be read.
pub fn ssh_user(stat_stdout: &str, stat_stderr: &str, passwd: Option<&str>) -> (r: SshUser)
    ensures
        gets_key(r, stat_stdout@, stat_stderr@, opt_str(passwd)),
{
    if contains(stat_stderr, "File not found") {
        return SshUser { name: "root".to_owned(), home: "/root".to_owned(), uid: 0, gid: 0 };
    }
    let named = match passwd {
        Some(t) => read_passwd_uid_gid(t, "ubuntu"),
        None => None,
    };
    let (uid, gid) = match named {
        Some(x) => x,
        None => match parse_debugfs_uid_gid(stat_stdout) {
            Some(x) => x,
            None => (1000, 1000),
        },
    };
    SshUser { name: "ubuntu".to_owned(), home: "/home/ubuntu".to_owned(), uid, gid }
}

/// What puts a key into an image.
pub open spec fn key_script(user: SshUser, pubkey: Seq<char>) -> Seq<char> {
    let dir = user.home@ + "/.ssh"@;
    let keys = dir + "/authorized_keys"@;
    let uid = dec(user.uid as nat);
    let gid = dec(user.gid as nat);
    "mkdir "@ + dir + "\nwrite "@ + pubkey + " "@ + keys + "\nset_inode_field "@ + dir
        + " mode 040700\nset_inode_field "@ + dir + " uid "@ + uid + "\nset_inode_field "@ + dir
        + " gid "@ + gid + "\nset_inode_field "@ + keys + " mode 0100600\nset_inode_field "@ + keys
        + " uid "@ + uid + "\nset_inode_field "@ + keys + " gid "@ + gid + "\n"@
}

/// The user of an image who gets a key, and what puts it there. The first three
/// arguments are those of [`ssh_user`], and `pubkey` is where the key lies.
pub fn inject_ssh_key(
    stat_stdout: &str,
    stat_stderr: &str,
    passwd: Option<&str>,
    pubkey: &str,
) -> (r: (SshUser, String))
    ensures
        gets_key(r.0, stat_stdout@, stat_stderr@, opt_str(passwd)),
        r.1@ == key_script(r.0, pubkey@),
{
    let user = ssh_user(stat_stdout, stat_stderr, passwd);
    let script = script_for(&user, pubkey);
    (user, script)
}

fn script_for(user: &SshUser, pubkey: &str) -> (r: String)
    ensures
        r@ == key_script(*user, pubkey@),
{
    let dir = user.home.clone().concat("/.ssh");
    let keys = dir.clone().concat("/authorized_keys");
    let uid = decimal(user.uid as u64);
    let gid = decimal(user.gid as u64);
    "mkdir ".to_owned().concat(dir.as_str()).concat("\nwrite ").concat(pubkey).concat(" ").concat(
        keys.as_str(),
    ).concat("\nset_inode_field ").concat(dir.as_str()).concat(
        " mode 040700\nset_inode_field ",
    ).concat(dir.as_str()).concat(" uid ").concat(uid.as_str()).concat(
        "\nset_inode_field ",
    ).concat(dir.as_str()).concat(" gid ").concat(gid.as_str()).concat(
        "\nset_inode_field ",
    ).concat(keys.as_str()).concat(" mode 0100600\nset_inode_field ").concat(
        keys.as_str(),
    ).concat(" uid ").concat(uid.as_str()).concat("\nset_inode_field ").concat(
        keys.as_str(),
    ).concat(" gid ").concat(gid.as_str()).concat("\n")
}

/// The name of the user who has got a key, or that it did not get into the image, from
/// what putting it there left behind.
pub fn key_injected(user: SshUser, stderr: &str) -> (r: Result<String, Error>)
    ensures
        ({
            let failed = occurs(stderr@, "No such file or directory"@) && !occurs(
                stderr@,
                "File not found by ext2_lookup"@,
            );
            match r {
                Ok(name) => !failed && name@ == user.name@,
                Err(e) => failed && e@ == ErrorView::Image(
                    "debugfs failed to inject SSH key: "@ + stderr@,
                ),
            }
        }),
{
    if contains(stderr, "No such file or directory") && !contains(
        stderr,
        "File not found by ext2_lookup",
    ) {
        Err(Error::Image("debugfs failed to inject SSH key: ".to_owned().concat(stderr)))
    } else {
        Ok(user.name)
    }
}

// ---------------------------------------------------------------------
// Copies that share
// ---------------------------------------------------------------------

/// The call that makes a copy that shares what it has in common.
pub fn apfs_clone(src: &str, dest: &str) -> (r: Invocation)
    ensures
        r@ == (InvocationView {
            program: "cp"@,
            args: seq!["-c"@, src@, dest@],
            label: "cp -c"@,
            start_label: "cp -c"@,
        }),
{
    Invocation::new("cp", "cp -c").arg("-c").arg(src).arg(dest)
}

/// The warning about a copy that took long, which one that shares does not; as
/// long as less than a second was enough there is none. `shown` is how long it
/// took, for people to read.
pub fn slow_clone_warning(secs: u64, shown: &str) -> (r: Option<String>)
    ensures
        match r {
            None => secs < 1,
            Some(t) => secs >= 1 && t@ == "Warning: disk clone took "@ + shown@
                + "s — this may indicate copy-on-write is not working. Run `ember debug storage-efficiency` to check."@,
        },
{
    if secs >= 1 {
        Some(
            "Warning: disk clone took ".to_owned().concat(shown).concat(
                "s — this may indicate copy-on-write is not working. Run `ember debug storage-efficiency` to check.",
            ),
        )
    } else {
        None
    }
}

/// The error for a copy that failed.
pub fn apfs_clone_error(src: &str, dest: &str, stderr: &str) -> (r: Error)
    ensures
        r@ == ErrorView::Image(
            if occurs(stderr@, "Cross-device link"@) || occurs(stderr@, "Not supported"@) {
                "APFS clone failed: "@ + trimmed(stderr@)
                    + ". VM storage must be on an APFS volume. The state directory may be on a non-APFS filesystem or the source and destination are on different volumes."@
            } else {
                "cp -c "@ + src@ + " → "@ + dest@ + " failed: "@ + trimmed(stderr@)
            },
        ),
{
    let cause = trim(stderr);
    if contains(stderr, "Cross-device link") || contains(stderr, "Not supported") {
        Error::Image(
            "APFS clone failed: ".to_owned().concat(cause).concat(
                ". VM storage must be on an APFS volume. The state directory may be on a non-APFS filesystem or the source and destination are on different volumes.",
            ),
        )
    } else {
        Error::Image(
            "cp -c ".to_owned().concat(src).concat(" → ").concat(dest).concat(
                " failed: ",
            ).concat(cause),
        )
    }
}

/// Where a tool lies, given which of the two usual places has it.
pub open spec fn tool_of(name: Seq<char>, in_homebrew: bool, in_local: bool) -> Seq<char> {
    if in_homebrew {
        "/opt/homebrew/opt/e2fsprogs/sbin/"@ + name
    } else if in_local {
        "/usr/local/opt/e2fsprogs/sbin/"@ + name
    } else {
        name
    }
}

/// Where a tool lies, given which of the two usual places has it.
pub fn find_e2fsprogs_tool(name: &str, in_homebrew: bool, in_local: bool) -> (r: String)
    ensures
        r@ == tool_of(name@, in_homebrew, in_local),
{
    if in_homebrew {
        "/opt/homebrew/opt/e2fsprogs/sbin/".to_owned().concat(name)
    } else if in_local {
        "/usr/local/opt/e2fsprogs/sbin/".to_owned().concat(name)
    } else {
        name.to_owned()
    }
}

/// The kind of file system that a description of a volume names: what stands
/// between the first `<string>` and the first `</string>` behind the key. `None`
/// when one of these is missing.
pub open spec fn names_filesystem(s: Seq<char>, kind: Option<Seq<char>>) -> bool {
    match kind {
        Some(k) => exists|key: int, open: int, close: int|
            {
                &&& is_first(s, "<key>FilesystemType</key>"@, Some(key))
                &&& #[trigger] first_from(s, "<string>"@, key, open)
                &&& #[trigger] first_from(s, "</string>"@, key, close)
                &&& open + "<string>"@.len() <= close
                &&& k == trimmed(s.subrange(open + "<string>"@.len() as int, close))
            },
        None => is_first(s, "<key>FilesystemType</key>"@, None) || exists|key: int|
            {
                &&& #[trigger] is_first(s, "<key>FilesystemType</key>"@, Some(key))
                &&& nowhere_from(s, "<string>"@, key) || nowhere_from(s, "</string>"@, key)
            },
    }
}

/// Whether `i` is the first index from `from` on at which `p` stands in `s`.
pub open spec fn first_from(s: Seq<char>, p: Seq<char>, from: int, i: int) -> bool {
    from <= i && stands_at(s, p, i) && forall|k: int| from <= k < i ==> !stands_at(s, p, k)
}

/// Whether `p` stands in `s` nowhere from `from` on.
pub open spec fn nowhere_from(s: Seq<char>, p: Seq<char>, from: int) -> bool {
    forall|k: int| from <= k ==> !stands_at(s, p, k)
}

/// Whether a description of a volume has its tags in order: behind the key, the
/// first value is opened before one is closed.
pub open spec fn tags_in_order(s: Seq<char>) -> bool {
    forall|key: int, open: int, close: int|
        {
            &&& is_first(s, "<key>FilesystemType</key>"@, Some(key))
            &&& #[trigger] first_from(s, "<string>"@, key, open)
            &&& #[trigger] first_from(s, "</string>"@, key, close)
        } ==> open + "<string>"@.len() <= close
}

/// Whether a description of a volume says that its file system can make copies
/// that share what they have in common.
pub fn is_apfs(plist: &str) -> (r: bool)
    requires
        tags_in_order(plist@),
    ensures
        exists|kind: Option<Seq<char>>|
            #[trigger] names_filesystem(plist@, kind) && r == (kind matches Some(k) && lowered(k)
                == "apfs"@),
{
    let v = chars_of(plist);
    proof {
        reveal_strlit("<string>");
    }
    let key: usize = match find_from(&v, "<key>FilesystemType</key>", 0) {
        None => {
            assert(is_first(plist@, "<key>FilesystemType</key>"@, None)) by {
                assert forall|k: int| !stands_at(plist@, "<key>FilesystemType</key>"@, k) by {
                    if k < 0 {
                    }
                }
            }
            assert(names_filesystem(plist@, None));
            return false;
        },
        Some(i) => i,
    };
    assert(is_first(plist@, "<key>FilesystemType</key>"@, Some(key as int)));
    let open: usize = match find_from(&v, "<string>", key) {
        None => {
            assert(nowhere_from(plist@, "<string>"@, key as int));
            assert(names_filesystem(plist@, None));
            return false;
        },
        Some(i) => i,
    };
    let close: usize = match find_from(&v, "</string>", key) {
        None => {
            assert(nowhere_from(plist@, "</string>"@, key as int));
            assert(names_filesystem(plist@, None));
            return false;
        },
        Some(i) => i,
    };
    assert(first_from(plist@, "<string>"@, key as int, open as int));
    assert(first_from(plist@, "</string>"@, key as int, close as int));
    let kind = text_of(&v, open + 8, close);
    let t = trim(kind.as_str());
    assert(names_filesystem(plist@, Some(t@)));
    let low = to_lower(t);
    same(low.as_str(), "apfs")
}

/// The warning about a file system that cannot make copies that share.
pub open spec fn not_apfs_text(path: Seq<char>) -> Seq<char> {
    "Warning: "@ + path
        + " is not on an APFS volume. Copy-on-write clones (cp -c) will not work, and VM cloning will use full copies instead of instant CoW clones."@
}

/// The warning about a file system of some kind, if that cannot make copies that
/// share.
pub open spec fn warning_for(path: Seq<char>, kind: Option<Seq<char>>) -> Option<Seq<char>> {
    match kind {
        Some(k) => if lowered(k) == "apfs"@ {
            None
        } else {
            Some(not_apfs_text(path))
        },
        None => Some(not_apfs_text(path)),
    }
}

/// Whether `w` is the warning about the file system that an installation is on, from
/// the description of its volume.
pub open spec fn described(path: Seq<char>, plist: Seq<char>, w: Option<Seq<char>>) -> bool {
    exists|kind: Option<Seq<char>>| #[trigger]
        names_filesystem(plist, kind) && w == warning_for(path, kind)
}

/// Whether `w` is the warning about the file system that an installation is on: there
/// is none where the volume is not described.
pub open spec fn apfs_warning(
    path: Seq<char>,
    plist: Option<Seq<char>>,
    w: Option<Seq<char>>,
) -> bool {
    match plist {
        None => w is None,
        Some(p) => described(path, p, w),
    }
}

/// The warning about the file system that an installation is on, if it cannot
/// make copies that share. `plist` is the description of its volume, where there
/// is one.
pub fn check_apfs_volume(path: &str, plist: Option<&str>) -> (r: Option<String>)
    requires
        plist matches Some(p) ==> tags_in_order(p@),
    ensures
        apfs_warning(path@, opt_str(plist), opt_text(r)),
{
    match plist {
        None => None,
        Some(p) => {
            if is_apfs(p) {
                None
            } else {
                Some(
                    "Warning: ".to_owned().concat(path).concat(
                        " is not on an APFS volume. Copy-on-write clones (cp -c) will not work, and VM cloning will use full copies instead of instant CoW clones.",
                    ),
                )
            }
        },
    }
}

} // verus!
