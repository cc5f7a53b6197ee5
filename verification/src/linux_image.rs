//! Images of file systems, made by mounting them.

use vstd::prelude::*;
use vstd::string::*;

use crate::command::{Invocation, InvocationView};
use crate::error::{outcome, Error, ErrorView};
use crate::path::{extended, join, joined, with_extension};
use crate::procedure::{
    and, may, must, must_or, no_actions, no_steps, plan, then_may, then_must, then_must_or,
    then_must_undo, views, Step, StepView,
};
use crate::text::{
    dec, decimal, lemma_dec_parsed, parse_u64, parsed, split_words, texts, words,
};

verus! {

/// Asks for the size of what a directory holds, for [`parse_du`] to read.
pub fn measure(rootfs_dir: &str) -> (r: Invocation)
    ensures
        r@ == (InvocationView {
            program: "du"@,
            args: seq!["-sm"@, rootfs_dir@],
            label: "du -sm"@,
            start_label: "du -sm"@,
        }),
{
    Invocation::new("du", "du -sm").arg("-sm").arg(rootfs_dir)
}

/// The size in MiB that a listing of `du` starts with.
pub open spec fn measured(stdout: Seq<char>) -> Result<u64, ErrorView> {
    let w = words(stdout);
    if w.len() == 0 {
        Err(ErrorView::Image("failed to parse du output"@))
    } else {
        match parsed(w[0], u64::MAX as nat) {
            Some(n) => Ok(n as u64),
            None => Err(ErrorView::Image("failed to parse rootfs size from du: "@ + w[0])),
        }
    }
}

/// Reads the size in MiB that a listing of `du` starts with.
pub fn parse_du(stdout: &str) -> (r: Result<u64, Error>)
    ensures
        outcome(r) == measured(stdout@),
{
    let w = split_words(stdout);
    assert(texts(w@).len() == w@.len());
    if w.len() == 0 {
        return Err(Error::Image("failed to parse du output".to_owned()));
    }
    assert(texts(w@)[0] == w@[0]@);
    match parse_u64(w[0].as_str()) {
        Some(n) => Ok(n),
        None => Err(
            Error::Image(
                "failed to parse rootfs size from du: ".to_owned().concat(w[0].as_str()),
            ),
        ),
    }
}

/// The size of an image in MiB: half as much again as it has to hold, and at
/// least 64.
pub open spec fn image_size(content_mib: nat) -> nat {
    if content_mib * 3 / 2 > 64 {
        content_mib * 3 / 2
    } else {
        64
    }
}

/// The size in MiB of an image for what a directory holds, from what `du` says
/// of it.
pub fn estimate_size_mib(stdout: &str) -> (r: Result<u64, Error>)
    requires
        measured(stdout@) matches Ok(n) ==> n * 3 <= u64::MAX,
    ensures
        outcome(r) == (match measured(stdout@) {
            Ok(n) => Ok::<u64, ErrorView>(image_size(n as nat) as u64),
            Err(e) => Err(e),
        }),
{
    match parse_du(stdout) {
        Err(e) => Err(e),
        Ok(n) => {
            let size: u64 = n * 3 / 2;
            if size > 64 {
                Ok(size)
            } else {
                Ok(64)
            }
        },
    }
}

/// The call that makes a file of so many MiB that takes no room yet.
pub fn create_sparse_file(path: &str, size_mib: u64) -> (r: Invocation)
    ensures
        r@ == (InvocationView {
            program: "truncate"@,
            args: seq!["-s"@, dec(size_mib as nat) + "M"@, path@],
            label: "truncate"@,
            start_label: "truncate"@,
        }),
{
    let size = decimal(size_mib).concat("M");
    Invocation::new("truncate", "truncate").arg("-s").arg(size.as_str()).arg(path)
}

/// The call that puts a file system into a file.
pub fn mkfs_ext4(path: &str) -> (r: Invocation)
    ensures
        r@ == (InvocationView {
            program: "mkfs.ext4"@,
            args: seq!["-F"@, "-q"@, path@],
            label: "mkfs.ext4"@,
            start_label: "mkfs.ext4"@,
        }),
{
    Invocation::new("mkfs.ext4", "mkfs.ext4").arg("-F").arg("-q").arg(path)
}

/// The call that mounts a file.
pub fn mount_loop(image_path: &str, mount_dir: &str) -> (r: Invocation)
    ensures
        r@ == (InvocationView {
            program: "mount"@,
            args: seq!["-o"@, "loop"@, image_path@, mount_dir@],
            label: "mount -o loop"@,
            start_label: "mount -o loop"@,
        }),
{
    Invocation::new("mount", "mount -o loop").arg("-o").arg("loop").arg(image_path).arg(mount_dir)
}

/// The call that unmounts a directory.
pub fn umount(mount_dir: &str) -> (r: Invocation)
    ensures
        r@ == (InvocationView {
            program: "umount"@,
            args: seq![mount_dir@],
            label: "umount"@,
            start_label: "umount"@,
        }),
{
    Invocation::new("umount", "umount").arg(mount_dir)
}

/// The call that copies what a directory holds into another.
pub fn copy_rootfs(rootfs_dir: &str, mount_dir: &str) -> (r: Invocation)
    ensures
        r@ == (InvocationView {
            program: "cp"@,
            args: seq!["-a"@, joined(rootfs_dir@, "."@), mount_dir@],
            label: "cp -a"@,
            start_label: "cp -a"@,
        }),
{
    let contents = join(rootfs_dir, ".");
    Invocation::new("cp", "cp -a").arg("-a").arg(contents.as_str()).arg(mount_dir)
}

/// Something to do to make an image.
#[derive(Debug, PartialEq)]
pub enum ImageAction {
    Run(Invocation),
    MakeDir(String),
    RemoveDir(String),
}

/// An [`ImageAction`], its strings taken by their texts.
#[verifier::ext_equal]
pub enum ImageView {
    Run(InvocationView),
    MakeDir(Seq<char>),
    RemoveDir(Seq<char>),
}

impl View for ImageAction {
    type V = ImageView;

    open spec fn view(&self) -> ImageView {
        match self {
            ImageAction::Run(i) => ImageView::Run(i@),
            ImageAction::MakeDir(d) => ImageView::MakeDir(d@),
            ImageAction::RemoveDir(d) => ImageView::RemoveDir(d@),
        }
    }
}

/// The call that makes a file of so many MiB.
pub open spec fn truncate_view(path: Seq<char>, size_mib: u64) -> InvocationView {
    InvocationView {
        program: "truncate"@,
        args: seq!["-s"@, dec(size_mib as nat) + "M"@, path],
        label: "truncate"@,
        start_label: "truncate"@,
    }
}

/// The call that puts a file system into a file.
pub open spec fn mkfs_view(path: Seq<char>) -> InvocationView {
    InvocationView {
        program: "mkfs.ext4"@,
        args: seq!["-F"@, "-q"@, path],
        label: "mkfs.ext4"@,
        start_label: "mkfs.ext4"@,
    }
}

/// The call that mounts a file.
pub open spec fn mount_view(image: Seq<char>, dir: Seq<char>) -> InvocationView {
    InvocationView {
        program: "mount"@,
        args: seq!["-o"@, "loop"@, image, dir],
        label: "mount -o loop"@,
        start_label: "mount -o loop"@,
    }
}

/// The call that copies a directory.
pub open spec fn copy_view(rootfs: Seq<char>, dir: Seq<char>) -> InvocationView {
    InvocationView {
        program: "cp"@,
        args: seq!["-a"@, joined(rootfs, "."@), dir],
        label: "cp -a"@,
        start_label: "cp -a"@,
    }
}

/// The call that unmounts a directory.
pub open spec fn umount_view(dir: Seq<char>) -> InvocationView {
    InvocationView {
        program: "umount"@,
        args: seq![dir],
        label: "umount"@,
        start_label: "umount"@,
    }
}

/// How an image is made from what a directory holds. Once the file is mounted
/// it is unmounted again, whatever becomes of the copy.
pub open spec fn making(
    rootfs_dir: Seq<char>,
    image_path: Seq<char>,
    mount_dir: Seq<char>,
    size_mib: u64,
) -> Seq<StepView<ImageView>> {
    seq![
        must(ImageView::Run(truncate_view(image_path, size_mib))),
        must(ImageView::Run(mkfs_view(image_path))),
        must(ImageView::MakeDir(mount_dir)),
        must(ImageView::Run(mount_view(image_path, mount_dir))),
        must_or(
            ImageView::Run(copy_view(rootfs_dir, mount_dir)),
            seq![ImageView::Run(umount_view(mount_dir)), ImageView::RemoveDir(mount_dir)],
        ),
        must_or(ImageView::Run(umount_view(mount_dir)), seq![ImageView::RemoveDir(mount_dir)]),
        may(ImageView::RemoveDir(mount_dir)),
    ]
}

/// How an image is made from what a directory holds. It is mounted at a directory
/// beside it.
pub fn create(rootfs_dir: &str, image_path: &str, size_mib: u64) -> (r: Vec<Step<ImageAction>>)
    ensures
        plan(r@) == making(rootfs_dir@, image_path@, extended(image_path@, "mnt"@), size_mib),
{
    proof {
        reveal_strlit("mnt");
    }
    let mount_dir = with_extension(image_path, "mnt");
    let mount_dir = mount_dir.as_str();
    let undo = and(
        and(no_actions(), ImageAction::Run(umount(mount_dir))),
        ImageAction::RemoveDir(mount_dir.to_owned()),
    );
    assert(views(undo@) =~= seq![
        ImageView::Run(umount_view(mount_dir@)),
        ImageView::RemoveDir(mount_dir@),
    ]);
    let steps = then_must(
        no_steps(),
        ImageAction::Run(create_sparse_file(image_path, size_mib)),
    );
    let steps = then_must(steps, ImageAction::Run(mkfs_ext4(image_path)));
    let steps = then_must(steps, ImageAction::MakeDir(mount_dir.to_owned()));
    let steps = then_must(steps, ImageAction::Run(mount_loop(image_path, mount_dir)));
    let steps = then_must_undo(
        steps,
        ImageAction::Run(copy_rootfs(rootfs_dir, mount_dir)),
        undo,
    );
    let steps = then_must_or(
        steps,
        ImageAction::Run(umount(mount_dir)),
        ImageAction::RemoveDir(mount_dir.to_owned()),
    );
    then_may(steps, ImageAction::RemoveDir(mount_dir.to_owned()))
}

/// An image has room for what it has to hold, and never less than 64 MiB.
pub proof fn law_image_has_room(content_mib: nat)
    ensures
        image_size(content_mib) >= 64,
        image_size(content_mib) >= content_mib,
{
}

// ---------------------------------------------------------------------
// What the calls come to
// ---------------------------------------------------------------------

/// An image that is being made, and the directory that it is mounted at.
#[verifier::ext_equal]
pub struct Workshop {
    pub image: Seq<char>,
    pub dir: Seq<char>,
    /// The size of the file in MiB, where it is there.
    pub size_mib: Option<nat>,
    /// Whether there is a file system in it.
    pub formatted: bool,
    pub dir_there: bool,
    pub mounted: bool,
    /// What was copied into the file system, by its path.
    pub holds: Option<Seq<char>>,
}

/// The MiB that a size in the words of `truncate` stands for.
pub open spec fn mebibytes(t: Seq<char>) -> Option<nat> {
    if t.len() > 0 && t.last() == 'M' {
        parsed(t.drop_last(), u64::MAX as nat)
    } else {
        None
    }
}

/// What one action makes of it; `None` where it cannot be done.
pub open spec fn worked(w: Workshop, a: ImageView) -> Option<Workshop> {
    match a {
        ImageView::MakeDir(d) => if d == w.dir && !w.dir_there {
            Some(Workshop { dir_there: true, ..w })
        } else {
            None
        },
        ImageView::RemoveDir(d) => if d == w.dir && w.dir_there && !w.mounted {
            Some(Workshop { dir_there: false, ..w })
        } else {
            None
        },
        ImageView::Run(call) => {
            let a = call.args;
            if call.program == "truncate"@ && a.len() == 3 && a[0] == "-s"@ && a[2] == w.image
                && !w.mounted {
                // A file that was stretched holds nothing but zeros.
                match mebibytes(a[1]) {
                    Some(n) => Some(
                        Workshop { size_mib: Some(n), formatted: false, holds: None, ..w },
                    ),
                    None => None,
                }
            } else if call.program == "mkfs.ext4"@ && a.len() > 0 && a.last() == w.image
                && a.contains("-F"@) && w.size_mib is Some && !w.mounted {
                Some(Workshop { formatted: true, holds: None, ..w })
            } else if call.program == "mount"@ && a.len() == 4 && a[0] == "-o"@ && a[1] == "loop"@
                && a[2] == w.image && a[3] == w.dir && w.formatted && w.dir_there && !w.mounted {
                Some(Workshop { mounted: true, ..w })
            } else if call.program == "cp"@ && a.len() == 3 && a[0] == "-a"@ && a[2] == w.dir
                && w.mounted {
                Some(Workshop { holds: Some(a[1]), ..w })
            } else if call.program == "umount"@ && a == seq![w.dir] && w.mounted {
                Some(Workshop { mounted: false, ..w })
            } else {
                None
            }
        },
    }
}

proof fn lemma_programs()
    ensures
        "truncate"@ != "mkfs.ext4"@,
        "truncate"@ != "mount"@,
        "truncate"@ != "cp"@,
        "truncate"@ != "umount"@,
        "mkfs.ext4"@ != "mount"@,
        "mkfs.ext4"@ != "cp"@,
        "mkfs.ext4"@ != "umount"@,
        "mount"@ != "cp"@,
        "mount"@ != "umount"@,
        "cp"@ != "umount"@,
{
    reveal_strlit("truncate");
    reveal_strlit("mkfs.ext4");
    reveal_strlit("mount");
    reveal_strlit("cp");
    reveal_strlit("umount");
    assert("truncate"@.len() == 8);
    assert("mkfs.ext4"@.len() == 9);
    assert("mount"@.len() == 5);
    assert("cp"@.len() == 2);
    assert("umount"@.len() == 6);
}

/// An image is made in a file of the size that was asked for, with a file system that
/// holds what the directory holds. It is mounted for that and not any more in the end,
/// and nothing is left but the file.
pub proof fn law_an_image_holds_its_directory(
    rootfs_dir: Seq<char>,
    size_mib: u64,
    w: Workshop,
)
    requires
        !w.mounted,
        !w.dir_there,
        !w.formatted,
    ensures
        ({
            let p = making(rootfs_dir, w.image, w.dir, size_mib);
            let w1 = worked(w, p[0].action);
            let w2 = worked(w1->0, p[1].action);
            let w3 = worked(w2->0, p[2].action);
            let w4 = worked(w3->0, p[3].action);
            let w5 = worked(w4->0, p[4].action);
            let w6 = worked(w5->0, p[5].action);
            let w7 = worked(w6->0, p[6].action);
            &&& p.len() == 7
            &&& w1 is Some && w2 is Some && w3 is Some && w4 is Some && w5 is Some && w6 is Some
                && w7 is Some
            &&& w7->0.size_mib == Some(size_mib as nat)
            &&& w7->0.formatted
            &&& !w7->0.mounted
            &&& !w7->0.dir_there
            &&& w7->0.holds == Some(joined(rootfs_dir, "."@))
        }),
{
    lemma_programs();
    let n = size_mib as nat;
    lemma_dec_parsed(n, u64::MAX as nat);
    reveal_strlit("M");
    assert((dec(n) + "M"@).drop_last() =~= dec(n));
    let p = making(rootfs_dir, w.image, w.dir, size_mib);
    assert(mkfs_view(w.image).args[0] == "-F"@);
    assert(mkfs_view(w.image).args.contains("-F"@));
}

/// When what the directory holds could not be copied, or the image not be unmounted
/// at first, whatever can be undone of the mounting is; that the directory cannot be
/// removed in the end does not matter.
pub proof fn law_a_failed_image_is_unmounted(rootfs_dir: Seq<char>, size_mib: u64, w: Workshop)
    requires
        w.mounted,
        w.dir_there,
    ensures
        ({
            let p = making(rootfs_dir, w.image, w.dir, size_mib);
            let off = worked(w, p[4].undo[0]);
            let gone = worked(off->0, p[4].undo[1]);
            &&& p[4].undo.len() == 2
            &&& off is Some && !off->0.mounted
            &&& gone is Some && !gone->0.dir_there
            &&& p[5].undo == seq![ImageView::RemoveDir(w.dir)]
            &&& forall|i: int| 0 <= i < p.len() ==> ((#[trigger] p[i]).tolerate <==> i == 6)
        }),
{
    lemma_programs();
}

} // verus!
