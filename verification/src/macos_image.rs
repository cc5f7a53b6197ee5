//! Images of file systems, made without mounting them.

use vstd::prelude::*;
use vstd::string::*;

use crate::command::{Invocation, InvocationView};
use crate::config::opt_str;
use crate::macos_storage::{find_e2fsprogs_tool, tool_of};
use crate::path::{join, joined, parent, parent_of};
use crate::procedure::{must, no_steps, plan, then_must, Step, StepView};
use crate::text::{dec, decimal, lines, lines_of, parse_u64, parsed, texts, trim, trimmed};

verus! {

/// Asks for the sizes of all files below a directory, one to a line.
pub fn measure(rootfs_dir: &str) -> (r: Invocation)
    ensures
        r@ == (InvocationView {
            program: "find"@,
            args: seq![
                rootfs_dir@,
                "!"@,
                "-type"@,
                "d"@,
                "-exec"@,
                "stat"@,
                "-f"@,
                "%z"@,
                "{}"@,
                "+"@,
            ],
            label: "find/stat (apparent size)"@,
            start_label: "find/stat (apparent size)"@,
        }),
{
    Invocation::new("find", "find/stat (apparent size)").arg(rootfs_dir).arg("!").arg(
        "-type",
    ).arg("d").arg("-exec").arg("stat").arg("-f").arg("%z").arg("{}").arg("+")
}

/// The sum of the sizes in a list of lines. A line that is no number counts
/// nothing.
pub open spec fn total(l: Seq<Seq<char>>) -> nat
    decreases l.len(),
{
    if l.len() == 0 {
        0
    } else {
        total(l.drop_last()) + (match parsed(trimmed(l.last()), u64::MAX as nat) {
            Some(n) => n,
            None => 0,
        })
    }
}

proof fn lemma_total_grows(l: Seq<Seq<char>>, k: int)
    requires
        0 <= k <= l.len(),
    ensures
        total(l.take(k)) <= total(l),
    decreases l.len() - k,
{
    if k < l.len() {
        assert(l.take(k + 1).drop_last() =~= l.take(k));
        lemma_total_grows(l, k + 1);
    } else {
        assert(l.take(k) =~= l);
    }
}

/// The size of an image in MiB: twice what it has to hold, with 4 KiB more for
/// each file, and at least 256.
pub open spec fn image_size(bytes: nat, files: nat) -> nat {
    let data = bytes / 0x10_0000 + files * 4 / 1024;
    if data * 2 > 256 {
        data * 2
    } else {
        256
    }
}

/// The size in MiB of an image for the files whose sizes were listed.
pub fn estimate_size_mib(stdout: &str) -> (r: u64)
    requires
        total(lines_of(stdout@)) <= u64::MAX,
        lines_of(stdout@).len() * 4 <= u64::MAX,
    ensures
        r == image_size(total(lines_of(stdout@)), lines_of(stdout@).len()),
{
    let l = lines(stdout);
    let ghost all = lines_of(stdout@);
    assert(texts(l@).len() == l@.len());
    let mut bytes: u64 = 0;
    let mut i: usize = 0;
    while i < l.len()
        invariant
            i <= l.len(),
            texts(l@) == all,
            total(all) <= u64::MAX,
            bytes == total(all.take(i as int)),
        decreases l.len() - i,
    {
        assert(all.take(i + 1).drop_last() =~= all.take(i as int));
        assert(all[i as int] == l@[i as int]@);
        proof {
            lemma_total_grows(all, i + 1);
        }
        match parse_u64(trim(l[i].as_str())) {
            Some(n) => {
                bytes = bytes + n;
            },
            None => {},
        }
        i = i + 1;
    }
    assert(all.take(i as int) =~= all);
    let files: u64 = l.len() as u64;
    let data: u64 = bytes / 0x10_0000 + files * 4 / 1024;
    if data * 2 > 256 {
        data * 2
    } else {
        256
    }
}

/// The call that makes a file of so many MiB that takes no room yet.
pub open spec fn truncate_view(path: Seq<char>, size_mib: u64) -> InvocationView {
    InvocationView {
        program: "truncate"@,
        args: seq!["-s"@, dec(size_mib as nat) + "m"@, path],
        label: "truncate"@,
        start_label: "truncate"@,
    }
}

/// The call that makes a file of so many MiB that takes no room yet.
pub fn create_sparse_file(path: &str, size_mib: u64) -> (r: Invocation)
    ensures
        r@ == truncate_view(path@, size_mib),
{
    let size = decimal(size_mib).concat("m");
    Invocation::new("truncate", "truncate").arg("-s").arg(size.as_str()).arg(path)
}

/// The call that puts a file system with what a directory holds into a file.
/// `state_file` is the record of who owns what, where there is one.
pub open spec fn mkfs_view(
    mkfs: Seq<char>,
    image_path: Seq<char>,
    rootfs_dir: Seq<char>,
    state_file: Option<Seq<char>>,
) -> InvocationView {
    let common = seq![
        "-F"@,
        "-q"@,
        "-i"@,
        "8192"@,
        "-m"@,
        "0"@,
        "-d"@,
        rootfs_dir,
        image_path,
    ];
    match state_file {
        Some(state) => InvocationView {
            program: "fakeroot"@,
            args: seq!["-i"@, state, "--"@, mkfs] + common,
            label: "mkfs.ext4"@,
            start_label: "fakeroot mkfs.ext4"@,
        },
        None => InvocationView {
            program: mkfs,
            args: common,
            label: "mkfs.ext4"@,
            start_label: "mkfs.ext4"@,
        },
    }
}

/// The call that puts a file system with what a directory holds into a file.
/// `state_file` is the record of who owns what, where there is one.
pub fn mkfs_ext4_from_dir(
    mkfs: &str,
    image_path: &str,
    rootfs_dir: &str,
    state_file: Option<&str>,
) -> (r: Invocation)
    ensures
        r@ == mkfs_view(mkfs@, image_path@, rootfs_dir@, opt_str(state_file)),
{
    let call = match state_file {
        Some(state) => Invocation::new("fakeroot", "mkfs.ext4").started_as("fakeroot mkfs.ext4").arg("-i").arg(state).arg(
            "--",
        ).arg(mkfs),
        None => Invocation::new(mkfs, "mkfs.ext4"),
    };
    let ghost head = call@.args;
    let call = call.arg("-F").arg("-q").arg("-i").arg("8192").arg("-m").arg("0").arg("-d").arg(
        rootfs_dir,
    ).arg(image_path);
    assert(call@.args =~= head + seq![
        "-F"@,
        "-q"@,
        "-i"@,
        "8192"@,
        "-m"@,
        "0"@,
        "-d"@,
        rootfs_dir@,
        image_path@,
    ]);
    assert(state_file is Some ==> head =~= seq!["-i"@, state_file->0@, "--"@, mkfs@]);
    call
}

/// Where the record of who owns what in a directory lies: beside the directory.
pub open spec fn ownership_of(rootfs_dir: Seq<char>) -> Seq<char> {
    joined(parent_of(rootfs_dir)->0, "fakeroot.state"@)
}

/// Where the record of who owns what in a directory lies. The directory has to be
/// below another.
pub fn ownership_file(rootfs_dir: &str) -> (r: String)
    requires
        parent_of(rootfs_dir@) is Some,
    ensures
        r@ == ownership_of(rootfs_dir@),
{
    match parent(rootfs_dir) {
        Some(d) => join(d.as_str(), "fakeroot.state"),
        None => "fakeroot.state".to_owned(),
    }
}

/// How an image of so many MiB is made that holds what a directory does.
pub open spec fn making(
    rootfs_dir: Seq<char>,
    image_path: Seq<char>,
    size_mib: u64,
    mkfs: Seq<char>,
    owned: bool,
) -> Seq<StepView<InvocationView>> {
    seq![
        must(truncate_view(image_path, size_mib)),
        must(
            mkfs_view(
                mkfs,
                image_path,
                rootfs_dir,
                if owned {
                    Some(ownership_of(rootfs_dir))
                } else {
                    None
                },
            ),
        ),
    ]
}

/// How an image of so many MiB is made that holds what a directory does. The flags
/// say which of the two usual places has the tool that makes file systems, and
/// whether there is a record of who owns what.
pub fn create(
    rootfs_dir: &str,
    image_path: &str,
    size_mib: u64,
    in_homebrew: bool,
    in_local: bool,
    owned: bool,
) -> (r: Vec<Step<Invocation>>)
    requires
        parent_of(rootfs_dir@) is Some,
    ensures
        plan(r@) == making(
            rootfs_dir@,
            image_path@,
            size_mib,
            tool_of("mkfs.ext4"@, in_homebrew, in_local),
            owned,
        ),
{
    let mkfs = find_e2fsprogs_tool("mkfs.ext4", in_homebrew, in_local);
    let steps = then_must(no_steps(), create_sparse_file(image_path, size_mib));
    let call = if owned {
        let state = ownership_file(rootfs_dir);
        mkfs_ext4_from_dir(mkfs.as_str(), image_path, rootfs_dir, Some(state.as_str()))
    } else {
        mkfs_ext4_from_dir(mkfs.as_str(), image_path, rootfs_dir, None)
    };
    let steps = then_must(steps, call);
    assert(plan(steps@) =~= making(rootfs_dir@, image_path@, size_mib, mkfs@, owned));
    steps
}

/// An image has room for the files that it has to hold, and never less than 256
/// MiB.
pub proof fn law_image_has_room(bytes: nat, files: nat)
    ensures
        image_size(bytes, files) >= 256,
        image_size(bytes, files) * 0x10_0000 >= bytes,
{
}

} // verus!
