//! The kernels of an installation.

use vstd::prelude::*;
use vstd::seq_lib::group_to_multiset_ensures;
use vstd::string::*;

use super::fmt::{bytes_text, format_bytes_binary};
use crate::command::{nothing, with};
use crate::text::{
    before, comes_before, dec, decimal, lemma_before_total, lemma_before_transitive, lowered, same,
    texts, to_lower, trim, trimmed,
};

verus! {

#[derive(Debug)]
pub struct BuildArgs {
    pub jobs: Option<usize>,
    pub yes: bool,
}

/// A command about kernels.
#[derive(Debug)]
pub enum KernelCommand {
    Build(BuildArgs),
    List,
}

/// How many things to build at the same time: what was asked for, or else as
/// many as the host can do, or else 4.
pub fn jobs(args: &BuildArgs, parallelism: Option<usize>) -> (r: usize)
    ensures
        r == (match args.jobs {
            Some(n) => n,
            None => match parallelism {
                Some(n) => n,
                None => 4,
            },
        }),
{
    match args.jobs {
        Some(n) => n,
        None => match parallelism {
            Some(n) => n,
            None => 4,
        },
    }
}

/// What the user is told before a kernel is built.
pub open spec fn notice(tool: Seq<char>, jobs: nat) -> Seq<char> {
    "This will build a Linux kernel with Docker networking and AVF support.\n\n  Kernel source:  Amazon Linux 6.1.163 (shallow clone, ~1 GB download)\n  Base config:    Firecracker CI x86_64 6.1\n  Extra config:   iptables raw, nftables, dummy interface (Docker)\n                   virtio-pci, virtio-console, ip=dhcp (AVF)\n  Build method:   container ("@
        + tool + ")\n  Parallelism:    make -j"@ + dec(jobs)
        + "\n\nThe kernel source download is ~1 GB and compilation may take 10-30 minutes."@
}

/// What the user is told before a kernel is built.
pub fn build_notice(tool: &str, jobs: usize) -> (r: String)
    ensures
        r@ == notice(tool@, jobs as nat),
{
    let n = decimal(jobs as u64);
    "This will build a Linux kernel with Docker networking and AVF support.\n\n  Kernel source:  Amazon Linux 6.1.163 (shallow clone, ~1 GB download)\n  Base config:    Firecracker CI x86_64 6.1\n  Extra config:   iptables raw, nftables, dummy interface (Docker)\n                   virtio-pci, virtio-console, ip=dhcp (AVF)\n  Build method:   container (".to_owned().concat(
    tool).concat(")\n  Parallelism:    make -j").concat(n.as_str()).concat(
        "\n\nThe kernel source download is ~1 GB and compilation may take 10-30 minutes.",
    )
}

/// Whether an answer is a yes; nothing is a no.
pub open spec fn affirmed(input: Option<Seq<char>>) -> bool {
    match input {
        Some(t) => lowered(trimmed(t)) == "y"@ || lowered(trimmed(t)) == "yes"@,
        None => false,
    }
}

/// Whether an answer is a yes; nothing is a no.
pub fn confirm(input: Option<&str>) -> (r: bool)
    ensures
        r == affirmed(
            match input {
                Some(t) => Some(t@),
                None => None,
            },
        ),
{
    match input {
        None => false,
        Some(t) => {
            let low = to_lower(trim(t));
            same(low.as_str(), "y") || same(low.as_str(), "yes")
        },
    }
}

/// What the user is asked before a kernel is built, unless the user said yes in
/// advance.
pub fn question(args: &BuildArgs, tool: &str, jobs: usize) -> (r: Option<String>)
    ensures
        match r {
            Some(t) => !args.yes && t@ == notice(tool@, jobs as nat) + "\n\nProceed? [y/N] "@,
            None => args.yes,
        },
{
    if args.yes {
        None
    } else {
        Some(build_notice(tool, jobs).concat("\n\nProceed? [y/N] "))
    }
}

/// What the user is told where no kernel is built, given what the user answered:
/// that is no failure. `None` where one is built.
pub fn go_on(args: &BuildArgs, reply: Option<&str>) -> (r: Option<String>)
    ensures
        ({
            let yes = args.yes || affirmed(
                match reply {
                    Some(t) => Some(t@),
                    None => None,
                },
            );
            match r {
                None => yes,
                Some(t) => !yes && t@ == "Aborted."@,
            }
        }),
{
    if args.yes || confirm(reply) {
        None
    } else {
        Some("Aborted.".to_owned())
    }
}

/// What the user is told once a kernel is built.
pub fn ready_text(dest: &str) -> (r: String)
    ensures
        r@
            == "\nKernel ready. It is now the default kernel for new VMs.\nTo use explicitly: ember vm create <name> --image <image> --kernel docker\nInstalled at: "@
            + dest@,
{
    "\nKernel ready. It is now the default kernel for new VMs.\nTo use explicitly: ember vm create <name> --image <image> --kernel docker\nInstalled at: ".to_owned().concat(
    dest)
}

/// A file of the directory of kernels.
#[derive(Debug)]
pub struct KernelFile {
    pub name: String,
    pub len: u64,
    /// Whether it is a plain file: nothing else is a kernel.
    pub is_file: bool,
}

/// The names of the files that kernels with a name of their own lie in.
#[derive(Debug)]
pub struct KernelNames {
    pub stock: String,
    pub docker: String,
    /// The one that machines get, unless told otherwise.
    pub default: String,
}

/// A kernel: its name and its size.
pub type Listed = (Seq<char>, u64);

/// A kernel among others in the order of their names: behind all that do not
/// come after it.
pub open spec fn placed(list: Seq<Listed>, x: Listed) -> Seq<Listed>
    decreases list.len(),
{
    if list.len() == 0 || !before(x.0, list.last().0) {
        list.push(x)
    } else {
        placed(list.drop_last(), x).push(list.last())
    }
}

/// The kernels in the order of their names.
pub open spec fn by_name(files: Seq<KernelFile>) -> Seq<Listed>
    decreases files.len(),
{
    if files.len() == 0 {
        seq![]
    } else if files.last().is_file {
        placed(by_name(files.drop_last()), (files.last().name@, files.last().len))
    } else {
        by_name(files.drop_last())
    }
}

/// Whether no name stands behind one that comes after it.
pub open spec fn ordered(list: Seq<Listed>) -> bool {
    forall|i: int, j: int|
        0 <= i <= j < list.len() ==> !before((#[trigger] list[j]).0, (#[trigger] list[i]).0)
}

/// Whether no name comes after `m`.
spec fn none_after(list: Seq<Listed>, m: Seq<char>) -> bool {
    forall|i: int| 0 <= i < list.len() ==> !before(m, (#[trigger] list[i]).0)
}

proof fn lemma_not_before_transitive(a: Seq<char>, b: Seq<char>, c: Seq<char>)
    requires
        !before(b, a),
        !before(c, b),
    ensures
        !before(c, a),
{
    lemma_before_total(a, b);
    lemma_before_total(b, c);
    if before(c, a) {
        if a == b {
        } else {
            lemma_before_transitive(c, a, b);
        }
    }
}

proof fn lemma_placed(list: Seq<Listed>, x: Listed)
    requires
        ordered(list),
    ensures
        ordered(placed(list, x)),
        forall|m: Seq<char>| #[trigger]
            none_after(list, m) && !before(m, x.0) ==> none_after(placed(list, x), m),
    decreases list.len(),
{
    if list.len() == 0 || !before(x.0, list.last().0) {
        let p = list.push(x);
        assert(ordered(p)) by {
            assert forall|i: int, j: int| 0 <= i <= j < p.len() implies !before(
                (#[trigger] p[j]).0,
                (#[trigger] p[i]).0,
            ) by {
                if j == list.len() && i < j {
                    assert(!before(list[list.len() - 1].0, list[i].0));
                    lemma_not_before_transitive(list[i].0, list.last().0, x.0);
                } else if j == list.len() {
                    lemma_before_total(x.0, x.0);
                } else {
                    assert(!before(list[j].0, list[i].0));
                }
            }
        }
    } else {
        let less = list.drop_last();
        assert(ordered(less)) by {
            assert forall|i: int, j: int| 0 <= i <= j < less.len() implies !before(
                (#[trigger] less[j]).0,
                (#[trigger] less[i]).0,
            ) by {
                assert(!before(list[j].0, list[i].0));
            }
        }
        lemma_placed(less, x);
        let q = placed(less, x);
        let m = list.last().0;
        assert(none_after(less, m)) by {
            assert forall|i: int| 0 <= i < less.len() implies !before(m, (#[trigger] less[i]).0) by {
                assert(!before(list[list.len() - 1].0, list[i].0));
            }
        }
        lemma_before_total(x.0, m);
        assert(!before(m, x.0)) by {
            if before(m, x.0) {
                lemma_before_transitive(x.0, m, x.0);
                lemma_before_total(x.0, x.0);
            }
        }
        assert(none_after(q, m));
        let p = q.push(list.last());
        assert(ordered(p)) by {
            assert forall|i: int, j: int| 0 <= i <= j < p.len() implies !before(
                (#[trigger] p[j]).0,
                (#[trigger] p[i]).0,
            ) by {
                if j < q.len() {
                    assert(!before(q[j].0, q[i].0));
                } else if i < q.len() {
                    assert(!before(m, q[i].0));
                } else {
                    lemma_before_total(m, m);
                }
            }
        }
        assert forall|k: Seq<char>| #[trigger] none_after(list, k) && !before(k, x.0) implies
            none_after(p, k) by {
            assert(none_after(less, k)) by {
                assert forall|i: int| 0 <= i < less.len() implies !before(
                    k,
                    (#[trigger] less[i]).0,
                ) by {
                    assert(!before(k, list[i].0));
                }
            }
            assert(none_after(q, k));
            assert(!before(k, list[list.len() - 1].0));
        }
    }
}

/// The kernels come in the order of their names.
pub proof fn law_kernels_in_order(files: Seq<KernelFile>)
    ensures
        ordered(by_name(files)),
    decreases files.len(),
{
    if files.len() > 0 {
        law_kernels_in_order(files.drop_last());
        if files.last().is_file {
            lemma_placed(by_name(files.drop_last()), (files.last().name@, files.last().len));
        }
    }
}

proof fn lemma_placed_keeps(list: Seq<Listed>, x: Listed)
    ensures
        placed(list, x).to_multiset() == list.to_multiset().insert(x),
    decreases list.len(),
{
    broadcast use group_to_multiset_ensures;

    if list.len() == 0 || !before(x.0, list.last().0) {
    } else {
        let less = list.drop_last();
        lemma_placed_keeps(less, x);
        assert(list =~= less.push(list.last()));
        assert(placed(list, x).to_multiset() =~= list.to_multiset().insert(x));
    }
}

/// Every kernel is listed, and none that is not there.
pub proof fn law_every_kernel_is_listed(files: Seq<KernelFile>)
    ensures
        by_name(files).to_multiset() == listed(plain(files)).to_multiset(),
    decreases files.len(),
{
    broadcast use group_to_multiset_ensures;

    reveal(Seq::filter);
    if files.len() > 0 {
        law_every_kernel_is_listed(files.drop_last());
        if files.last().is_file {
            let x = (files.last().name@, files.last().len);
            lemma_placed_keeps(by_name(files.drop_last()), x);
            assert(listed(plain(files)) =~= listed(plain(files.drop_last())).push(x));
        }
    } else {
        assert(listed(plain(files)) =~= seq![]);
    }
}

/// The plain files of a list.
pub open spec fn plain(files: Seq<KernelFile>) -> Seq<KernelFile> {
    files.filter(|f: KernelFile| f.is_file)
}

/// The kernels of a list.
pub open spec fn listed(files: Seq<KernelFile>) -> Seq<Listed> {
    files.map_values(|f: KernelFile| (f.name@, f.len))
}

fn place(list: &mut Vec<KernelFile>, x: KernelFile)
    ensures
        listed(final(list)@) == placed(listed(old(list)@), (x.name@, x.len)),
{
    let ghost before_list = listed(list@);
    let ghost s = (x.name@, x.len);
    let mut at: usize = list.len();
    assert(before_list.take(at as int) =~= before_list);
    assert(before_list.skip(at as int) =~= seq![]);
    assert(placed(before_list, s) =~= placed(before_list.take(at as int), s) + before_list.skip(
        at as int,
    ));
    while at > 0 && comes_before(x.name.as_str(), list[at - 1].name.as_str())
        invariant
            at <= list.len(),
            before_list == listed(list@),
            s == (x.name@, x.len),
            placed(before_list, s) == placed(before_list.take(at as int), s) + before_list.skip(
                at as int,
            ),
        decreases at,
    {
        let ghost cut = before_list.take(at as int);
        assert(cut.drop_last() =~= before_list.take(at - 1));
        assert(cut.last() == before_list[at - 1]);
        assert(before_list[at - 1].0 == list@[at - 1].name@);
        assert(placed(cut, s) == placed(cut.drop_last(), s).push(cut.last()));
        assert(placed(cut.drop_last(), s).push(cut.last()) + before_list.skip(at as int)
            =~= placed(before_list.take(at - 1), s) + before_list.skip(at - 1));
        at = at - 1;
    }
    proof {
        let cut = before_list.take(at as int);
        if at > 0 {
            assert(cut.last() == before_list[at - 1]);
            assert(before_list[at - 1].0 == list@[at - 1].name@);
        }
        assert(placed(cut, s) == cut.push(s));
    }
    list.insert(at, x);
    assert(listed(list@) =~= before_list.take(at as int).push(s) + before_list.skip(at as int));
}

/// A line about a kernel.
pub open spec fn kernel_line(x: Listed, names: KernelNames) -> Seq<char> {
    x.0 + "  "@ + bytes_text(x.1) + (if x.0 == names.stock@ {
        " (stock)"@
    } else if x.0 == names.docker@ {
        " (docker)"@
    } else {
        ""@
    }) + (if x.0 == names.default@ {
        " [default]"@
    } else {
        ""@
    })
}

fn line_of(name: &str, len: u64, names: &KernelNames) -> (r: String)
    ensures
        r@ == kernel_line((name@, len), *names),
{
    let size = format_bytes_binary(len);
    let label = if same(name, names.stock.as_str()) {
        " (stock)"
    } else if same(name, names.docker.as_str()) {
        " (docker)"
    } else {
        ""
    };
    let marker = if same(name, names.default.as_str()) { " [default]" } else { "" };
    name.to_owned().concat("  ").concat(size.as_str()).concat(label).concat(marker)
}

/// The lines about kernels.
pub open spec fn kernel_lines(list: Seq<Listed>, names: KernelNames) -> Seq<Seq<char>> {
    list.map_values(|x: Listed| kernel_line(x, names))
}

/// The lines about the kernels of an installation, in the order of their names.
/// `files` is what the directory holds, where there is one.
pub fn list(dir: &str, files: Option<&Vec<KernelFile>>, names: &KernelNames) -> (r: Vec<String>)
    ensures
        texts(r@) == (match files {
            None => seq!["No kernels directory found at "@ + dir@],
            Some(v) => if by_name(v@).len() == 0 {
                seq!["No kernels found in "@ + dir@]
            } else {
                kernel_lines(by_name(v@), *names)
            },
        }),
{
    let files = match files {
        Some(v) => v,
        None => {
            let t = "No kernels directory found at ".to_owned().concat(dir);
            return with(nothing(), t.as_str());
        },
    };
    let mut sorted: Vec<KernelFile> = Vec::new();
    let mut i: usize = 0;
    assert(listed(sorted@) =~= seq![]);
    while i < files.len()
        invariant
            i <= files.len(),
            listed(sorted@) == by_name(files@.take(i as int)),
        decreases files.len() - i,
    {
        assert(files@.take(i + 1).drop_last() =~= files@.take(i as int));
        if files[i].is_file {
            let f = KernelFile { name: files[i].name.clone(), len: files[i].len, is_file: true };
            place(&mut sorted, f);
        }
        i = i + 1;
    }
    assert(files@.take(i as int) =~= files@);
    assert(listed(sorted@).len() == sorted@.len());
    if sorted.len() == 0 {
        let t = "No kernels found in ".to_owned().concat(dir);
        return with(nothing(), t.as_str());
    }
    let ghost all = kernel_lines(by_name(files@), *names);
    let mut r = nothing();
    let mut k: usize = 0;
    assert(texts(r@) =~= all.take(0));
    while k < sorted.len()
        invariant
            k <= sorted.len(),
            listed(sorted@) == by_name(files@),
            all == kernel_lines(by_name(files@), *names),
            texts(r@) == all.take(k as int),
        decreases sorted.len() - k,
    {
        assert(listed(sorted@)[k as int] == (sorted@[k as int].name@, sorted@[k as int].len));
        let t = line_of(sorted[k].name.as_str(), sorted[k].len, names);
        r = with(r, t.as_str());
        assert(all[k as int] == t@);
        assert(texts(r@) =~= all.take(k + 1));
        k = k + 1;
    }
    assert(listed(sorted@).len() == sorted@.len());
    assert(all.take(k as int) =~= all);
    r
}

} // verus!
