//! How well disks share what they have in common.

use vstd::prelude::*;
use vstd::string::*;

use super::fmt::{right, right_in};
use super::lifecycle::line_if;
use crate::command::{nothing, with, Invocation, InvocationView};
use crate::macos_storage::{is_snapshot_file, DirEntry};
use crate::number::{fraction_tenths, one_decimal, tenths_text, Fraction};
use crate::text::{
    chars_of, dec, decimal, lines, lines_of, parse_u64, parsed, same, split_words, text_of, texts,
    words,
};

verus! {

/// A command for those who look into things.
#[derive(Debug)]
pub enum DebugCommand {
    StorageEfficiency,
}

/// How many files are disks, and the sum of their sizes.
pub open spec fn disks(entries: Seq<DirEntry>) -> (nat, nat)
    decreases entries.len(),
{
    if entries.len() == 0 {
        (0, 0)
    } else {
        let (n, bytes) = disks(entries.drop_last());
        if is_snapshot_file(entries.last().file_name@) {
            (n + 1, bytes + entries.last().len as nat)
        } else {
            (n, bytes)
        }
    }
}

proof fn lemma_disks_grow(entries: Seq<DirEntry>, k: int)
    requires
        0 <= k <= entries.len(),
    ensures
        disks(entries.take(k)).0 <= k,
        disks(entries.take(k)).1 <= disks(entries).1,
    decreases entries.len() - k,
{
    if k < entries.len() {
        assert(entries.take(k + 1).drop_last() =~= entries.take(k));
        lemma_disks_grow(entries, k + 1);
        lemma_count(entries, k);
    } else {
        assert(entries.take(k) =~= entries);
        lemma_count(entries, k);
    }
}

proof fn lemma_count(entries: Seq<DirEntry>, k: int)
    requires
        0 <= k <= entries.len(),
    ensures
        disks(entries.take(k)).0 <= k,
    decreases k,
{
    if k > 0 {
        lemma_count(entries, k - 1);
        assert(entries.take(k).drop_last() =~= entries.take(k - 1));
    }
}

fn is_disk(name: &str) -> (r: bool)
    ensures
        r == is_snapshot_file(name@),
{
    proof {
        reveal_strlit(".img");
    }
    let v = chars_of(name);
    if v.len() <= 4 {
        return false;
    }
    let tail = text_of(&v, v.len() - 4, v.len());
    assert(tail@ =~= name@.skip(name@.len() - 4));
    same(tail.as_str(), ".img")
}

/// How many of the files of a directory are disks, and the sum of their sizes.
pub fn count_img_files(entries: &Vec<DirEntry>) -> (r: (u64, u64))
    requires
        disks(entries@).1 <= u64::MAX,
    ensures
        r.0 == disks(entries@).0,
        r.1 == disks(entries@).1,
{
    let mut count: u64 = 0;
    let mut bytes: u64 = 0;
    let mut i: usize = 0;
    assert(entries@.take(0) =~= seq![]);
    while i < entries.len()
        invariant
            i <= entries.len(),
            disks(entries@).1 <= u64::MAX,
            count == disks(entries@.take(i as int)).0,
            bytes == disks(entries@.take(i as int)).1,
        decreases entries.len() - i,
    {
        assert(entries@.take(i + 1).drop_last() =~= entries@.take(i as int));
        proof {
            lemma_disks_grow(entries@, i + 1);
            lemma_disks_grow(entries@, i as int);
        }
        if is_disk(entries[i].file_name.as_str()) {
            count = count + 1;
            bytes = bytes + entries[i].len;
        }
        i = i + 1;
    }
    assert(entries@.take(i as int) =~= entries@);
    (count, bytes)
}

/// Asks how much of a volume is in use, for [`get_volume_used_bytes`] to read.
pub fn ask_volume(path: &str) -> (r: Invocation)
    ensures
        r@ == (InvocationView {
            program: "df"@,
            args: seq!["-k"@, path@],
            label: "df -k"@,
            start_label: "df -k"@,
        }),
{
    Invocation::new("df", "df -k").arg("-k").arg(path)
}

/// The KiB in use: the third word of the second line.
pub open spec fn used_kib(stdout: Seq<char>) -> Option<nat> {
    let l = lines_of(stdout);
    if l.len() < 2 || words(l[1]).len() < 3 {
        None
    } else {
        parsed(words(l[1])[2], u64::MAX as nat)
    }
}

/// Reads how many KiB of a volume are in use.
pub fn read_used_kib(stdout: &str) -> (r: Option<u64>)
    ensures
        match (r, used_kib(stdout@)) {
            (Some(k), Some(n)) => k == n,
            (None, None) => true,
            _ => false,
        },
{
    let l = lines(stdout);
    assert(texts(l@).len() == l@.len());
    if l.len() < 2 {
        return None;
    }
    assert(texts(l@)[1] == l@[1]@);
    let w = split_words(l[1].as_str());
    assert(texts(w@).len() == w@.len());
    if w.len() < 3 {
        return None;
    }
    assert(texts(w@)[2] == w@[2]@);
    parse_u64(w[2].as_str())
}

/// Reads how many bytes of a volume are in use.
pub fn get_volume_used_bytes(stdout: &str) -> (r: Option<u64>)
    requires
        used_kib(stdout@) matches Some(n) ==> n * 1024 <= u64::MAX,
    ensures
        match (r, used_kib(stdout@)) {
            (Some(bytes), Some(n)) => bytes == n * 1024,
            (None, None) => true,
            _ => false,
        },
{
    match read_used_kib(stdout) {
        Some(n) => Some(n * 1024),
        None => None,
    }
}

/// A size in the largest of the units gigabyte, megabyte and kilobyte that it
/// reaches, with one decimal.
pub open spec fn decimal_size(bytes: u64) -> Seq<char> {
    if bytes >= 1_000_000_000 {
        tenths_text(fraction_tenths(Fraction { num: bytes, den: 1_000_000_000 })) + " GB"@
    } else if bytes >= 1_000_000 {
        tenths_text(fraction_tenths(Fraction { num: bytes, den: 1_000_000 })) + " MB"@
    } else if bytes >= 1_000 {
        tenths_text(fraction_tenths(Fraction { num: bytes, den: 1_000 })) + " KB"@
    } else {
        dec(bytes as nat) + " B"@
    }
}

/// A size in the largest of the units gigabyte, megabyte and kilobyte that it
/// reaches, with one decimal.
pub fn format_bytes(bytes: u64) -> (r: String)
    ensures
        r@ == decimal_size(bytes),
{
    if bytes >= 1_000_000_000 {
        one_decimal(Fraction { num: bytes, den: 1_000_000_000 }).concat(" GB")
    } else if bytes >= 1_000_000 {
        one_decimal(Fraction { num: bytes, den: 1_000_000 }).concat(" MB")
    } else if bytes >= 1_000 {
        one_decimal(Fraction { num: bytes, den: 1_000 }).concat(" KB")
    } else {
        decimal(bytes).concat(" B")
    }
}

/// What was counted.
#[derive(Debug, Clone, Copy, PartialEq, Eq, Structural)]
pub struct Counts {
    pub image_count: u64,
    pub image_bytes: u64,
    pub vm_count: u64,
    pub vm_bytes: u64,
    pub snap_count: u64,
    pub snap_bytes: u64,
}

impl Counts {
    /// The bytes of all disks, as if none shared anything.
    pub open spec fn total(self) -> int {
        self.image_bytes + self.vm_bytes + self.snap_bytes
    }
}

/// What lies in the directory of machines under one name.
#[derive(Debug)]
pub struct VmDir {
    /// Whether it is a directory: nothing else belongs to a machine.
    pub is_dir: bool,
    /// The size of the disk, where there is one.
    pub rootfs: Option<u64>,
    /// The files of the directory of snapshots, where there is one.
    pub snapshots: Option<Vec<DirEntry>>,
}

impl VmDir {
    /// How many disks it holds, and their size.
    pub open spec fn disk(self) -> (nat, nat) {
        match self.rootfs {
            Some(len) if self.is_dir => (1, len as nat),
            _ => (0, 0),
        }
    }

    /// How many snapshots it holds, and the sum of their sizes.
    pub open spec fn kept(self) -> (nat, nat) {
        match self.snapshots {
            Some(entries) if self.is_dir => disks(entries@),
            _ => (0, 0),
        }
    }
}

/// How many disks machines have, and the sum of their sizes.
pub open spec fn all_disks(vms: Seq<VmDir>) -> (nat, nat)
    decreases vms.len(),
{
    if vms.len() == 0 {
        (0, 0)
    } else {
        let (n, bytes) = all_disks(vms.drop_last());
        (n + vms.last().disk().0, bytes + vms.last().disk().1)
    }
}

/// How many snapshots machines have, and the sum of their sizes.
pub open spec fn all_kept(vms: Seq<VmDir>) -> (nat, nat)
    decreases vms.len(),
{
    if vms.len() == 0 {
        (0, 0)
    } else {
        let (n, bytes) = all_kept(vms.drop_last());
        (n + vms.last().kept().0, bytes + vms.last().kept().1)
    }
}

proof fn lemma_sums_grow(vms: Seq<VmDir>, k: int)
    requires
        0 <= k <= vms.len(),
    ensures
        all_disks(vms.take(k)).0 <= k,
        all_disks(vms.take(k)).1 <= all_disks(vms).1,
        all_kept(vms.take(k)).0 <= all_kept(vms).0,
        all_kept(vms.take(k)).1 <= all_kept(vms).1,
    decreases vms.len() - k,
{
    lemma_machines(vms, k);
    if k < vms.len() {
        assert(vms.take(k + 1).drop_last() =~= vms.take(k));
        lemma_sums_grow(vms, k + 1);
    } else {
        assert(vms.take(k) =~= vms);
    }
}

proof fn lemma_machines(vms: Seq<VmDir>, k: int)
    requires
        0 <= k <= vms.len(),
    ensures
        all_disks(vms.take(k)).0 <= k,
    decreases k,
{
    if k > 0 {
        assert(vms.take(k).drop_last() =~= vms.take(k - 1));
        lemma_machines(vms, k - 1);
    }
}

/// Counts the disks of an installation: those of images, of machines and of
/// snapshots.
pub fn tally(images: &Vec<DirEntry>, vms: &Vec<VmDir>) -> (r: Counts)
    requires
        disks(images@).1 <= u64::MAX,
        all_disks(vms@).1 <= u64::MAX,
        all_kept(vms@).0 <= u64::MAX,
        all_kept(vms@).1 <= u64::MAX,
    ensures
        (r.image_count as nat, r.image_bytes as nat) == disks(images@),
        (r.vm_count as nat, r.vm_bytes as nat) == all_disks(vms@),
        (r.snap_count as nat, r.snap_bytes as nat) == all_kept(vms@),
{
    let (image_count, image_bytes) = count_img_files(images);
    let mut vm_count: u64 = 0;
    let mut vm_bytes: u64 = 0;
    let mut snap_count: u64 = 0;
    let mut snap_bytes: u64 = 0;
    let mut i: usize = 0;
    assert(vms@.take(0) =~= seq![]);
    while i < vms.len()
        invariant
            i <= vms.len(),
            all_disks(vms@).1 <= u64::MAX,
            all_kept(vms@).0 <= u64::MAX,
            all_kept(vms@).1 <= u64::MAX,
            (vm_count as nat, vm_bytes as nat) == all_disks(vms@.take(i as int)),
            (snap_count as nat, snap_bytes as nat) == all_kept(vms@.take(i as int)),
        decreases vms.len() - i,
    {
        assert(vms@.take(i + 1).drop_last() =~= vms@.take(i as int));
        assert(vms@.take(i + 1).last() == vms@[i as int]);
        proof {
            lemma_sums_grow(vms@, i + 1);
        }
        if vms[i].is_dir {
            match vms[i].rootfs {
                Some(len) => {
                    vm_count = vm_count + 1;
                    vm_bytes = vm_bytes + len;
                },
                None => {},
            }
            match &vms[i].snapshots {
                Some(entries) => {
                    let (n, bytes) = count_img_files(entries);
                    snap_count = snap_count + n;
                    snap_bytes = snap_bytes + bytes;
                },
                None => {},
            }
        }
        i = i + 1;
    }
    assert(vms@.take(i as int) =~= vms@);
    Counts { image_count, image_bytes, vm_count, vm_bytes, snap_count, snap_bytes }
}

/// A line about disks of one kind.
pub open spec fn count_line(label: Seq<char>, count: u64, bytes: u64) -> Seq<char> {
    label + right_in(dec(count as nat), 3) + " ("@ + decimal_size(bytes) + " logical)"@
}

fn count_text(label: &str, count: u64, bytes: u64) -> (r: String)
    ensures
        r@ == count_line(label@, count, bytes),
{
    let n = decimal(count);
    let n = right(n.as_str(), 3);
    let b = format_bytes(bytes);
    label.to_owned().concat(n.as_str()).concat(" (").concat(b.as_str()).concat(" logical)")
}

/// The lines about what is really in use.
pub open spec fn used_lines(total: u64, used: Option<u64>) -> Seq<Seq<char>> {
    match used {
        None => seq!["Actual disk used:  (could not determine)"@],
        Some(u) => seq!["Actual disk used:  "@ + decimal_size(u) + " (via df)"@] + line_if(
            u > 0 && total > u,
            "CoW efficiency:    "@ + tenths_text(fraction_tenths(Fraction { num: total, den: u }))
                + "x space savings"@,
        ),
    }
}

/// The lines of the report on how well disks share what they have in common.
pub fn storage_efficiency(counts: Counts, used: Option<u64>) -> (r: Vec<String>)
    requires
        counts.total() <= u64::MAX,
    ensures
        texts(r@) == seq![
            ""@,
            "Storage Efficiency Report"@,
            "────────────────────────────────────────"@,
            count_line("Images:        "@, counts.image_count, counts.image_bytes),
            count_line("VMs:           "@, counts.vm_count, counts.vm_bytes),
            count_line("Snapshots:     "@, counts.snap_count, counts.snap_bytes),
            "                   ──────────────────────"@,
            "Total logical:     "@ + decimal_size(counts.total() as u64),
        ] + used_lines(counts.total() as u64, used) + seq![""@],
{
    let total: u64 = counts.image_bytes + counts.vm_bytes + counts.snap_bytes;
    let images = count_text("Images:        ", counts.image_count, counts.image_bytes);
    let vms = count_text("VMs:           ", counts.vm_count, counts.vm_bytes);
    let snaps = count_text("Snapshots:     ", counts.snap_count, counts.snap_bytes);
    let t = format_bytes(total);
    let sum = "Total logical:     ".to_owned().concat(t.as_str());
    let r = with(with(nothing(), ""), "Storage Efficiency Report");
    let r = with(r, "────────────────────────────────────────");
    let r = with(with(with(r, images.as_str()), vms.as_str()), snaps.as_str());
    let r = with(r, "                   ──────────────────────");
    let mut r = with(r, sum.as_str());
    let ghost head = texts(r@);
    match used {
        None => {
            r = with(r, "Actual disk used:  (could not determine)");
        },
        Some(u) => {
            let s = format_bytes(u);
            let line = "Actual disk used:  ".to_owned().concat(s.as_str()).concat(" (via df)");
            r = with(r, line.as_str());
            if u > 0 && total > u {
                let x = one_decimal(Fraction { num: total, den: u });
                let line = "CoW efficiency:    ".to_owned().concat(x.as_str()).concat(
                    "x space savings",
                );
                r = with(r, line.as_str());
            }
        },
    }
    assert(texts(r@) =~= head + used_lines(total, used));
    let r = with(r, "");
    assert(texts(r@) =~= head + used_lines(total, used) + seq![""@]);
    r
}

} // verus!
