//! What the storage holds.

use vstd::prelude::*;
use vstd::string::*;

use super::fmt::{
    bytes_opt_text, bytes_text, format_bytes_binary, format_bytes_opt, format_percent,
    format_ratio, percent_text, print_table, ratio_text, table_lines, table_of, Align,
};
use super::lifecycle::line_if;
use super::vm::OutputFormat;
use crate::command::{nothing, with};
use crate::iptables::{with_texts, words_of};
use crate::size::ByteSize;
use crate::text::texts;
use crate::usage::{minus, ratio_of, PoolUsage, StorageUsage, VolumeTable, VolumeUsage};

verus! {

#[derive(Debug)]
pub struct GrowArgs {
    pub size: ByteSize,
}

#[derive(Debug)]
pub struct UsageArgs {
    pub format: OutputFormat,
}

/// A command about the storage.
#[derive(Debug)]
pub enum StorageCommand {
    Grow(GrowArgs),
    Usage(UsageArgs),
}

/// What of a pool holds data, in bytes.
pub open spec fn occupied_of(pool: PoolUsage) -> u64 {
    minus(pool.allocated, pool.reserved)
}

/// How much smaller compression made the data of a pool.
pub open spec fn pool_ratio(pool: PoolUsage) -> Option<crate::number::Fraction> {
    ratio_of(pool.logical, Some(occupied_of(pool)))
}

/// The lines about a pool.
pub open spec fn pool_lines(pool: PoolUsage) -> Seq<Seq<char>> {
    seq![
        "Pool          "@ + bytes_text(pool.capacity) + " capacity, "@ + bytes_text(pool.allocated)
            + " used ("@ + percent_text(pool.allocated, pool.capacity) + "), "@ + bytes_text(
            minus(pool.capacity, pool.allocated),
        ) + " free"@,
    ] + line_if(
        pool_ratio(pool) is Some,
        "Compression   "@ + bytes_text(pool.logical->0) + " logical -> "@ + bytes_text(
            pool.allocated,
        ) + " on disk ("@ + ratio_text(pool_ratio(pool)) + ")"@,
    ) + line_if(
        pool.metadata is Some,
        "Metadata      "@ + bytes_text(pool.metadata->0.used) + " of "@ + bytes_text(
            pool.metadata->0.capacity,
        ) + " used ("@ + percent_text(pool.metadata->0.used, pool.metadata->0.capacity) + ")"@,
    )
}

fn pool_text(pool: &PoolUsage) -> (r: Vec<String>)
    ensures
        texts(r@) == pool_lines(*pool),
{
    let capacity = format_bytes_binary(pool.capacity);
    let allocated = format_bytes_binary(pool.allocated);
    let percent = format_percent(pool.allocated, pool.capacity);
    let free = format_bytes_binary(pool.free());
    let first = "Pool          ".to_owned().concat(capacity.as_str()).concat(
        " capacity, ",
    ).concat(allocated.as_str()).concat(" used (").concat(percent.as_str()).concat("), ").concat(
        free.as_str(),
    ).concat(" free");
    let mut r = with(nothing(), first.as_str());
    let ghost one = texts(r@);
    match (pool.logical, pool.compression_ratio()) {
        (Some(logical), Some(ratio)) => {
            let l = format_bytes_binary(logical);
            let x = format_ratio(Some(ratio));
            let t = "Compression   ".to_owned().concat(l.as_str()).concat(" logical -> ").concat(
                allocated.as_str(),
            ).concat(" on disk (").concat(x.as_str()).concat(")");
            r = with(r, t.as_str());
        },
        _ => {},
    }
    let ghost two = texts(r@);
    match pool.metadata {
        Some(meta) => {
            let used = format_bytes_binary(meta.used);
            let of = format_bytes_binary(meta.capacity);
            let p = format_percent(meta.used, meta.capacity);
            let t = "Metadata      ".to_owned().concat(used.as_str()).concat(" of ").concat(
                of.as_str(),
            ).concat(" used (").concat(p.as_str()).concat(")");
            r = with(r, t.as_str());
        },
        None => {},
    }
    assert(texts(r@) =~= pool_lines(*pool));
    r
}

/// The row of a volume.
pub open spec fn volume_row(name: Seq<char>, u: VolumeUsage) -> Seq<Seq<char>> {
    seq![
        name,
        bytes_text(u.provisioned),
        bytes_opt_text(u.referenced),
        bytes_text(u.exclusive),
        bytes_opt_text(
            match u.referenced {
                Some(x) => Some(minus(x, u.exclusive)),
                None => None,
            },
        ),
        ratio_text(ratio_of(u.logical, u.referenced)),
    ]
}

/// The rows of volumes.
pub open spec fn volume_rows(entries: Seq<(Seq<char>, VolumeUsage)>) -> Seq<Seq<Seq<char>>> {
    entries.map_values(|e: (Seq<char>, VolumeUsage)| volume_row(e.0, e.1))
}

/// The headings of a table of volumes.
pub open spec fn volume_headers() -> Seq<Seq<char>> {
    seq!["NAME"@, "PROVISIONED"@, "REFERENCED"@, "EXCLUSIVE"@, "SHARED"@, "RATIO"@]
}

/// How the columns of a table of volumes are aligned.
pub open spec fn volume_aligns() -> Seq<Align> {
    seq![Align::Left, Align::Right, Align::Right, Align::Right, Align::Right, Align::Right]
}

/// The lines of a section of volumes; none when there are none.
pub open spec fn section_lines(heading: Seq<char>, entries: Seq<(Seq<char>, VolumeUsage)>) -> Seq<
    Seq<char>,
> {
    if entries.len() == 0 {
        seq![]
    } else {
        seq![""@, heading] + table_lines(volume_headers(), volume_aligns(), volume_rows(entries))
    }
}

fn row_of(name: &str, u: &VolumeUsage) -> (r: Vec<String>)
    ensures
        texts(r@) == volume_row(name@, *u),
        r@.len() == 6,
{
    let a = format_bytes_binary(u.provisioned);
    let b = format_bytes_opt(u.referenced);
    let c = format_bytes_binary(u.exclusive);
    let d = format_bytes_opt(u.shared());
    let e = format_ratio(u.compression_ratio());
    let r = with(
        with(
            with(with(with(with(nothing(), name), a.as_str()), b.as_str()), c.as_str()),
            d.as_str(),
        ),
        e.as_str(),
    );
    assert(texts(r@) =~= volume_row(name@, *u));
    assert(texts(r@).len() == r@.len());
    r
}

/// The lines of a section of volumes; none when there are none.
pub fn print_section(heading: &str, volumes: &VolumeTable) -> (r: Vec<String>)
    ensures
        texts(r@) == section_lines(heading@, volumes.entries()),
{
    if volumes.len() == 0 {
        return nothing();
    }
    let ghost entries = volumes.entries();
    let mut rows: Vec<Vec<String>> = Vec::new();
    let mut i: usize = 0;
    assert(table_of(rows@) =~= volume_rows(entries).take(0));
    while i < volumes.len()
        invariant
            i <= entries.len(),
            entries == volumes.entries(),
            table_of(rows@) == volume_rows(entries).take(i as int),
            forall|k: int| 0 <= k < rows@.len() ==> (#[trigger] rows@[k])@.len() == 6,
        decreases entries.len() - i,
    {
        let e = volumes.row(i);
        let row = row_of(e.name.as_str(), &e.usage);
        let ghost before = rows@;
        rows.push(row);
        assert(volume_rows(entries)[i as int] == texts(row@));
        assert(table_of(rows@) =~= table_of(before).push(texts(row@)));
        assert(table_of(rows@) =~= volume_rows(entries).take(i + 1));
        i = i + 1;
    }
    assert(volume_rows(entries).take(i as int) =~= volume_rows(entries));
    let headers = ["NAME", "PROVISIONED", "REFERENCED", "EXCLUSIVE", "SHARED", "RATIO"];
    let aligns = [
        Align::Left,
        Align::Right,
        Align::Right,
        Align::Right,
        Align::Right,
        Align::Right,
    ];
    assert(words_of(headers@) =~= volume_headers());
    assert(aligns@ =~= volume_aligns());
    let table = print_table(&headers, &aligns, &rows);
    let head = with(with(nothing(), ""), heading);
    assert(texts(head@) =~= seq![""@, heading@]);
    with_texts(head, &table)
}

/// The lines about what the storage holds.
pub fn print_usage(usage: &StorageUsage) -> (r: Vec<String>)
    ensures
        texts(r@) == seq![""@] + pool_lines(usage.pool) + section_lines(
            "VMS"@,
            usage.vms.entries(),
        ) + section_lines("IMAGES"@, usage.images.entries()) + seq![""@],
{
    let pool = pool_text(&usage.pool);
    let vms = print_section("VMS", &usage.vms);
    let images = print_section("IMAGES", &usage.images);
    let r = with(nothing(), "");
    assert(texts(r@) =~= seq![""@]);
    let r = with_texts(r, &pool);
    let r = with_texts(r, &vms);
    let r = with_texts(r, &images);
    let ghost before = texts(r@);
    let r = with(r, "");
    assert(texts(r@) =~= before + seq![""@]);
    r
}

} // verus!
