//! What an installation is.

use vstd::prelude::*;
use vstd::string::*;

use super::fmt::{
    bytes_opt_text, bytes_text, format_bytes_binary, format_bytes_opt, format_percent,
    format_ratio, percent_text, ratio_text,
};
use super::lifecycle::{extra_lines, line_if, with_extra};
use super::storage::pool_ratio;
use crate::command::{nothing, with};
use crate::config::GlobalConfig;
use crate::text::{dec, decimal, texts};
use crate::usage::{minus, PoolUsage};
use crate::vm::{VmMetadata, VmStatus};

verus! {

/// How many of the first `n` machines run.
pub open spec fn running(vms: Seq<VmMetadata>, n: int) -> nat
    decreases n,
{
    if n <= 0 {
        0
    } else {
        running(vms, n - 1) + (if vms[n - 1].status == VmStatus::Running {
            1nat
        } else {
            0
        })
    }
}

fn count_running(vms: &Vec<VmMetadata>) -> (r: u64)
    ensures
        r == running(vms@, vms@.len() as int),
{
    let mut n: u64 = 0;
    let mut i: usize = 0;
    while i < vms.len()
        invariant
            i <= vms.len(),
            n == running(vms@, i as int),
            n <= i,
        decreases vms.len() - i,
    {
        if vms[i].status == VmStatus::Running {
            n = n + 1;
        }
        i = i + 1;
    }
    n
}

/// The bytes that a pool may still hand out.
pub open spec fn addressable_left(pool: PoolUsage) -> Option<u64> {
    match pool.addressable {
        Some(a) => Some(
            minus(
                a,
                match pool.logical {
                    Some(l) => l,
                    None => 0u64,
                },
            ),
        ),
        None => None,
    }
}

/// The lines about a pool.
pub open spec fn capacity_lines(pool: PoolUsage) -> Seq<Seq<char>> {
    seq![
        "Capacity:    "@ + bytes_text(pool.allocated) + " of "@ + bytes_text(pool.capacity)
            + " used ("@ + percent_text(pool.allocated, pool.capacity) + "), "@ + bytes_text(
            minus(pool.capacity, pool.allocated),
        ) + " free"@,
    ] + line_if(
        pool_ratio(pool) is Some,
        "Compression: "@ + bytes_text(pool.logical->0) + " logical ("@ + ratio_text(
            pool_ratio(pool),
        ) + ")"@,
    ) + line_if(
        pool.addressable is Some && pool.addressable->0 != pool.capacity,
        "Addressable: "@ + bytes_text(pool.addressable->0) + " exposed, "@ + bytes_opt_text(
            addressable_left(pool),
        ) + " left to hand out"@,
    )
}

fn with_capacity(lines: Vec<String>, pool: &PoolUsage) -> (r: Vec<String>)
    ensures
        texts(r@) == texts(lines@) + capacity_lines(*pool),
{
    let ghost before = texts(lines@);
    let allocated = format_bytes_binary(pool.allocated);
    let capacity = format_bytes_binary(pool.capacity);
    let percent = format_percent(pool.allocated, pool.capacity);
    let free = format_bytes_binary(pool.free());
    let t = "Capacity:    ".to_owned().concat(allocated.as_str()).concat(" of ").concat(
        capacity.as_str(),
    ).concat(" used (").concat(percent.as_str()).concat("), ").concat(free.as_str()).concat(
        " free",
    );
    let mut r = with(lines, t.as_str());
    match (pool.logical, pool.compression_ratio()) {
        (Some(logical), Some(ratio)) => {
            let l = format_bytes_binary(logical);
            let x = format_ratio(Some(ratio));
            let t = "Compression: ".to_owned().concat(l.as_str()).concat(" logical (").concat(
                x.as_str(),
            ).concat(")");
            r = with(r, t.as_str());
        },
        _ => {},
    }
    match pool.addressable {
        Some(a) => {
            if a != pool.capacity {
                let x = format_bytes_binary(a);
                let left = format_bytes_opt(pool.addressable_free());
                let t = "Addressable: ".to_owned().concat(x.as_str()).concat(
                    " exposed, ",
                ).concat(left.as_str()).concat(" left to hand out");
                r = with(r, t.as_str());
            }
        },
        None => {},
    }
    assert(texts(r@) =~= before + capacity_lines(*pool));
    r
}

/// The lines about an installation.
pub open spec fn info_lines(
    state_dir: Seq<char>,
    extra: Seq<(String, String)>,
    kernel: Option<String>,
    images: nat,
    vms: Seq<VmMetadata>,
    pool: Option<PoolUsage>,
) -> Seq<Seq<char>> {
    seq!["State dir:   "@ + state_dir] + extra_lines(extra, extra.len() as int) + seq![
        "Kernel:      "@ + (match kernel {
            Some(k) => k@,
            None => "(downloaded on first vm create)"@,
        }),
        "Images:      "@ + dec(images),
        "VMs:         "@ + dec(vms.len()) + " ("@ + dec(running(vms, vms.len() as int))
            + " running)"@,
    ] + (match pool {
        Some(p) => capacity_lines(p),
        None => seq![],
    })
}

/// The lines about an installation. `extra` is what the platform adds, `images`
/// is how many there are, and `pool` is what the storage holds, where that could
/// be found out.
pub fn run(
    state_dir: &str,
    extra: &Vec<(String, String)>,
    config: &GlobalConfig,
    images: u64,
    vms: &Vec<VmMetadata>,
    pool: Option<&PoolUsage>,
) -> (r: Vec<String>)
    ensures
        texts(r@) == info_lines(
            state_dir@,
            extra@,
            config.kernel_path,
            images as nat,
            vms@,
            match pool {
                Some(p) => Some(*p),
                None => None,
            },
        ),
{
    let t = "State dir:   ".to_owned().concat(state_dir);
    let r = with(nothing(), t.as_str());
    assert(texts(r@) =~= seq!["State dir:   "@ + state_dir@]);
    let r = with_extra(r, extra);
    let ghost head = texts(r@);
    let kernel = match &config.kernel_path {
        Some(k) => k.as_str(),
        None => "(downloaded on first vm create)",
    };
    let t = "Kernel:      ".to_owned().concat(kernel);
    let r = with(r, t.as_str());
    let n = decimal(images);
    let t = "Images:      ".to_owned().concat(n.as_str());
    let r = with(r, t.as_str());
    let all = decimal(vms.len() as u64);
    let active = decimal(count_running(vms));
    let t = "VMs:         ".to_owned().concat(all.as_str()).concat(" (").concat(
        active.as_str(),
    ).concat(" running)");
    let r = with(r, t.as_str());
    let ghost mid = head + seq![
        "Kernel:      "@ + kernel@,
        "Images:      "@ + dec(images as nat),
        "VMs:         "@ + dec(vms@.len()) + " ("@ + dec(running(vms@, vms@.len() as int))
            + " running)"@,
    ];
    assert(texts(r@) =~= mid);
    match pool {
        Some(p) => with_capacity(r, p),
        None => {
            assert(mid =~= mid + seq![]);
            r
        },
    }
}

/// The error for an installation that is not there.
pub fn not_initialized(state_dir: &str, hint: &str) -> (r: String)
    ensures
        r@ == "ember is not initialized (no state directory at "@ + state_dir@ + ")\n"@ + hint@,
{
    "ember is not initialized (no state directory at ".to_owned().concat(state_dir).concat(
        ")\n",
    ).concat(hint)
}

} // verus!
