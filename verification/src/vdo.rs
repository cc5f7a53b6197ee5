//! The compression layer under a thin pool: a dm-vdo volume.

use vstd::prelude::*;
use vstd::string::*;

use crate::command::{given, Invocation, InvocationView};
use crate::dm;
use crate::dm::{
    create_call, device_path_of, dmsetup, is_invalid_argument, load_call, message_call, provides,
    remove_call, resume_call, wrote, SECTOR_SIZE,
};
use crate::error::{error_text, outcome, Error, ErrorView};
use crate::number::{
    format_size, lemma_hundredths, percent, percent_tenths, size_for_people, tenths_text, Fraction,
};
use crate::procedure::{must, plan, Step, StepView};
use crate::size::{GIB, MIB, TIB};
use crate::text::{
    around, bare, dec, decimal, is_word, lemma_dec_is_word, lemma_dec_parsed, lemma_words_more,
    lemma_words_one, lemma_words_strung, number_fault, parse_max, parsed, pieces, quoted, quoted_text, same,
    split, split_once, split_words, strip_padding, strung, texts, trim, trimmed, words,
};

verus! {

/// The bytes of a block of a volume.
pub const BLOCK_SIZE: u64 = 4096;

const MIN_IO_SIZE: u64 = 4096;

const BLOCK_MAP_CACHE_BLOCKS: u64 = 32_768;

const BLOCK_MAP_ERA_LENGTH: u64 = 16_380;

/// The least physical space that a volume is worth having on.
pub const MIN_PHYSICAL_BYTES: u64 = 32 * 1024 * 1024 * 1024;

/// The most that a volume can hand out.
pub const MAX_LOGICAL_BYTES: u64 = 4 * 1024 * 1024 * 1024 * 1024 * 1024;

const MIN_GROWTH_BLOCKS: u64 = 32_832;

/// The bytes by which the physical space of a volume is managed.
pub const SLAB_BYTES: u64 = 524_288 * BLOCK_SIZE;

/// The most physical space that a volume can manage.
pub const MAX_PHYSICAL_BYTES: u64 = 8192 * SLAB_BYTES;

/// The double nearest to 0.95, times two to the power of 53.
pub const REFUSE_FULL: u64 = 8_556_839_292_003_942;

/// The double nearest to 0.85, times two to the power of 53.
pub const WARN_FULL: u64 = 7_656_119_366_529_843;

/// `bytes` rounded down to whole blocks.
pub open spec fn whole_blocks(bytes: nat) -> nat {
    bytes / BLOCK_SIZE as nat * BLOCK_SIZE as nat
}

/// `bytes` rounded down to whole blocks.
pub fn align_down(bytes: u64) -> (r: u64)
    ensures
        r == whole_blocks(bytes as nat),
        r <= bytes,
{
    bytes / BLOCK_SIZE * BLOCK_SIZE
}

/// Rounding down to whole blocks gives whole blocks, loses less than one block,
/// and changes nothing the second time.
pub proof fn law_align_down(bytes: nat)
    ensures
        whole_blocks(bytes) % BLOCK_SIZE as nat == 0,
        whole_blocks(bytes) <= bytes < whole_blocks(bytes) + BLOCK_SIZE,
        whole_blocks(whole_blocks(bytes)) == whole_blocks(bytes),
{
}

/// The name of the volume of an installation.
pub open spec fn name_of(instance_id: Option<Seq<char>>) -> Seq<char> {
    match instance_id {
        None => "ember-vdo"@,
        Some(id) => "ember-"@ + id + "-vdo"@,
    }
}

/// The name of the volume of an installation.
pub fn name(instance_id: Option<&str>) -> (r: String)
    ensures
        r@ == name_of(crate::config::opt_str(instance_id)),
{
    match instance_id {
        None => "ember-vdo".to_owned(),
        Some(id) => "ember-".to_owned().concat(id).concat("-vdo"),
    }
}

/// Where a volume shows.
pub fn device_path(vdo_name: &str) -> (r: String)
    ensures
        r@ == device_path_of(vdo_name@),
{
    dm::device_path(vdo_name)
}

/// The memory of the deduplication index, in quarters of a gibibyte.
#[derive(Clone, Copy, Debug, PartialEq, Eq, PartialOrd, Ord)]
pub struct IndexMemory(pub u32);

/// `n / d`, rounded up.
pub open spec fn ceil_div(n: nat, d: nat) -> nat {
    (n + d - 1) as nat / d
}

/// The quarters of a gibibyte for a volume of so many bytes: one gibibyte for
/// each tebibyte, rounded up to a figure that the tool accepts.
pub open spec fn index_quarters(physical: nat) -> nat {
    let exact = ceil_div(physical * 4, TIB as nat);
    let at_least_one = if exact < 1 {
        1
    } else {
        exact
    };
    let accepted = if at_least_one <= 3 {
        at_least_one
    } else {
        ceil_div(at_least_one, 4) * 4
    };
    if accepted > 4096 {
        4096
    } else {
        accepted
    }
}

impl IndexMemory {
    /// The memory for a volume of so many bytes.
    pub fn for_physical_size(physical_bytes: u64) -> (r: IndexMemory)
        ensures
            r.0 == index_quarters(physical_bytes as nat),
            1 <= r.0 <= 4096,
    {
        let tib: u128 = TIB as u128;
        let exact: u128 = (physical_bytes as u128 * 4 + (tib - 1)) / tib;
        let at_least_one: u128 = if exact < 1 { 1 } else { exact };
        let accepted: u128 = if at_least_one <= 3 {
            at_least_one
        } else {
            (at_least_one + 3) / 4 * 4
        };
        let capped: u128 = if accepted > 4096 { 4096 } else { accepted };
        IndexMemory(capped as u32)
    }

    /// The figure that the tool takes.
    pub open spec fn arg_text(self) -> Seq<char> {
        if self.0 == 1 {
            "0.25"@
        } else if self.0 == 2 {
            "0.5"@
        } else if self.0 == 3 {
            "0.75"@
        } else {
            dec((self.0 / 4) as nat)
        }
    }

    /// The figure that the tool takes.
    pub fn arg(&self) -> (r: String)
        ensures
            r@ == self.arg_text(),
    {
        if self.0 == 1 {
            "0.25".to_owned()
        } else if self.0 == 2 {
            "0.5".to_owned()
        } else if self.0 == 3 {
            "0.75".to_owned()
        } else {
            decimal((self.0 / 4) as u64)
        }
    }

    /// The bytes that the index takes.
    pub fn ram_bytes(&self) -> (r: u64)
        ensures
            r == self.0 * (GIB / 4),
    {
        self.0 as u64 * (GIB / 4)
    }
}

/// What a volume is made of.
#[derive(Clone, Copy, Debug, PartialEq, Eq, Structural)]
pub struct Params {
    pub logical_size: u64,
    pub physical_size: u64,
    pub deduplication: bool,
    pub max_discard_blocks: u64,
}

/// The device-mapper table of a volume.
pub open spec fn table_of(backing: Seq<char>, p: Params) -> Seq<char> {
    let discard = if p.max_discard_blocks < 1 {
        1
    } else {
        p.max_discard_blocks as nat
    };
    "0 "@ + dec((p.logical_size / SECTOR_SIZE) as nat) + " vdo V4 "@ + backing + " "@ + dec(
        (p.physical_size / BLOCK_SIZE) as nat,
    ) + " 4096 32768 16380 compression on deduplication "@ + (if p.deduplication {
        "on"@
    } else {
        "off"@
    }) + " maxDiscard "@ + dec(discard)
}

/// The device-mapper table of a volume.
pub fn table(backing: &str, params: &Params) -> (r: String)
    ensures
        r@ == table_of(backing@, *params),
{
    let sectors = decimal(params.logical_size / SECTOR_SIZE);
    let blocks = decimal(params.physical_size / BLOCK_SIZE);
    let dedup = if params.deduplication {
        "on"
    } else {
        "off"
    };
    let discard: u64 = if params.max_discard_blocks < 1 { 1 } else { params.max_discard_blocks };
    let discard_digits = decimal(discard);
    "0 ".to_owned().concat(sectors.as_str()).concat(" vdo V4 ").concat(backing).concat(" ").concat(
        blocks.as_str(),
    ).concat(" 4096 32768 16380 compression on deduplication ").concat(dedup).concat(
        " maxDiscard ",
    ).concat(discard_digits.as_str())
}

/// Refuses to go on when a listing of targets lacks the one of volumes.
pub fn ensure_target_loaded(listing: &str) -> (r: Result<(), Error>)
    ensures
        outcome(r) == (if provides(listing@, "vdo"@) {
            Ok::<(), ErrorView>(())
        } else {
            Err(dm::missing_target("dm-vdo"@, "vdo"@, "CONFIG_DM_VDO"@))
        }),
{
    dm::ensure_target(listing, "dm-vdo", "vdo", "CONFIG_DM_VDO")
}

/// The error for a tool that was not found.
pub open spec fn no_format_tool() -> ErrorView {
    ErrorView::Config(
        "vdoformat is not installed, and a VDO volume cannot be created without it. It ships in the 'vdo' package on Debian, Ubuntu, Fedora, and RHEL, and in the AUR as 'vdo' on Arch."@,
    )
}

/// Refuses to go on when the tool that formats volumes was not found.
pub fn ensure_format_tool(found: bool) -> (r: Result<(), Error>)
    ensures
        outcome(r) == (if found {
            Ok::<(), ErrorView>(())
        } else {
            Err(no_format_tool())
        }),
{
    if found {
        return Ok(());
    }
    Err(
        Error::Config(
            "vdoformat is not installed, and a VDO volume cannot be created without it. It ships in the 'vdo' package on Debian, Ubuntu, Fedora, and RHEL, and in the AUR as 'vdo' on Arch.".to_owned(),
        ),
    )
}

/// Whether a volume may have so much physical space, and why not.
pub open spec fn physical_verdict(bytes: nat) -> Result<(), ErrorView> {
    if bytes < MIN_PHYSICAL_BYTES {
        Err(
            ErrorView::Config(
                "--vdo needs at least "@ + size_for_people(MIN_PHYSICAL_BYTES as nat)
                    + " of physical space (got "@ + size_for_people(bytes)
                    + "). A VDO volume reserves several gigabytes for its own metadata and deduplication index before it stores anything, so below this the overhead outweighs the savings."@,
            ),
        )
    } else if bytes > MAX_PHYSICAL_BYTES {
        Err(
            ErrorView::Config(
                "--vdo manages at most "@ + size_for_people(MAX_PHYSICAL_BYTES as nat) + " ("@
                    + "8192"@ + " slabs of "@ + size_for_people(SLAB_BYTES as nat) + "), and "@
                    + size_for_people(bytes) + " was requested."@,
            ),
        )
    } else {
        Ok(())
    }
}

/// Refuses physical space that a volume cannot be on.
pub fn check_physical_size(bytes: u64) -> (r: Result<(), Error>)
    ensures
        outcome(r) == physical_verdict(bytes as nat),
{
    let got = format_size(bytes);
    if bytes < MIN_PHYSICAL_BYTES {
        let least = format_size(MIN_PHYSICAL_BYTES);
        return Err(
            Error::Config(
                "--vdo needs at least ".to_owned().concat(least.as_str()).concat(
                    " of physical space (got ",
                ).concat(got.as_str()).concat(
                    "). A VDO volume reserves several gigabytes for its own metadata and deduplication index before it stores anything, so below this the overhead outweighs the savings.",
                ),
            ),
        );
    }
    if bytes > MAX_PHYSICAL_BYTES {
        let most = format_size(MAX_PHYSICAL_BYTES);
        let slab = format_size(SLAB_BYTES);
        return Err(
            Error::Config(
                "--vdo manages at most ".to_owned().concat(most.as_str()).concat(" (").concat(
                    "8192",
                ).concat(" slabs of ").concat(slab.as_str()).concat("), and ").concat(
                    got.as_str(),
                ).concat(" was requested."),
            ),
        );
    }
    Ok(())
}

/// Whether a volume may hand out so much, and why not.
pub open spec fn logical_verdict(bytes: nat) -> Result<(), ErrorView> {
    if bytes < MIN_PHYSICAL_BYTES {
        Err(
            ErrorView::Config(
                "--vdo-logical-size must be at least "@ + size_for_people(
                    MIN_PHYSICAL_BYTES as nat,
                ) + " (got "@ + size_for_people(bytes) + ")."@,
            ),
        )
    } else if bytes > MAX_LOGICAL_BYTES {
        Err(
            ErrorView::Config(
                "--vdo-logical-size cannot exceed "@ + size_for_people(MAX_LOGICAL_BYTES as nat)
                    + " (got "@ + size_for_people(bytes) + ")."@,
            ),
        )
    } else {
        Ok(())
    }
}

/// Refuses what a volume cannot hand out.
pub fn check_logical_size(bytes: u64) -> (r: Result<(), Error>)
    ensures
        outcome(r) == logical_verdict(bytes as nat),
{
    let got = format_size(bytes);
    if bytes < MIN_PHYSICAL_BYTES {
        let least = format_size(MIN_PHYSICAL_BYTES);
        return Err(
            Error::Config(
                "--vdo-logical-size must be at least ".to_owned().concat(least.as_str()).concat(
                    " (got ",
                ).concat(got.as_str()).concat(")."),
            ),
        );
    }
    if bytes > MAX_LOGICAL_BYTES {
        let most = format_size(MAX_LOGICAL_BYTES);
        return Err(
            Error::Config(
                "--vdo-logical-size cannot exceed ".to_owned().concat(most.as_str()).concat(
                    " (got ",
                ).concat(got.as_str()).concat(")."),
            ),
        );
    }
    Ok(())
}

/// Why a dimension may not become smaller.
pub open spec fn shrink_error(dimension: Seq<char>, old_size: nat, new_size: nat) -> ErrorView {
    ErrorView::Config(
        "a VDO volume cannot shrink: "@ + dimension + " size is "@ + size_for_people(old_size)
            + " and "@ + size_for_people(new_size) + " was requested"@,
    )
}

/// Whether a volume may become what `new` says, and why not.
pub open spec fn growth_verdict(old: Params, new: Params) -> Result<(), ErrorView> {
    let growth = new.physical_size - old.physical_size;
    if growth < 0 {
        Err(shrink_error("physical"@, old.physical_size as nat, new.physical_size as nat))
    } else if new.logical_size < old.logical_size {
        Err(shrink_error("logical"@, old.logical_size as nat, new.logical_size as nat))
    } else if new.logical_size > MAX_LOGICAL_BYTES {
        Err(
            ErrorView::Config(
                "a VDO volume cannot address more than "@ + size_for_people(
                    MAX_LOGICAL_BYTES as nat,
                ) + " (got "@ + size_for_people(new.logical_size as nat) + ")"@,
            ),
        )
    } else if 0 < growth < SLAB_BYTES {
        Err(
            ErrorView::Config(
                "a VDO volume grows one "@ + size_for_people(SLAB_BYTES as nat)
                    + " slab at a time, so physical space must increase by at least "@
                    + size_for_people(SLAB_BYTES as nat) + " (got "@ + size_for_people(
                    growth as nat,
                ) + ")"@,
            ),
        )
    } else {
        Ok(())
    }
}

fn shrinks(dimension: &str, old_size: u64, new_size: u64) -> (r: Error)
    ensures
        r@ == shrink_error(dimension@, old_size as nat, new_size as nat),
{
    let was = format_size(old_size);
    let wanted = format_size(new_size);
    Error::Config(
        "a VDO volume cannot shrink: ".to_owned().concat(dimension).concat(" size is ").concat(
            was.as_str(),
        ).concat(" and ").concat(wanted.as_str()).concat(" was requested"),
    )
}

/// Refuses a growth that the kernel would refuse.
pub fn check_growth(before: &Params, after: &Params) -> (r: Result<(), Error>)
    ensures
        outcome(r) == growth_verdict(*before, *after),
{
    if after.physical_size < before.physical_size {
        return Err(shrinks("physical", before.physical_size, after.physical_size));
    }
    if after.logical_size < before.logical_size {
        return Err(shrinks("logical", before.logical_size, after.logical_size));
    }
    if after.logical_size > MAX_LOGICAL_BYTES {
        let most = format_size(MAX_LOGICAL_BYTES);
        let got = format_size(after.logical_size);
        return Err(
            Error::Config(
                "a VDO volume cannot address more than ".to_owned().concat(most.as_str()).concat(
                    " (got ",
                ).concat(got.as_str()).concat(")"),
            ),
        );
    }
    let growth: u64 = after.physical_size - before.physical_size;
    if growth == 0 {
        return Ok(());
    }
    let journal: u64 = MIN_GROWTH_BLOCKS * BLOCK_SIZE;
    let minimum: u64 = if journal > SLAB_BYTES { journal } else { SLAB_BYTES };
    if growth < minimum {
        let slab = format_size(SLAB_BYTES);
        let least = format_size(minimum);
        let got = format_size(growth);
        return Err(
            Error::Config(
                "a VDO volume grows one ".to_owned().concat(slab.as_str()).concat(
                    " slab at a time, so physical space must increase by at least ",
                ).concat(least.as_str()).concat(" (got ").concat(got.as_str()).concat(")"),
            ),
        );
    }
    Ok(())
}

/// A growth that is accepted shrinks nothing, and what is added to the
/// physical space is nothing or at least a slab.
pub proof fn law_accepted_growth(old_params: Params, new_params: Params)
    ensures
        growth_verdict(old_params, new_params) is Ok <==> {
            &&& new_params.physical_size >= old_params.physical_size
            &&& new_params.logical_size >= old_params.logical_size
            &&& new_params.logical_size <= MAX_LOGICAL_BYTES
            &&& new_params.physical_size == old_params.physical_size || new_params.physical_size
                - old_params.physical_size >= SLAB_BYTES
        },
{
}

/// What a volume hands out when its physical space changes and the proportion
/// of the two is kept: in whole blocks, and never less than before.
pub open spec fn scaled(old_physical: nat, old_logical: nat, new_physical: nat) -> nat {
    if old_physical == 0 {
        old_logical
    } else {
        let exact = old_logical * new_physical / old_physical;
        let fits = if exact > u64::MAX {
            u64::MAX as nat
        } else {
            exact
        };
        if whole_blocks(fits) > old_logical {
            whole_blocks(fits)
        } else {
            old_logical
        }
    }
}

/// What a volume hands out when its physical space changes and the proportion
/// of the two is kept.
pub fn scale_logical(old_physical: u64, old_logical: u64, new_physical: u64) -> (r: u64)
    ensures
        r == scaled(old_physical as nat, old_logical as nat, new_physical as nat),
        r >= old_logical,
{
    if old_physical == 0 {
        return old_logical;
    }
    proof {
        assert(old_logical * new_physical <= u64::MAX * u64::MAX) by (nonlinear_arith)
            requires
                old_logical <= u64::MAX,
                new_physical <= u64::MAX,
                old_logical >= 0,
                new_physical >= 0,
        ;
    }
    let exact: u128 = old_logical as u128 * new_physical as u128 / old_physical as u128;
    let fits: u64 = if exact > u64::MAX as u128 { u64::MAX } else { exact as u64 };
    let whole: u64 = align_down(fits);
    if whole > old_logical {
        whole
    } else {
        old_logical
    }
}

/// A volume that hands out what it lies on still does so after its space has
/// grown to whole blocks.
pub proof fn law_scaling_keeps_one_to_one(size: nat, new_physical: nat)
    requires
        0 < size <= new_physical <= u64::MAX,
        new_physical % BLOCK_SIZE as nat == 0,
    ensures
        scaled(size, size, new_physical) == new_physical,
{
    assert(size * new_physical / size == new_physical) by (nonlinear_arith)
        requires
            size > 0,
    ;
}

/// The call that formats a volume.
pub open spec fn format_call(backing: Seq<char>, logical_size: u64, index: IndexMemory) -> InvocationView {
    InvocationView {
        program: "vdoformat"@,
        args: seq![
            "--uds-memory-size="@ + index.arg_text(),
            "--slab-bits=19"@,
            "--logical-size="@ + dec(whole_blocks(logical_size as nat) / 1024) + "K"@,
            backing,
        ],
        label: "vdoformat"@,
        start_label: "vdoformat"@,
    }
}

/// The call that formats a volume.
pub fn format(backing: &str, logical_size: u64, index: IndexMemory) -> (r: Invocation)
    ensures
        r@ == format_call(backing@, logical_size, index),
{
    let kib = decimal(align_down(logical_size) / 1024);
    let figure = index.arg();
    let memory = "--uds-memory-size=".to_owned().concat(figure.as_str());
    let logical = "--logical-size=".to_owned().concat(kib.as_str()).concat("K");
    Invocation::new("vdoformat", "vdoformat").arg(memory.as_str()).arg("--slab-bits=19").arg(
        logical.as_str(),
    ).arg(backing)
}

/// What the tool said of a volume that it formatted, from all that it printed.
pub fn format_report(stdout: &str) -> (r: String)
    ensures
        r@ == trimmed(stdout@),
{
    trim(stdout).to_owned()
}

/// The call that activates a volume.
pub fn activate(vdo_name: &str, backing: &str, params: &Params) -> (r: Invocation)
    ensures
        r@ == create_call(vdo_name@, table_of(backing@, *params)),
{
    let t = table(backing, params);
    dm::create(vdo_name, t.as_str())
}

/// An error of the kernel on the table of a volume, with what may have caused
/// it.
pub open spec fn explained(
    e: ErrorView,
    vdo_name: Seq<char>,
    backing: Seq<char>,
    p: Params,
) -> ErrorView {
    if !wrote(e, "Invalid argument"@) {
        e
    } else {
        ErrorView::Pool(
            "the kernel rejected the VDO table for '"@ + vdo_name
                + "'. The recorded sizes (logical "@ + size_for_people(p.logical_size as nat)
                + ", physical "@ + size_for_people(p.physical_size as nat)
                + ") must match what the volume on "@ + backing
                + " was formatted with, neither may shrink, and the backing device must be at least as large as the physical size. Underlying error: "@
                + error_text(e),
        )
    }
}

/// An error of the kernel on the table of a volume, with what may have caused
/// it.
pub fn explain_einval(e: Error, vdo_name: &str, backing: &str, params: &Params) -> (r: Error)
    ensures
        r@ == explained(e@, vdo_name@, backing@, *params),
{
    if !is_invalid_argument(&e) {
        return e;
    }
    let logical = format_size(params.logical_size);
    let physical = format_size(params.physical_size);
    let cause = e.to_string();
    Error::Pool(
        "the kernel rejected the VDO table for '".to_owned().concat(vdo_name).concat(
            "'. The recorded sizes (logical ",
        ).concat(logical.as_str()).concat(", physical ").concat(physical.as_str()).concat(
            ") must match what the volume on ",
        ).concat(backing).concat(
            " was formatted with, neither may shrink, and the backing device must be at least as large as the physical size. Underlying error: ",
        ).concat(cause.as_str()),
    )
}

/// How the sizes of a volume are changed that goes on running.
pub open spec fn reloading(vdo_name: Seq<char>, backing: Seq<char>, p: Params) -> Seq<
    StepView<InvocationView>,
> {
    seq![must(load_call(vdo_name, table_of(backing, p))), must(resume_call(vdo_name))]
}

/// Changes the sizes of a volume that goes on running.
pub fn reload(vdo_name: &str, backing: &str, params: &Params) -> (r: Vec<Step<Invocation>>)
    ensures
        plan(r@) == reloading(vdo_name@, backing@, *params),
{
    let t = table(backing, params);
    dm::swap_table(vdo_name, t.as_str())
}

/// Removes a volume.
pub fn remove(vdo_name: &str) -> (r: Invocation)
    ensures
        r@ == remove_call(vdo_name@),
{
    dm::remove(vdo_name)
}

/// How a volume works.
#[derive(Clone, Copy, Debug, PartialEq, Eq, Structural)]
pub enum VdoMode {
    Normal,
    /// It is rebuilding its metadata.
    Recovering,
    /// It hit an error that it cannot recover from.
    ReadOnly,
}

/// The state of a volume.
#[derive(Clone, Copy, Debug, PartialEq, Eq, Structural)]
pub struct VdoStatus {
    pub mode: VdoMode,
    pub compression_online: bool,
    pub used_blocks: u64,
    pub total_blocks: u64,
}

impl VdoStatus {
    /// Whether the figures can be told in bytes.
    pub open spec fn in_bytes(self) -> bool {
        self.used_blocks * BLOCK_SIZE <= u64::MAX && self.total_blocks * BLOCK_SIZE <= u64::MAX
    }

    /// The bytes in use.
    pub fn used_bytes(&self) -> (r: u64)
        requires
            self.used_blocks * BLOCK_SIZE <= u64::MAX,
        ensures
            r == self.used_blocks * BLOCK_SIZE,
    {
        self.used_blocks * BLOCK_SIZE
    }

    /// The bytes there are.
    pub fn total_bytes(&self) -> (r: u64)
        requires
            self.total_blocks * BLOCK_SIZE <= u64::MAX,
        ensures
            r == self.total_blocks * BLOCK_SIZE,
    {
        self.total_blocks * BLOCK_SIZE
    }

    /// How full the volume is. One without blocks is empty.
    pub open spec fn fullness(self) -> Fraction {
        if self.total_blocks == 0 {
            Fraction { num: 0, den: 1 }
        } else {
            Fraction { num: self.used_blocks, den: self.total_blocks }
        }
    }

    /// How full the volume is. One without blocks is empty.
    pub fn full_fraction(&self) -> (r: Fraction)
        ensures
            r == self.fullness(),
            r.den > 0,
    {
        if self.total_blocks == 0 {
            Fraction { num: 0, den: 1 }
        } else {
            Fraction { num: self.used_blocks, den: self.total_blocks }
        }
    }
}

/// Asks for the status line of a volume, for [`parse_status`] to read.
pub fn status(vdo_name: &str) -> (r: Invocation)
    ensures
        r@ == dmsetup(seq!["status"@, vdo_name@], "dmsetup status "@ + vdo_name@),
{
    dm::status(vdo_name)
}

/// The error for a status line that cannot be trusted.
pub open spec fn status_error(what: Seq<char>) -> ErrorView {
    ErrorView::Command { command: "dmsetup status vdo"@, exit_code: 0, stderr: what }
}

/// The error for a figure that is no number.
pub open spec fn figure_error(command: Seq<char>, field: Seq<char>, s: Seq<char>) -> ErrorView {
    ErrorView::Command {
        command,
        exit_code: 0,
        stderr: "non-numeric "@ + field + " value "@ + quoted_text(s) + ": "@ + number_fault(
            s,
            u64::MAX as nat,
        ).text(),
    }
}

/// A figure, or the error for one that is no number.
pub open spec fn figure(command: Seq<char>, field: Seq<char>, s: Seq<char>) -> Result<
    u64,
    ErrorView,
> {
    match parsed(s, u64::MAX as nat) {
        Some(n) => Ok(n as u64),
        None => Err(figure_error(command, field, s)),
    }
}

/// Reads a figure that a command wrote.
pub fn read_figure(command: &str, field: &str, s: &str) -> (r: Result<u64, Error>)
    ensures
        outcome(r) == figure(command@, field@, s@),
{
    match parse_max(s, u64::MAX) {
        Ok(n) => Ok(n),
        Err(f) => {
            let shown = quoted(s);
            let why = f.message();
            Err(
                Error::Command {
                    command: command.to_owned(),
                    exit_code: 0,
                    stderr: "non-numeric ".to_owned().concat(field).concat(" value ").concat(
                        shown.as_str(),
                    ).concat(": ").concat(why.as_str()),
                },
            )
        },
    }
}

/// Reads the number of blocks in a status line.
pub fn parse_blocks(s: &str, field: &str) -> (r: Result<u64, Error>)
    ensures
        outcome(r) == figure("dmsetup status vdo"@, field@, s@),
{
    read_figure("dmsetup status vdo", field, s)
}

/// The mode that a word stands for.
pub open spec fn mode_of(s: Seq<char>) -> Option<VdoMode> {
    if s == "normal"@ {
        Some(VdoMode::Normal)
    } else if s == "recovering"@ {
        Some(VdoMode::Recovering)
    } else if s == "read-only"@ {
        Some(VdoMode::ReadOnly)
    } else {
        None
    }
}

/// What a status line says.
pub open spec fn status_of(line: Seq<char>) -> Result<VdoStatus, ErrorView> {
    let f = words(line);
    if f.len() < 10 || f[2] != "vdo"@ {
        Err(status_error("unexpected status format: "@ + line))
    } else {
        match mode_of(f[4]) {
            None => Err(status_error("unknown vdo operating mode: "@ + f[4])),
            Some(mode) => {
                let used = figure("dmsetup status vdo"@, "used physical blocks"@, f[8]);
                let total = figure("dmsetup status vdo"@, "total physical blocks"@, f[9]);
                match (used, total) {
                    (Err(e), _) => Err(e),
                    (_, Err(e)) => Err(e),
                    (Ok(used_blocks), Ok(total_blocks)) => Ok(
                        VdoStatus {
                            mode,
                            compression_online: f[7] == "online"@,
                            used_blocks,
                            total_blocks,
                        },
                    ),
                }
            },
        }
    }
}

/// Reads a status line.
pub fn parse_status(line: &str) -> (r: Result<VdoStatus, Error>)
    ensures
        outcome(r) == status_of(line@),
{
    let f = split_words(line);
    assert(texts(f@).len() == f@.len());
    assert(forall|i: int| 0 <= i < f@.len() ==> texts(f@)[i] == #[trigger] f@[i]@);
    if f.len() < 10 || !same(f[2].as_str(), "vdo") {
        return Err(
            Error::Command {
                command: "dmsetup status vdo".to_owned(),
                exit_code: 0,
                stderr: "unexpected status format: ".to_owned().concat(line),
            },
        );
    }
    let m = f[4].as_str();
    let mode = if same(m, "normal") {
        VdoMode::Normal
    } else if same(m, "recovering") {
        VdoMode::Recovering
    } else if same(m, "read-only") {
        VdoMode::ReadOnly
    } else {
        return Err(
            Error::Command {
                command: "dmsetup status vdo".to_owned(),
                exit_code: 0,
                stderr: "unknown vdo operating mode: ".to_owned().concat(m),
            },
        );
    };
    let used_blocks: u64 = match parse_blocks(f[8].as_str(), "used physical blocks") {
        Ok(n) => n,
        Err(e) => {
            return Err(e);
        },
    };
    let total_blocks: u64 = match parse_blocks(f[9].as_str(), "total physical blocks") {
        Ok(n) => n,
        Err(e) => {
            return Err(e);
        },
    };
    Ok(
        VdoStatus {
            mode,
            compression_online: same(f[7].as_str(), "online"),
            used_blocks,
            total_blocks,
        },
    )
}

/// What a volume uses its physical space for.
#[derive(Clone, Copy, Debug, PartialEq, Eq, Structural)]
pub struct VdoStats {
    pub data_blocks: u64,
    pub overhead_blocks: u64,
    pub physical_blocks: u64,
}

impl VdoStats {
    /// Whether the figures can be told in bytes.
    pub open spec fn in_bytes(self) -> bool {
        (self.data_blocks + self.overhead_blocks) * BLOCK_SIZE <= u64::MAX && self.physical_blocks
            * BLOCK_SIZE <= u64::MAX
    }

    /// The bytes in use.
    pub fn used_bytes(&self) -> (r: u64)
        requires
            (self.data_blocks + self.overhead_blocks) * BLOCK_SIZE <= u64::MAX,
        ensures
            r == (self.data_blocks + self.overhead_blocks) * BLOCK_SIZE,
    {
        (self.data_blocks + self.overhead_blocks) * BLOCK_SIZE
    }

    /// The bytes that hold data.
    pub fn data_bytes(&self) -> (r: u64)
        requires
            self.data_blocks * BLOCK_SIZE <= u64::MAX,
        ensures
            r == self.data_blocks * BLOCK_SIZE,
    {
        self.data_blocks * BLOCK_SIZE
    }

    /// The bytes that the volume keeps for itself.
    pub fn overhead_bytes(&self) -> (r: u64)
        requires
            self.overhead_blocks * BLOCK_SIZE <= u64::MAX,
        ensures
            r == self.overhead_blocks * BLOCK_SIZE,
    {
        self.overhead_blocks * BLOCK_SIZE
    }

    /// The bytes there are.
    pub fn total_bytes(&self) -> (r: u64)
        requires
            self.physical_blocks * BLOCK_SIZE <= u64::MAX,
        ensures
            r == self.physical_blocks * BLOCK_SIZE,
    {
        self.physical_blocks * BLOCK_SIZE
    }
}

/// Asks a volume for its figures, for [`parse_stats`] to read.
pub fn stats(vdo_name: &str) -> (r: Invocation)
    ensures
        r@ == message_call(vdo_name@, "stats"@),
{
    dm::message(vdo_name, "stats")
}

/// The value of the first of the pairs that has the given key.
pub open spec fn value_of(tokens: Seq<Seq<char>>, key: Seq<char>) -> Option<Seq<char>>
    decreases tokens.len(),
{
    if tokens.len() == 0 {
        None
    } else {
        match around(tokens[0], ':') {
            Some((k, v)) => if bare(k) == key {
                Some(bare(v))
            } else {
                value_of(tokens.skip(1), key)
            },
            None => value_of(tokens.skip(1), key),
        }
    }
}

/// The figure with the given key in the answer of a volume.
pub open spec fn stat(blob: Seq<char>, key: Seq<char>) -> Result<u64, ErrorView> {
    match value_of(pieces(blob, ','), key) {
        None => Err(
            ErrorView::Command {
                command: "dmsetup message vdo stats"@,
                exit_code: 0,
                stderr: "no "@ + key + " field in the vdo stats response"@,
            },
        ),
        Some(v) => figure("dmsetup message vdo stats"@, key, v),
    }
}

fn find_stat(blob: &str, key: &str) -> (r: Result<u64, Error>)
    ensures
        outcome(r) == stat(blob@, key@),
{
    let tokens = split(blob, ',');
    let ghost all = pieces(blob@, ',');
    let mut i: usize = 0;
    assert(all.skip(0) =~= all);
    while i < tokens.len()
        invariant
            i <= tokens.len(),
            texts(tokens@) == all,
            all == pieces(blob@, ','),
            value_of(all, key@) == value_of(all.skip(i as int), key@),
        decreases tokens.len() - i,
    {
        assert(all[i as int] == tokens@[i as int]@);
        assert(all.skip(i as int)[0] == all[i as int]);
        assert(all.skip(i as int).skip(1) =~= all.skip(i + 1));
        match split_once(tokens[i].as_str(), ':') {
            Some((k, v)) => {
                if same(strip_padding(k), key) {
                    return read_figure("dmsetup message vdo stats", key, strip_padding(v));
                }
            },
            None => {},
        }
        i = i + 1;
    }
    assert(value_of(all, key@) is None);
    Err(
        Error::Command {
            command: "dmsetup message vdo stats".to_owned(),
            exit_code: 0,
            stderr: "no ".to_owned().concat(key).concat(" field in the vdo stats response"),
        },
    )
}

/// What the answer of a volume says.
pub open spec fn stats_of(blob: Seq<char>) -> Result<VdoStats, ErrorView> {
    match (
        stat(blob, "dataBlocksUsed"@),
        stat(blob, "overheadBlocksUsed"@),
        stat(blob, "physicalBlocks"@),
    ) {
        (Err(e), _, _) => Err(e),
        (_, Err(e), _) => Err(e),
        (_, _, Err(e)) => Err(e),
        (Ok(data_blocks), Ok(overhead_blocks), Ok(physical_blocks)) => Ok(
            VdoStats { data_blocks, overhead_blocks, physical_blocks },
        ),
    }
}

/// Reads the answer of a volume.
pub fn parse_stats(blob: &str) -> (r: Result<VdoStats, Error>)
    ensures
        outcome(r) == stats_of(blob@),
{
    let data_blocks: u64 = match find_stat(blob, "dataBlocksUsed") {
        Ok(n) => n,
        Err(e) => {
            return Err(e);
        },
    };
    let overhead_blocks: u64 = match find_stat(blob, "overheadBlocksUsed") {
        Ok(n) => n,
        Err(e) => {
            return Err(e);
        },
    };
    let physical_blocks: u64 = match find_stat(blob, "physicalBlocks") {
        Ok(n) => n,
        Err(e) => {
            return Err(e);
        },
    };
    Ok(VdoStats { data_blocks, overhead_blocks, physical_blocks })
}

/// The error for a volume that became read-only.
pub open spec fn read_only_error(vdo_name: Seq<char>) -> ErrorView {
    ErrorView::Pool(
        "VDO volume '"@ + vdo_name
            + "' is read-only, which means it hit an unrecoverable error. Stop everything using the pool and run `vdoforcerebuild` on the backing device to let it rebuild its metadata. Some data may be lost."@,
    )
}

/// How full a volume is, in words.
pub open spec fn fullness_text(st: VdoStatus) -> Seq<char> {
    tenths_text(percent_tenths(st.fullness())) + "% full ("@ + size_for_people(
        (st.used_blocks * BLOCK_SIZE) as nat,
    ) + " of "@ + size_for_people((st.total_blocks * BLOCK_SIZE) as nat) + " physical). "@
}

/// How full a volume is, in words.
fn describe_fullness(st: &VdoStatus) -> (r: String)
    requires
        st.in_bytes(),
    ensures
        r@ == fullness_text(*st),
{
    let share = percent(st.full_fraction());
    let used = format_size(st.used_bytes());
    let total = format_size(st.total_bytes());
    share.concat("% full (").concat(used.as_str()).concat(" of ").concat(total.as_str()).concat(
        " physical). ",
    )
}

/// Whether a volume may take more data, and why not.
pub open spec fn health(vdo_name: Seq<char>, st: VdoStatus) -> Result<(), ErrorView> {
    if st.mode == VdoMode::ReadOnly {
        Err(read_only_error(vdo_name))
    } else if st.fullness().at_least(REFUSE_FULL as nat) {
        Err(
            ErrorView::Pool(
                "VDO volume '"@ + vdo_name + "' is "@ + fullness_text(st)
                    + "Allocating more would risk exhausting it, which takes the whole thin pool read-only. Run `ember storage grow --size <bigger>`, or delete a VM or image to release blocks."@,
            ),
        )
    } else {
        Ok(())
    }
}

/// Refuses to put more data on a volume that is read-only, or at least 95%
/// full.
pub fn assert_healthy(vdo_name: &str, st: &VdoStatus) -> (r: Result<(), Error>)
    requires
        st.mode != VdoMode::ReadOnly && st.fullness().at_least(REFUSE_FULL as nat) ==> st.in_bytes(),
    ensures
        outcome(r) == health(vdo_name@, *st),
{
    match assert_read_write(vdo_name, st) {
        Ok(()) => {},
        Err(e) => {
            return Err(e);
        },
    }
    if st.full_fraction().reaches(REFUSE_FULL) {
        let how_full = describe_fullness(st);
        return Err(
            Error::Pool(
                "VDO volume '".to_owned().concat(vdo_name).concat("' is ").concat(
                    how_full.as_str(),
                ).concat(
                    "Allocating more would risk exhausting it, which takes the whole thin pool read-only. Run `ember storage grow --size <bigger>`, or delete a VM or image to release blocks.",
                ),
            ),
        );
    }
    Ok(())
}

/// Refuses to use a volume that is read-only.
pub fn assert_read_write(vdo_name: &str, st: &VdoStatus) -> (r: Result<(), Error>)
    ensures
        outcome(r) == (if st.mode == VdoMode::ReadOnly {
            Err::<(), ErrorView>(read_only_error(vdo_name@))
        } else {
            Ok(())
        }),
{
    match st.mode {
        VdoMode::ReadOnly => Err(
            Error::Pool(
                "VDO volume '".to_owned().concat(vdo_name).concat(
                    "' is read-only, which means it hit an unrecoverable error. Stop everything using the pool and run `vdoforcerebuild` on the backing device to let it rebuild its metadata. Some data may be lost.",
                ),
            ),
        ),
        _ => Ok(()),
    }
}

/// The warning on a volume that is nearly full, when it is.
pub open spec fn full_warning(vdo_name: Seq<char>, st: VdoStatus) -> Seq<Seq<char>> {
    if st.fullness().at_least(WARN_FULL as nat) && !st.fullness().at_least(REFUSE_FULL as nat) {
        seq![
            "warning: VDO volume '"@ + vdo_name + "' is "@ + fullness_text(st)
                + "Running out takes the thin pool read-only; grow it before that happens."@,
        ]
    } else {
        seq![]
    }
}

/// The warning on a volume that rebuilds its metadata, when it does.
pub open spec fn recovery_warning(vdo_name: Seq<char>, st: VdoStatus) -> Seq<Seq<char>> {
    if st.mode == VdoMode::Recovering {
        seq![
            "warning: VDO volume '"@ + vdo_name
                + "' is rebuilding its metadata. Writes still work, but everything is slower until it finishes."@,
        ]
    } else {
        seq![]
    }
}

/// The warning on a volume that does not compress, when it does not.
pub open spec fn compression_warning(vdo_name: Seq<char>, st: VdoStatus) -> Seq<Seq<char>> {
    if !st.compression_online {
        seq![
            "warning: compression is switched off on VDO volume '"@ + vdo_name
                + "', so the layer is costing space and CPU without saving anything. Turn it back on with `dmsetup message "@
                + vdo_name + " 0 compression on`."@,
        ]
    } else {
        seq![]
    }
}

/// What the user should know of a volume that still works.
pub fn warnings(vdo_name: &str, st: &VdoStatus) -> (r: Vec<String>)
    requires
        st.fullness().at_least(WARN_FULL as nat) && !st.fullness().at_least(REFUSE_FULL as nat)
            ==> st.in_bytes(),
    ensures
        texts(r@) == full_warning(vdo_name@, *st) + recovery_warning(vdo_name@, *st)
            + compression_warning(vdo_name@, *st),
{
    let mut out = crate::command::nothing();
    let fraction = st.full_fraction();
    if fraction.reaches(WARN_FULL) && !fraction.reaches(REFUSE_FULL) {
        let how_full = describe_fullness(st);
        let w = "warning: VDO volume '".to_owned().concat(vdo_name).concat("' is ").concat(
            how_full.as_str(),
        ).concat("Running out takes the thin pool read-only; grow it before that happens.");
        out = crate::command::with(out, w.as_str());
    }
    assert(texts(out@) =~= full_warning(vdo_name@, *st));
    match st.mode {
        VdoMode::Recovering => {
            let w = "warning: VDO volume '".to_owned().concat(vdo_name).concat(
                "' is rebuilding its metadata. Writes still work, but everything is slower until it finishes.",
            );
            out = crate::command::with(out, w.as_str());
        },
        _ => {},
    }
    assert(texts(out@) =~= full_warning(vdo_name@, *st) + recovery_warning(vdo_name@, *st));
    if !st.compression_online {
        let w = "warning: compression is switched off on VDO volume '".to_owned().concat(
            vdo_name,
        ).concat(
            "', so the layer is costing space and CPU without saving anything. Turn it back on with `dmsetup message ",
        ).concat(vdo_name).concat(" 0 compression on`.");
        out = crate::command::with(out, w.as_str());
    }
    out
}

/// The bounds are the round ones: data is refused from 95 hundredths on, and a
/// warning given from 85 hundredths on. This is said of volumes of up to 2^45
/// blocks, which is far more than the kernel takes.
pub proof fn law_bounds_are_round(st: VdoStatus)
    requires
        st.used_blocks <= st.total_blocks <= 0x2000_0000_0000,
        st.total_blocks > 0,
    ensures
        st.fullness().at_least(REFUSE_FULL as nat) <==> st.used_blocks * 100 >= st.total_blocks
            * 95,
        st.fullness().at_least(WARN_FULL as nat) <==> st.used_blocks * 100 >= st.total_blocks * 85,
{
    lemma_hundredths(st.used_blocks, st.total_blocks, 95, REFUSE_FULL as nat);
    lemma_hundredths(st.used_blocks, st.total_blocks, 85, WARN_FULL as nat);
}

/// A volume that is refused because it is full is not warned about as well.
pub proof fn law_no_warning_when_refused(vdo_name: Seq<char>, st: VdoStatus)
    requires
        st.fullness().at_least(REFUSE_FULL as nat),
    ensures
        full_warning(vdo_name, st).len() == 0,
        health(vdo_name, st) is Err,
{
}

/// The memory that a volume is expected to take: a fixed part, the cache of its
/// block map, 1.6 MiB for each tebibyte that it hands out and 268 MiB for each
/// that it lies on, and the
/// deduplication index where there is one.
pub open spec fn ram_estimate(p: Params, index: IndexMemory) -> nat {
    let logical = p.logical_size as nat * 1_677_721 / TIB as nat;
    let physical = p.physical_size as nat * 281_018_368 / TIB as nat;
    let dedup = if p.deduplication {
        (index.0 * (GIB / 4)) as nat
    } else {
        0
    };
    38 * MIB as nat + 32_768 * 4096 * 115 / 100 + logical + physical + dedup
}

/// The memory that a volume is expected to take.
pub fn ram_estimate_bytes(params: &Params, index: IndexMemory) -> (r: u64)
    ensures
        r == ram_estimate(*params, index),
{
    let fixed: u64 = 38 * MIB;
    let cache: u64 = BLOCK_MAP_CACHE_BLOCKS * BLOCK_SIZE * 115 / 100;
    let logical: u128 = params.logical_size as u128 * 1_677_721 / TIB as u128;
    let physical: u128 = params.physical_size as u128 * 281_018_368 / TIB as u128;
    let dedup: u64 = if params.deduplication { index.ram_bytes() } else { 0 };
    assert(logical <= 0x20_0000_0000_0000) by (nonlinear_arith)
        requires
            logical == params.logical_size * 1_677_721 / 0x100_0000_0000,
            params.logical_size <= u64::MAX,
    ;
    assert(physical <= 0x20_0000_0000_0000) by (nonlinear_arith)
        requires
            physical == params.physical_size * 281_018_368 / 0x100_0000_0000,
            params.physical_size <= u64::MAX,
    ;
    assert(GIB / 4 == 0x1000_0000);
    assert(dedup <= 0xffff_ffff * 0x1000_0000);
    fixed + cache + logical as u64 + physical as u64 + dedup
}

/// The words of the table of a volume.
pub open spec fn table_words(backing: Seq<char>, p: Params) -> Seq<Seq<char>> {
    seq![
        "0"@,
        dec((p.logical_size / SECTOR_SIZE) as nat),
        "vdo"@,
        "V4"@,
        backing,
        dec((p.physical_size / BLOCK_SIZE) as nat),
        "4096"@,
        "32768"@,
        "16380"@,
        "compression"@,
        "on"@,
        "deduplication"@,
        if p.deduplication {
            "on"@
        } else {
            "off"@
        },
        "maxDiscard"@,
        dec(
            if p.max_discard_blocks < 1 {
                1
            } else {
                p.max_discard_blocks as nat
            },
        ),
    ]
}

proof fn lemma_table_words(backing: Seq<char>, p: Params)
    requires
        is_word(backing),
    ensures
        words(table_of(backing, p)) == table_words(backing, p),
{
    let w = table_words(backing, p);
    reveal_strlit("0");
    reveal_strlit("0 ");
    reveal_strlit(" ");
    reveal_strlit("vdo");
    reveal_strlit("V4");
    reveal_strlit(" vdo V4 ");
    reveal_strlit("4096");
    reveal_strlit("32768");
    reveal_strlit("16380");
    reveal_strlit("compression");
    reveal_strlit("on");
    reveal_strlit("off");
    reveal_strlit("deduplication");
    reveal_strlit(" 4096 32768 16380 compression on deduplication ");
    reveal_strlit("maxDiscard");
    reveal_strlit(" maxDiscard ");
    lemma_dec_is_word((p.logical_size / SECTOR_SIZE) as nat);
    lemma_dec_is_word((p.physical_size / BLOCK_SIZE) as nat);
    lemma_dec_is_word(p.max_discard_blocks as nat);
    lemma_dec_is_word(1);
    assert(is_word("0"@) && is_word("vdo"@) && is_word("V4"@) && is_word("4096"@) && is_word(
        "32768"@,
    ) && is_word("16380"@) && is_word("compression"@) && is_word("on"@) && is_word("off"@)
        && is_word("deduplication"@) && is_word("maxDiscard"@));
    let t1 = w[0] + " "@ + w[1];
    let t2 = t1 + " "@ + w[2];
    let t3 = t2 + " "@ + w[3];
    let t4 = t3 + " "@ + w[4];
    let t5 = t4 + " "@ + w[5];
    let t6 = t5 + " "@ + w[6];
    let t7 = t6 + " "@ + w[7];
    let t8 = t7 + " "@ + w[8];
    let t9 = t8 + " "@ + w[9];
    let t10 = t9 + " "@ + w[10];
    let t11 = t10 + " "@ + w[11];
    let t12 = t11 + " "@ + w[12];
    let t13 = t12 + " "@ + w[13];
    let t14 = t13 + " "@ + w[14];
    lemma_words_one(w[0]);
    lemma_words_more(w[0], w[1]);
    lemma_words_more(t1, w[2]);
    lemma_words_more(t2, w[3]);
    lemma_words_more(t3, w[4]);
    lemma_words_more(t4, w[5]);
    lemma_words_more(t5, w[6]);
    lemma_words_more(t6, w[7]);
    lemma_words_more(t7, w[8]);
    lemma_words_more(t8, w[9]);
    lemma_words_more(t9, w[10]);
    lemma_words_more(t10, w[11]);
    lemma_words_more(t11, w[12]);
    lemma_words_more(t12, w[13]);
    lemma_words_more(t13, w[14]);
    assert(words(t14) =~= w);
    assert("0 "@ =~= w[0] + " "@);
    assert(" vdo V4 "@ =~= " "@ + w[2] + " "@ + w[3] + " "@);
    let mid = " "@ + w[6] + " "@ + w[7] + " "@ + w[8] + " "@ + w[9] + " "@ + w[10] + " "@ + w[11]
        + " "@;
    assert(" 4096 32768 16380 compression on deduplication "@ =~= mid);
    assert(" maxDiscard "@ =~= " "@ + w[13] + " "@);
    let a = w[0] + " "@ + w[1];
    let b = a + (" "@ + w[2] + " "@ + w[3] + " "@) + w[4] + " "@ + w[5];
    assert(b =~= t5);
    let c = b + mid + w[12];
    assert(c =~= t12);
    let d = c + (" "@ + w[13] + " "@) + w[14];
    assert(d =~= t14);
    assert(table_of(backing, p) =~= d);
}

/// The device of a volume shows all that the volume hands out, and lies on all the whole
/// blocks that it may use of the device below it. It compresses, and looks for equal
/// blocks where that is wanted. It takes at least one block at a time back.
pub proof fn law_a_volume_hands_out_its_space(backing: Seq<char>, p: Params)
    requires
        is_word(backing),
    ensures
        ({
            let w = words(table_of(backing, p));
            &&& w.len() == 15 && w[2] == "vdo"@ && w[4] == backing
            &&& parsed(w[0], u64::MAX as nat) == Some(0nat)
            &&& parsed(w[1], u64::MAX as nat) matches Some(n) && n * 512 <= p.logical_size < (n + 1)
                * 512
            &&& parsed(w[5], u64::MAX as nat) matches Some(n) && n * 4096 <= p.physical_size < (n
                + 1) * 4096
            &&& given(w, "compression"@, "on"@)
            &&& p.deduplication ==> given(w, "deduplication"@, "on"@)
            &&& !p.deduplication ==> given(w, "deduplication"@, "off"@)
            &&& parsed(w[14], u64::MAX as nat) matches Some(n) && n >= 1
        }),
{
    lemma_table_words(backing, p);
    let w = words(table_of(backing, p));
    lemma_dec_parsed((p.logical_size / SECTOR_SIZE) as nat, u64::MAX as nat);
    lemma_dec_parsed((p.physical_size / BLOCK_SIZE) as nat, u64::MAX as nat);
    lemma_dec_parsed(p.max_discard_blocks as nat, u64::MAX as nat);
    lemma_dec_parsed(1, u64::MAX as nat);
    lemma_dec_parsed(0, u64::MAX as nat);
    reveal_strlit("0");
    assert(dec(0) =~= "0"@);
    assert(w[9] == "compression"@);
    assert(w[11] == "deduplication"@);
}

/// A device is formatted to hand out whole blocks: as many as fit into what is asked for.
pub proof fn law_a_volume_is_formatted_for_its_space(
    backing: Seq<char>,
    logical: u64,
    index: IndexMemory,
)
    ensures
        ({
            let c = format_call(backing, logical, index);
            &&& c.program == "vdoformat"@ && c.args.last() == backing
            &&& exists|i: int, n: nat|
                0 <= i < c.args.len() && #[trigger] c.args[i] == "--logical-size="@ + #[trigger] dec(
                    n,
                ) + "K"@ && n * 1024 <= logical < n * 1024 + 4096
            &&& c.args.contains("--uds-memory-size="@ + index.arg_text())
        }),
{
    let c = format_call(backing, logical, index);
    let n = whole_blocks(logical as nat) / 1024;
    assert(c.args[2] == "--logical-size="@ + dec(n) + "K"@);
    assert(c.args[0] == "--uds-memory-size="@ + index.arg_text());
}

/// The status line of a volume.
pub open spec fn status_line(st: VdoStatus, before: Seq<Seq<char>>) -> Seq<char> {
    strung(
        seq![
            before[0],
            before[1],
            "vdo"@,
            before[2],
            match st.mode {
                VdoMode::Normal => "normal"@,
                VdoMode::Recovering => "recovering"@,
                VdoMode::ReadOnly => "read-only"@,
            },
            before[3],
            before[4],
            if st.compression_online {
                "online"@
            } else {
                "offline"@
            },
            dec(st.used_blocks as nat),
            dec(st.total_blocks as nat),
        ],
        ' ',
    )
}

/// The status line of a volume is read as its state, whatever the other words say.
pub proof fn law_status_round_trip(st: VdoStatus, other: Seq<Seq<char>>)
    requires
        other.len() == 5,
        forall|i: int| 0 <= i < 5 ==> is_word(#[trigger] other[i]),
    ensures
        status_of(status_line(st, other)) == Ok::<VdoStatus, ErrorView>(st),
{
    let mode = match st.mode {
        VdoMode::Normal => "normal"@,
        VdoMode::Recovering => "recovering"@,
        VdoMode::ReadOnly => "read-only"@,
    };
    let online = if st.compression_online {
        "online"@
    } else {
        "offline"@
    };
    let list = seq![
        other[0],
        other[1],
        "vdo"@,
        other[2],
        mode,
        other[3],
        other[4],
        online,
        dec(st.used_blocks as nat),
        dec(st.total_blocks as nat),
    ];
    reveal_strlit("vdo");
    reveal_strlit("normal");
    reveal_strlit("recovering");
    reveal_strlit("read-only");
    reveal_strlit("online");
    reveal_strlit("offline");
    assert("normal"@.len() == 6 && "recovering"@.len() == 10 && "read-only"@.len() == 9);
    assert("online"@.len() == 6 && "offline"@.len() == 7);
    lemma_dec_is_word(st.used_blocks as nat);
    lemma_dec_is_word(st.total_blocks as nat);
    lemma_dec_parsed(st.used_blocks as nat, u64::MAX as nat);
    lemma_dec_parsed(st.total_blocks as nat, u64::MAX as nat);
    assert(is_word(other[0]) && is_word(other[1]) && is_word(other[2]) && is_word(other[3])
        && is_word(other[4]) && is_word("vdo"@) && is_word(mode) && is_word(online));
    assert forall|i: int| 0 <= i < list.len() implies is_word(#[trigger] list[i]) by {
        assert(i == 0 || i == 1 || i == 2 || i == 3 || i == 4 || i == 5 || i == 6 || i == 7 || i
            == 8 || i == 9);
    }
    lemma_words_strung(list);
}

} // verus!
