//! Storage in a thin pool.
//!
//! A pool lies on two devices, one for its data and one for its metadata. Each
//! is a block device or a file that a loop device makes one of. Between the
//! data device and the pool a compression layer may lie.

use vstd::prelude::*;
use vstd::string::*;

use crate::backend::{GrowRequest, InitConfig, VolumeHandle};
use crate::command::{Invocation, InvocationView};
use crate::config::{namespace, opt_str, DmThinMode, GlobalConfig, VdoConfig};
use crate::dm::{device_path_of, SECTOR_SIZE};
use crate::error::{error_text, outcome, Error, ErrorView};
use crate::image::ImageEntry;
use crate::number::{format_size, size_for_people};
use crate::path::{join, joined};
use crate::procedure::{
    and, may, must, must_or, no_actions, no_steps, plan, then_may, then_must, then_must_undo, views,
    Step, StepView,
};
use crate::size::ByteSize;
use crate::text::{
    dec, decimal, lemma_dec_parsed, number_fault, parse_max, parsed, quoted, quoted_text, texts,
    trim, trimmed,
};
use crate::thin;
use crate::thin::{image_prefix_of, sanitized, vm_prefix_of};
use crate::thin_tools::ThinRow;
use crate::usage::{MetadataUsage, PoolUsage, StorageUsage, VolumeTable, VolumeUsage};
use crate::vdo;
use crate::vdo::{
    growth_verdict, health, name_of, physical_verdict, scaled, whole_blocks, IndexMemory, Params,
    VdoMode, VdoStats, VdoStatus, REFUSE_FULL, WARN_FULL,
};
use crate::vm::VmMetadata;

verus! {

/// The sectors of a block of a pool that was given no other size.
pub const DEFAULT_BLOCK_SIZE_SECTORS: u32 = 128;

/// The bytes of a block of the metadata of a pool.
pub const METADATA_BLOCK_SIZE: u64 = 4096;

/// The number of volumes that the metadata is made for.
pub const DEFAULT_MAX_THINS: u64 = 1024;

const MIN_METADATA_SIZE_BYTES: u64 = 32 * 1024 * 1024;

const MAX_METADATA_SIZE_BYTES: u64 = 16 * 1024 * 1024 * 1024;

/// How a pool works.
#[derive(Clone, Copy, Debug, PartialEq, Eq, Structural)]
pub enum PoolMode {
    ReadWrite,
    ReadOnly,
    OutOfDataSpace,
    Failed,
}

/// The state of a pool.
#[derive(Clone, Copy, Debug, PartialEq, Eq, Structural)]
pub struct PoolStatus {
    pub used_metadata_blocks: u64,
    pub total_metadata_blocks: u64,
    pub used_data_blocks: u64,
    pub total_data_blocks: u64,
    pub mode: PoolMode,
}

/// The name of the pool of an installation.
pub open spec fn pool_name_of(instance_id: Option<Seq<char>>) -> Seq<char> {
    match instance_id {
        None => "ember-pool"@,
        Some(id) => "ember-"@ + id + "-pool"@,
    }
}

/// The name of the pool of an installation.
pub fn pool_name(instance_id: Option<&str>) -> (r: String)
    ensures
        r@ == pool_name_of(opt_str(instance_id)),
{
    match instance_id {
        None => "ember-pool".to_owned(),
        Some(id) => "ember-".to_owned().concat(id).concat("-pool"),
    }
}

/// A size for people to read.
pub fn format_bytes(bytes: u64) -> (r: String)
    ensures
        r@ == size_for_people(bytes as nat),
{
    format_size(bytes)
}

/// Storage in a thin pool.
#[derive(Debug)]
pub struct DmThinStorage {
    pub storage_path: String,
    pub state_dir: String,
    pub mode: DmThinMode,
    pub block_size_sectors: u32,
    pub pool_name: String,
    pub image_prefix: String,
    pub vm_prefix: String,
    pub vdo: Option<VdoConfig>,
    pub vdo_name: String,
}

/// Where a pool lies when it was told nothing else.
pub open spec fn default_storage_path() -> Seq<char> {
    "/var/lib/ember/dm-thin"@
}

/// What a pool lies on, when the configuration does not say: files below a
/// directory, or what will become one, and a device otherwise.
pub open spec fn probed_mode(is_dir: bool, exists: bool) -> DmThinMode {
    if is_dir || !exists {
        DmThinMode::File
    } else {
        DmThinMode::RawDevice
    }
}

/// What a pool lies on, when the configuration does not say.
pub fn probe_mode(is_dir: bool, exists: bool) -> (r: DmThinMode)
    ensures
        r == probed_mode(is_dir, exists),
{
    if is_dir || !exists {
        DmThinMode::File
    } else {
        DmThinMode::RawDevice
    }
}

/// The paths of the metadata and the data of a pool.
pub open spec fn init_paths(
    storage_path: Seq<char>,
    state_dir: Seq<char>,
    mode: DmThinMode,
) -> (Seq<char>, Seq<char>) {
    match mode {
        DmThinMode::File => (
            joined(storage_path, "metadata.img"@),
            joined(storage_path, "data.img"@),
        ),
        DmThinMode::RawDevice => (joined(state_dir, "dm-thin-metadata.img"@), storage_path),
    }
}

/// The paths of the metadata and the data of a pool.
pub fn resolve_init_paths(storage_path: &str, state_dir: &str, mode: DmThinMode) -> (r: (
    String,
    String,
))
    ensures
        (r.0@, r.1@) == init_paths(storage_path@, state_dir@, mode),
{
    match mode {
        DmThinMode::File => (
            join(storage_path, "metadata.img"),
            join(storage_path, "data.img"),
        ),
        DmThinMode::RawDevice => (
            join(state_dir, "dm-thin-metadata.img"),
            storage_path.to_owned(),
        ),
    }
}

/// What a compression layer is made of, above a pool with blocks of so many
/// sectors.
pub open spec fn layer(config: VdoConfig, block_size_sectors: u32) -> Params {
    Params {
        logical_size: config.logical_size,
        physical_size: config.physical_size,
        deduplication: config.deduplication,
        max_discard_blocks: (block_size_sectors as u64 * SECTOR_SIZE / vdo::BLOCK_SIZE as int) as u64,
    }
}

/// What a compression layer is made of, above a pool with blocks of so many
/// sectors.
pub fn vdo_params(config: VdoConfig, block_size_sectors: u32) -> (r: Params)
    ensures
        r == layer(config, block_size_sectors),
{
    Params {
        logical_size: config.logical_size,
        physical_size: config.physical_size,
        deduplication: config.deduplication,
        max_discard_blocks: block_size_sectors as u64 * SECTOR_SIZE / vdo::BLOCK_SIZE,
    }
}

/// The size of the disk of a machine, in sectors.
pub open spec fn disk_sectors(disk_size_gib: u32) -> nat {
    (disk_size_gib * 0x20_0000) as nat
}

/// The error for a machine that has no volume in the pool.
pub open spec fn no_vm_id(name: Seq<char>) -> ErrorView {
    ErrorView::Vm(
        "vm '"@ + name + "' has no dm-thin id recorded — was the pool re-initialized?"@,
    )
}

/// The error for an image that has no volume in the pool.
pub open spec fn no_image_id(name: Seq<char>) -> ErrorView {
    ErrorView::Image(
        "image '"@ + name + "' has no dm-thin id recorded — was the pool re-initialized?"@,
    )
}

/// Whether a pool may take more data, and why not.
pub open spec fn pool_verdict(pool_name: Seq<char>, st: PoolStatus) -> Result<(), ErrorView> {
    match st.mode {
        PoolMode::ReadWrite => Ok(()),
        PoolMode::ReadOnly => Err(
            ErrorView::Pool(
                "dm-thin pool '"@ + pool_name
                    + "' is read-only — run `thin_check` and `thin_repair` to recover"@,
            ),
        ),
        PoolMode::OutOfDataSpace => Err(
            ErrorView::Pool(
                "dm-thin pool '"@ + pool_name + "' is out of data space ("@ + dec(
                    st.used_data_blocks as nat,
                ) + "/"@ + dec(st.total_data_blocks as nat)
                    + " blocks used) — run `ember storage grow --size <bigger>` to extend it"@,
            ),
        ),
        PoolMode::Failed => Err(
            ErrorView::Pool(
                "dm-thin pool '"@ + pool_name
                    + "' has failed — inspect dmesg and `thin_check` the metadata device"@,
            ),
        ),
    }
}

fn check_pool(pool_name: &str, st: &PoolStatus) -> (r: Result<(), Error>)
    ensures
        outcome(r) == pool_verdict(pool_name@, *st),
{
    match st.mode {
        PoolMode::ReadWrite => Ok(()),
        PoolMode::ReadOnly => Err(
            Error::Pool(
                "dm-thin pool '".to_owned().concat(pool_name).concat(
                    "' is read-only — run `thin_check` and `thin_repair` to recover",
                ),
            ),
        ),
        PoolMode::OutOfDataSpace => {
            let used = decimal(st.used_data_blocks);
            let total = decimal(st.total_data_blocks);
            Err(
                Error::Pool(
                    "dm-thin pool '".to_owned().concat(pool_name).concat(
                        "' is out of data space (",
                    ).concat(used.as_str()).concat("/").concat(total.as_str()).concat(
                        " blocks used) — run `ember storage grow --size <bigger>` to extend it",
                    ),
                ),
            )
        },
        PoolMode::Failed => Err(
            Error::Pool(
                "dm-thin pool '".to_owned().concat(pool_name).concat(
                    "' has failed — inspect dmesg and `thin_check` the metadata device",
                ),
            ),
        ),
    }
}

impl DmThinStorage {
    /// The size of the disk of a machine, in sectors.
    pub fn vm_size_sectors(vm: &VmMetadata) -> (r: u64)
        ensures
            r == disk_sectors(vm.disk_size_gib),
    {
        vm.disk_size_gib as u64 * 1024 * 1024 * 1024 / SECTOR_SIZE
    }
}

// ---------------------------------------------------------------------
// What is in use
// ---------------------------------------------------------------------

/// Whether the figures of a pool can be told in bytes.
pub open spec fn pool_in_bytes(st: PoolStatus, block_bytes: u64) -> bool {
    &&& st.total_data_blocks * block_bytes <= u64::MAX
    &&& st.used_data_blocks * block_bytes <= u64::MAX
    &&& st.total_metadata_blocks * METADATA_BLOCK_SIZE <= u64::MAX
    &&& st.used_metadata_blocks * METADATA_BLOCK_SIZE <= u64::MAX
}

/// What a pool takes. Over a compression layer the layer knows what is really
/// in use, and the pool what it has handed out.
pub open spec fn pool_usage_of(
    st: PoolStatus,
    block_bytes: u64,
    layer_stats: Option<VdoStats>,
) -> PoolUsage {
    let capacity = (st.total_data_blocks * block_bytes) as u64;
    let allocated = (st.used_data_blocks * block_bytes) as u64;
    let metadata = Some(
        MetadataUsage {
            capacity: (st.total_metadata_blocks * METADATA_BLOCK_SIZE) as u64,
            used: (st.used_metadata_blocks * METADATA_BLOCK_SIZE) as u64,
        },
    );
    match layer_stats {
        None => PoolUsage {
            capacity,
            allocated,
            reserved: 0,
            logical: None,
            addressable: None,
            metadata,
        },
        Some(v) => PoolUsage {
            capacity: (v.physical_blocks * vdo::BLOCK_SIZE) as u64,
            allocated: ((v.data_blocks + v.overhead_blocks) * vdo::BLOCK_SIZE) as u64,
            reserved: (v.overhead_blocks * vdo::BLOCK_SIZE) as u64,
            logical: Some(allocated),
            addressable: Some(capacity),
            metadata,
        },
    }
}

/// What a pool takes.
pub fn pool_usage(status: &PoolStatus, block_bytes: u64, vdo_stats: Option<&VdoStats>) -> (r:
    PoolUsage)
    requires
        pool_in_bytes(*status, block_bytes),
        vdo_stats matches Some(v) ==> v.in_bytes(),
    ensures
        r == pool_usage_of(
            *status,
            block_bytes,
            match vdo_stats {
                Some(v) => Some(*v),
                None => None,
            },
        ),
{
    let capacity: u64 = status.total_data_blocks * block_bytes;
    let allocated: u64 = status.used_data_blocks * block_bytes;
    let metadata = Some(
        MetadataUsage {
            capacity: status.total_metadata_blocks * METADATA_BLOCK_SIZE,
            used: status.used_metadata_blocks * METADATA_BLOCK_SIZE,
        },
    );
    match vdo_stats {
        None => PoolUsage {
            capacity,
            allocated,
            reserved: 0,
            logical: None,
            addressable: None,
            metadata,
        },
        Some(v) => PoolUsage {
            capacity: v.total_bytes(),
            allocated: v.used_bytes(),
            reserved: v.overhead_bytes(),
            logical: Some(allocated),
            addressable: Some(capacity),
            metadata,
        },
    }
}

/// The first row with the given id.
pub open spec fn row_with_id(rows: Seq<ThinRow>, id: u64) -> Option<ThinRow>
    decreases rows.len(),
{
    if rows.len() == 0 {
        None
    } else if rows[0].dev_id == id {
        Some(rows[0])
    } else {
        row_with_id(rows.skip(1), id)
    }
}

/// What a volume takes, when it has an id and a row with that id.
pub open spec fn volume_usage_of(thin_id: Option<u64>, provisioned: u64, rows: Seq<ThinRow>) -> Option<
    VolumeUsage,
> {
    match thin_id {
        None => None,
        Some(id) => match row_with_id(rows, id) {
            None => None,
            Some(row) => Some(
                VolumeUsage {
                    provisioned,
                    exclusive: row.exclusive_bytes,
                    referenced: Some(row.mapped_bytes),
                    logical: None,
                },
            ),
        },
    }
}

/// What a volume takes, when it has an id and a row with that id.
pub fn volume_usage(thin_id: Option<u64>, provisioned: u64, rows: &[ThinRow]) -> (r: Option<
    VolumeUsage,
>)
    ensures
        r == volume_usage_of(thin_id, provisioned, rows@),
{
    let id: u64 = match thin_id {
        Some(id) => id,
        None => {
            return None;
        },
    };
    let mut i: usize = 0;
    assert(rows@.skip(0) =~= rows@);
    while i < rows.len()
        invariant
            i <= rows.len(),
            row_with_id(rows@, id) == row_with_id(rows@.skip(i as int), id),
            thin_id == Some(id),
        decreases rows.len() - i,
    {
        assert(rows@.skip(i as int).skip(1) =~= rows@.skip(i + 1));
        let row = rows[i];
        if row.dev_id == id {
            return Some(
                VolumeUsage {
                    provisioned,
                    exclusive: row.exclusive_bytes,
                    referenced: Some(row.mapped_bytes),
                    logical: None,
                },
            );
        }
        i = i + 1;
    }
    None
}

/// The machines that can be accounted for, by name. Of two with the same name
/// the later one stands.
pub open spec fn vms_joined(vms: Seq<VmMetadata>, rows: Seq<ThinRow>) -> Map<Seq<char>, VolumeUsage>
    decreases vms.len(),
{
    if vms.len() == 0 {
        Map::empty()
    } else {
        let m = vms_joined(vms.drop_last(), rows);
        let vm = vms.last();
        match volume_usage_of(
            vm.thin_id,
            (disk_sectors(vm.disk_size_gib) * SECTOR_SIZE) as u64,
            rows,
        ) {
            Some(u) => m.insert(vm.name@, u),
            None => m,
        }
    }
}

/// The machines that can be accounted for, by name.
pub fn join_vms(vms: &[VmMetadata], rows: &[ThinRow]) -> (r: VolumeTable)
    ensures
        r.in_order(),
        r@ == vms_joined(vms@, rows@),
{
    let mut table = VolumeTable::new();
    let mut i: usize = 0;
    while i < vms.len()
        invariant
            i <= vms.len(),
            table.in_order(),
            table@ == vms_joined(vms@.take(i as int), rows@),
        decreases vms.len() - i,
    {
        assert(vms@.take(i + 1).drop_last() =~= vms@.take(i as int));
        let provisioned: u64 = DmThinStorage::vm_size_sectors(&vms[i]) * SECTOR_SIZE;
        match volume_usage(vms[i].thin_id, provisioned, rows) {
            Some(u) => {
                table = table.insert(vms[i].name.clone(), u);
            },
            None => {},
        }
        i = i + 1;
    }
    assert(vms@.take(i as int) =~= vms@);
    table
}

/// The images that can be accounted for, by name. Of two with the same name the
/// later one stands.
pub open spec fn images_joined(images: Seq<ImageEntry>, rows: Seq<ThinRow>) -> Map<
    Seq<char>,
    VolumeUsage,
>
    decreases images.len(),
{
    if images.len() == 0 {
        Map::empty()
    } else {
        let m = images_joined(images.drop_last(), rows);
        let image = images.last();
        match volume_usage_of(image.thin_id, (image.size_mib * 0x10_0000) as u64, rows) {
            Some(u) => m.insert(image.local_name@, u),
            None => m,
        }
    }
}

/// Whether the sizes of the images can be told in bytes.
pub open spec fn images_in_bytes(images: Seq<ImageEntry>) -> bool {
    forall|i: int|
        0 <= i < images.len() ==> (#[trigger] images[i]).size_mib * 0x10_0000 <= u64::MAX
}

/// The images that can be accounted for, by name.
pub fn join_images(images: &[ImageEntry], rows: &[ThinRow]) -> (r: VolumeTable)
    requires
        images_in_bytes(images@),
    ensures
        r.in_order(),
        r@ == images_joined(images@, rows@),
{
    let mut table = VolumeTable::new();
    let mut i: usize = 0;
    while i < images.len()
        invariant
            i <= images.len(),
            images_in_bytes(images@),
            table.in_order(),
            table@ == images_joined(images@.take(i as int), rows@),
        decreases images.len() - i,
    {
        assert(images@.take(i + 1).drop_last() =~= images@.take(i as int));
        let provisioned: u64 = images[i].size_mib * 0x10_0000;
        match volume_usage(images[i].thin_id, provisioned, rows) {
            Some(u) => {
                table = table.insert(images[i].local_name.clone(), u);
            },
            None => {},
        }
        i = i + 1;
    }
    assert(images@.take(i as int) =~= images@);
    table
}

// ---------------------------------------------------------------------
// Growing
// ---------------------------------------------------------------------

/// What there is to grow.
#[derive(Clone, Copy, Debug, PartialEq, Eq, Structural)]
pub struct GrowContext {
    pub vdo: Option<VdoConfig>,
    pub backing_is_file: bool,
    pub backing_size: u64,
    pub pool_capacity: u64,
}

/// What to grow it to.
#[derive(Clone, Copy, Debug, PartialEq, Eq, Structural)]
pub struct GrowPlan {
    pub physical_size: u64,
    pub vdo: Option<VdoConfig>,
    /// Whether the file that the data lies on becomes longer.
    pub resize_backing: bool,
}

/// `bytes`, in whole blocks of the compression layer where there is one.
pub open spec fn aligned(bytes: u64, has_vdo: bool) -> nat {
    if has_vdo {
        whole_blocks(bytes as nat)
    } else {
        bytes as nat
    }
}

/// `bytes`, in whole blocks of the compression layer where there is one.
pub fn vdo_aligned(bytes: u64, has_vdo: bool) -> (r: u64)
    ensures
        r == aligned(bytes, has_vdo),
{
    if has_vdo {
        vdo::align_down(bytes)
    } else {
        bytes
    }
}

/// The physical space that the pool has.
pub open spec fn physical_before(ctx: GrowContext) -> nat {
    match ctx.vdo {
        Some(v) => v.physical_size as nat,
        None => ctx.pool_capacity as nat,
    }
}

/// The physical space that is asked for: what the request says; without a
/// request, all of a block device; and otherwise what there is.
pub open spec fn physical_after(request: GrowRequest, ctx: GrowContext) -> nat {
    match request.physical_size {
        Some(size) => aligned(size.bytes(), ctx.vdo is Some),
        None => if !ctx.backing_is_file && request.logical_size is None {
            aligned(ctx.backing_size, ctx.vdo is Some)
        } else {
            physical_before(ctx)
        },
    }
}

/// What the compression layer becomes: without a request its proportion is
/// kept.
pub open spec fn layer_after(request: GrowRequest, ctx: GrowContext) -> Option<VdoConfig> {
    match ctx.vdo {
        None => None,
        Some(v) => Some(
            VdoConfig {
                physical_size: physical_after(request, ctx) as u64,
                logical_size: (match request.logical_size {
                    Some(size) => whole_blocks(size.bytes() as nat),
                    None => scaled(
                        v.physical_size as nat,
                        v.logical_size as nat,
                        physical_after(request, ctx),
                    ),
                }) as u64,
                deduplication: v.deduplication,
            },
        ),
    }
}

/// What to grow a pool to, or why it cannot be grown.
pub open spec fn grow_plan(request: GrowRequest, ctx: GrowContext) -> Result<GrowPlan, ErrorView> {
    let was = physical_before(ctx);
    let wanted = physical_after(request, ctx);
    let vdo_after = layer_after(request, ctx);
    let grows_logical = ctx.vdo is Some && vdo_after->0.logical_size > ctx.vdo->0.logical_size;
    if request.logical_size is Some && ctx.vdo is None {
        Err(
            ErrorView::Config(
                "--logical-size applies only to a pool with a compression layer. Without one the pool can hand out exactly the space it has, so use --size."@,
            ),
        )
    } else if wanted < was {
        Err(
            ErrorView::Config(
                "the pool already has "@ + size_for_people(was)
                    + " of physical space, and shrinking it would destroy data. `ember storage grow` only grows."@,
            ),
        )
    } else if wanted > ctx.backing_size && !ctx.backing_is_file {
        Err(
            ErrorView::Config(
                "the backing block device is "@ + size_for_people(ctx.backing_size as nat)
                    + ", so it cannot hold a "@ + size_for_people(wanted)
                    + " pool, and ember cannot resize a device it does not own. Grow it externally first (lvextend, a cloud volume resize, and so on) and then re-run this command."@,
            ),
        )
    } else if ctx.vdo is Some && vdo_after->0.logical_size < ctx.vdo->0.logical_size {
        Err(
            ErrorView::Config(
                "the pool already hands out "@ + size_for_people(ctx.vdo->0.logical_size as nat)
                    + ", and a compression layer cannot address less than it did. `ember storage grow` only grows."@,
            ),
        )
    } else if wanted == was && !grows_logical {
        Err(
            ErrorView::Config(
                "nothing to grow: the pool already has "@ + size_for_people(was)
                    + " of physical space"@ + (match ctx.vdo {
                    Some(v) => " and hands out "@ + size_for_people(v.logical_size as nat),
                    None => seq![],
                })
                    + ". Pass a larger --size, or --logical-size on a pool with a compression layer."@,
            ),
        )
    } else {
        Ok(
            GrowPlan {
                physical_size: wanted as u64,
                vdo: vdo_after,
                resize_backing: ctx.backing_is_file && wanted > ctx.backing_size,
            },
        )
    }
}

/// What to grow a pool to, or why it cannot be grown.
pub fn plan_grow(request: &GrowRequest, ctx: &GrowContext) -> (r: Result<GrowPlan, Error>)
    ensures
        outcome(r) == grow_plan(*request, *ctx),
{
    let has_vdo = ctx.vdo.is_some();
    if request.logical_size.is_some() && !has_vdo {
        return Err(
            Error::Config(
                "--logical-size applies only to a pool with a compression layer. Without one the pool can hand out exactly the space it has, so use --size.".to_owned(),
            ),
        );
    }
    let was: u64 = match ctx.vdo {
        Some(v) => v.physical_size,
        None => ctx.pool_capacity,
    };
    let wanted: u64 = match request.physical_size {
        Some(size) => vdo_aligned(size.bytes(), has_vdo),
        None => {
            if !ctx.backing_is_file && request.logical_size.is_none() {
                vdo_aligned(ctx.backing_size, has_vdo)
            } else {
                was
            }
        },
    };
    let was_text = format_bytes(was);
    if wanted < was {
        return Err(
            Error::Config(
                "the pool already has ".to_owned().concat(was_text.as_str()).concat(
                    " of physical space, and shrinking it would destroy data. `ember storage grow` only grows.",
                ),
            ),
        );
    }
    if wanted > ctx.backing_size && !ctx.backing_is_file {
        let device = format_bytes(ctx.backing_size);
        let pool = format_bytes(wanted);
        return Err(
            Error::Config(
                "the backing block device is ".to_owned().concat(device.as_str()).concat(
                    ", so it cannot hold a ",
                ).concat(pool.as_str()).concat(
                    " pool, and ember cannot resize a device it does not own. Grow it externally first (lvextend, a cloud volume resize, and so on) and then re-run this command.",
                ),
            ),
        );
    }
    let vdo_after = match ctx.vdo {
        None => None,
        Some(v) => {
            let logical_size: u64 = match request.logical_size {
                Some(size) => vdo_aligned(size.bytes(), true),
                None => vdo::scale_logical(v.physical_size, v.logical_size, wanted),
            };
            Some(
                VdoConfig {
                    physical_size: wanted,
                    logical_size,
                    deduplication: v.deduplication,
                },
            )
        },
    };
    let mut grows_logical = false;
    let mut hands_out = String::new();
    match (vdo_after, ctx.vdo) {
        (Some(after), Some(v)) => {
            let logical_text = format_bytes(v.logical_size);
            if after.logical_size < v.logical_size {
                return Err(
                    Error::Config(
                        "the pool already hands out ".to_owned().concat(
                            logical_text.as_str(),
                        ).concat(
                            ", and a compression layer cannot address less than it did. `ember storage grow` only grows.",
                        ),
                    ),
                );
            }
            grows_logical = after.logical_size > v.logical_size;
            hands_out = " and hands out ".to_owned().concat(logical_text.as_str());
        },
        _ => {},
    }
    if wanted == was && !grows_logical {
        return Err(
            Error::Config(
                "nothing to grow: the pool already has ".to_owned().concat(
                    was_text.as_str(),
                ).concat(" of physical space").concat(hands_out.as_str()).concat(
                    ". Pass a larger --size, or --logical-size on a pool with a compression layer.",
                ),
            ),
        );
    }
    Ok(
        GrowPlan {
            physical_size: wanted,
            vdo: vdo_after,
            resize_backing: ctx.backing_is_file && wanted > ctx.backing_size,
        },
    )
}

/// A plan makes nothing smaller, neither the pool nor what it hands out nor the
/// file it lies on, and makes something larger; and a block device is never
/// resized nor outgrown.
pub proof fn law_plan_only_grows(request: GrowRequest, ctx: GrowContext)
    ensures
        grow_plan(request, ctx) matches Ok(p) ==> {
            &&& p.physical_size >= physical_before(ctx)
            &&& p.vdo is Some <==> ctx.vdo is Some
            &&& ctx.vdo matches Some(v) ==> {
                &&& p.vdo->0.logical_size >= v.logical_size
                &&& p.vdo->0.physical_size == p.physical_size
                &&& p.vdo->0.deduplication == v.deduplication
            }
            &&& p.physical_size > physical_before(ctx) || (ctx.vdo is Some
                && p.vdo->0.logical_size > ctx.vdo->0.logical_size)
            &&& p.resize_backing ==> ctx.backing_is_file && p.physical_size > ctx.backing_size
            &&& !ctx.backing_is_file ==> p.physical_size <= ctx.backing_size
        },
{
    assert(physical_after(request, ctx) <= u64::MAX);
}

/// The size of a pool that is set up: the one asked for; without one, that of
/// the block device.
pub open spec fn pool_size(
    requested: Option<ByteSize>,
    mode: DmThinMode,
    device_size: Result<u64, ErrorView>,
) -> Result<u64, ErrorView> {
    match requested {
        Some(size) => Ok(size.bytes()),
        None => match mode {
            DmThinMode::RawDevice => device_size,
            DmThinMode::File => Err(
                ErrorView::Config("dm-thin --size is required when using a file-backed pool"@),
            ),
        },
    }
}

/// The size of a pool that is set up. `device_size` is what the size of the data
/// device was found to be.
pub fn resolve_pool_size(
    mode: DmThinMode,
    requested: Option<ByteSize>,
    device_size: Result<u64, Error>,
) -> (r: Result<u64, Error>)
    ensures
        outcome(r) == pool_size(requested, mode, outcome(device_size)),
{
    match requested {
        Some(size) => Ok(size.bytes()),
        None => match mode {
            DmThinMode::RawDevice => device_size,
            DmThinMode::File => Err(
                Error::Config(
                    "dm-thin --size is required when using a file-backed pool".to_owned(),
                ),
            ),
        },
    }
}

/// The size that a pool would be set up with.
pub fn pool_size_at_init(
    mode: DmThinMode,
    requested: Option<ByteSize>,
    device_size: Result<u64, Error>,
) -> (r: Result<u64, Error>)
    ensures
        outcome(r) == pool_size(requested, mode, outcome(device_size)),
{
    resolve_pool_size(mode, requested, device_size)
}

// ---------------------------------------------------------------------
// Procedures
// ---------------------------------------------------------------------

/// One thing to do to a pool.
#[derive(Debug)]
pub enum PoolAction {
    /// Activate the pool, unless it is active.
    EnsurePool,
    /// Fail when the pool, or the layer below it, may not take more data.
    AssertHealthy,
    /// Fail with this error.
    Refuse(Error),
    /// Fail when the kernel does not provide the target of pools.
    EnsurePoolTarget,
    /// Fail when the kernel does not provide the target of compression layers.
    EnsureLayerTarget,
    /// Fail when the compression layer is read-only.
    AssertReadWrite,
    /// Check the metadata of the pool, which lies in this file.
    CheckMetadata(String),
    /// Make the directory that this file is to lie in.
    MakeParent(String),
    /// Make a file this long, without writing to it.
    SparseFile(String, u64),
    /// Overwrite the first block.
    ZeroHead(String),
    /// Attach a loop device to the metadata file.
    AttachMetadata(String),
    /// Attach a loop device to the data file, or take the device as it is.
    AttachData(String),
    /// Format the data device for a compression layer.
    FormatLayer(u64, IndexMemory),
    /// Activate the compression layer.
    ActivateLayer(String, Params),
    /// Wait until a device shows.
    WaitFor(String),
    /// Create the pool on the device on top.
    CreatePool(String, u32),
    /// Let the loop device of a file know its new length.
    RefreshLoop(String),
    /// Give the compression layer other sizes.
    ReloadLayer(String, Params),
    /// Record the sizes of the compression layer.
    RecordLayer(VdoConfig),
    /// Tell the pool of so many sectors of its data device, or of as many as
    /// the compression layer has.
    ReloadPool(String, Option<u64>),
    /// Remove a device-mapper device.
    RemoveDevice(String),
    /// Remove a device-mapper device, when it is there.
    RemoveDeviceIfThere(String),
    /// Detach the loop device of a file.
    Detach(String),
    /// Remove a file.
    RemoveFile(String),
    /// Remove a directory, when it is empty.
    RemoveDir(String),
    /// Create a volume for an image that is to be written.
    AllocateStaging,
    /// Activate a volume with this name and so many sectors: the one that was
    /// allocated last.
    ActivateNew(String, u64),
    /// Activate a volume with this name, id and so many sectors, unless it is
    /// active.
    EnsureActive(String, u64, u64),
    /// Write the image to the device with this name.
    WriteImage(String),
    /// Suspend the device with this name.
    Suspend(String),
    /// Resume the device with this name.
    Resume(String),
    /// Create a snapshot of the volume that was allocated last.
    SnapshotStaging,
    /// Create a snapshot of the volume with this id.
    SnapshotOf(u64),
    /// Delete the volume for the image that was to be written.
    DeleteStaging,
    /// Delete the volume that was allocated last.
    DeleteNew,
    /// Delete the volume with this id.
    Delete(u64),
    /// Deactivate the device with this name.
    Deactivate(String),
    /// Deactivate the device with this name, when it is there.
    DeactivateIfThere(String),
    /// Give an active volume, with this name and id, so many sectors.
    ReloadSize(String, u64, u64),
    /// Check the file system on a device.
    CheckFilesystem(String),
    /// Let the file system fill its device.
    GrowFilesystem(String),
    /// Give a device another name, when it is there.
    RenameIfThere(String, String),
}

/// A [`PoolAction`], its strings taken by their texts.
#[verifier::ext_equal]
pub enum PoolActionView {
    EnsurePool,
    AssertHealthy,
    Refuse(ErrorView),
    EnsurePoolTarget,
    EnsureLayerTarget,
    AssertReadWrite,
    CheckMetadata(Seq<char>),
    MakeParent(Seq<char>),
    SparseFile(Seq<char>, u64),
    ZeroHead(Seq<char>),
    AttachMetadata(Seq<char>),
    AttachData(Seq<char>),
    FormatLayer(u64, IndexMemory),
    ActivateLayer(Seq<char>, Params),
    WaitFor(Seq<char>),
    CreatePool(Seq<char>, u32),
    RefreshLoop(Seq<char>),
    ReloadLayer(Seq<char>, Params),
    RecordLayer(VdoConfig),
    ReloadPool(Seq<char>, Option<u64>),
    RemoveDevice(Seq<char>),
    RemoveDeviceIfThere(Seq<char>),
    Detach(Seq<char>),
    RemoveFile(Seq<char>),
    RemoveDir(Seq<char>),
    AllocateStaging,
    ActivateNew(Seq<char>, u64),
    EnsureActive(Seq<char>, u64, u64),
    WriteImage(Seq<char>),
    Suspend(Seq<char>),
    Resume(Seq<char>),
    SnapshotStaging,
    SnapshotOf(u64),
    DeleteStaging,
    DeleteNew,
    Delete(u64),
    Deactivate(Seq<char>),
    DeactivateIfThere(Seq<char>),
    ReloadSize(Seq<char>, u64, u64),
    CheckFilesystem(Seq<char>),
    GrowFilesystem(Seq<char>),
    RenameIfThere(Seq<char>, Seq<char>),
}

impl View for PoolAction {
    type V = PoolActionView;

    open spec fn view(&self) -> PoolActionView {
        match *self {
            PoolAction::EnsurePool => PoolActionView::EnsurePool,
            PoolAction::AssertHealthy => PoolActionView::AssertHealthy,
            PoolAction::Refuse(e) => PoolActionView::Refuse(e@),
            PoolAction::EnsurePoolTarget => PoolActionView::EnsurePoolTarget,
            PoolAction::EnsureLayerTarget => PoolActionView::EnsureLayerTarget,
            PoolAction::AssertReadWrite => PoolActionView::AssertReadWrite,
            PoolAction::CheckMetadata(p) => PoolActionView::CheckMetadata(p@),
            PoolAction::MakeParent(p) => PoolActionView::MakeParent(p@),
            PoolAction::SparseFile(p, n) => PoolActionView::SparseFile(p@, n),
            PoolAction::ZeroHead(p) => PoolActionView::ZeroHead(p@),
            PoolAction::AttachMetadata(p) => PoolActionView::AttachMetadata(p@),
            PoolAction::AttachData(p) => PoolActionView::AttachData(p@),
            PoolAction::FormatLayer(n, i) => PoolActionView::FormatLayer(n, i),
            PoolAction::ActivateLayer(s, p) => PoolActionView::ActivateLayer(s@, p),
            PoolAction::WaitFor(p) => PoolActionView::WaitFor(p@),
            PoolAction::CreatePool(s, n) => PoolActionView::CreatePool(s@, n),
            PoolAction::RefreshLoop(p) => PoolActionView::RefreshLoop(p@),
            PoolAction::ReloadLayer(s, p) => PoolActionView::ReloadLayer(s@, p),
            PoolAction::RecordLayer(c) => PoolActionView::RecordLayer(c),
            PoolAction::ReloadPool(s, n) => PoolActionView::ReloadPool(s@, n),
            PoolAction::RemoveDevice(s) => PoolActionView::RemoveDevice(s@),
            PoolAction::RemoveDeviceIfThere(s) => PoolActionView::RemoveDeviceIfThere(s@),
            PoolAction::Detach(p) => PoolActionView::Detach(p@),
            PoolAction::RemoveFile(p) => PoolActionView::RemoveFile(p@),
            PoolAction::RemoveDir(p) => PoolActionView::RemoveDir(p@),
            PoolAction::AllocateStaging => PoolActionView::AllocateStaging,
            PoolAction::ActivateNew(s, n) => PoolActionView::ActivateNew(s@, n),
            PoolAction::EnsureActive(s, i, n) => PoolActionView::EnsureActive(s@, i, n),
            PoolAction::WriteImage(s) => PoolActionView::WriteImage(s@),
            PoolAction::Suspend(s) => PoolActionView::Suspend(s@),
            PoolAction::Resume(s) => PoolActionView::Resume(s@),
            PoolAction::SnapshotStaging => PoolActionView::SnapshotStaging,
            PoolAction::SnapshotOf(i) => PoolActionView::SnapshotOf(i),
            PoolAction::DeleteStaging => PoolActionView::DeleteStaging,
            PoolAction::DeleteNew => PoolActionView::DeleteNew,
            PoolAction::Delete(i) => PoolActionView::Delete(i),
            PoolAction::Deactivate(s) => PoolActionView::Deactivate(s@),
            PoolAction::DeactivateIfThere(s) => PoolActionView::DeactivateIfThere(s@),
            PoolAction::ReloadSize(s, i, n) => PoolActionView::ReloadSize(s@, i, n),
            PoolAction::CheckFilesystem(p) => PoolActionView::CheckFilesystem(p@),
            PoolAction::GrowFilesystem(p) => PoolActionView::GrowFilesystem(p@),
            PoolAction::RenameIfThere(a, b) => PoolActionView::RenameIfThere(a@, b@),
        }
    }
}

/// What setting up a pool works with.
#[derive(Debug)]
pub struct InitLayout {
    pub pool_name: String,
    pub vdo_name: String,
    pub block_size_sectors: u32,
    pub mode: DmThinMode,
    pub metadata_path: String,
    pub data_path: String,
}

/// The error for a kernel without the target of pools.
pub open spec fn no_pool_target() -> ErrorView {
    crate::dm::missing_target(
        "dm-thin-pool"@,
        "thin-pool"@,
        "CONFIG_DM_THIN_PROVISIONING"@,
    )
}

/// Refuses to go on when a listing of targets lacks the one of pools.
pub fn ensure_target_loaded(listing: &str) -> (r: Result<(), Error>)
    ensures
        outcome(r) == (if crate::dm::provides(listing@, "thin-pool"@) {
            Ok::<(), ErrorView>(())
        } else {
            Err(no_pool_target())
        }),
{
    crate::dm::ensure_target(
        listing,
        "dm-thin-pool",
        "thin-pool",
        "CONFIG_DM_THIN_PROVISIONING",
    )
}

/// The sectors of a block, unless told otherwise.
pub open spec fn block_sectors(configured: Option<u32>) -> u32 {
    match configured {
        Some(n) => n,
        None => DEFAULT_BLOCK_SIZE_SECTORS,
    }
}

/// What setting up a pool works with. `targets` is the listing of the targets
/// of the kernel.
pub fn init_layout(config: &InitConfig, targets: &str) -> (r: Result<InitLayout, Error>)
    ensures
        match r {
            Err(e) => e@ == (if config.storage_path is None {
                ErrorView::Config("dm-thin requires --storage-path (directory or block device)"@)
            } else if !crate::dm::provides(targets@, "thin-pool"@) {
                no_pool_target()
            } else {
                ErrorView::Config("dm-thin requires a resolved layout mode in InitConfig"@)
            }),
            Ok(l) => {
                let paths = init_paths(
                    config.storage_path->0@,
                    config.state_dir@,
                    config.dm_thin_mode->0,
                );
                &&& l.pool_name@ == pool_name_of(Some(config.instance_id@))
                &&& l.vdo_name@ == name_of(Some(config.instance_id@))
                &&& l.block_size_sectors == block_sectors(config.dm_thin_block_size)
                &&& l.mode == config.dm_thin_mode->0
                &&& l.metadata_path@ == paths.0
                &&& l.data_path@ == paths.1
            },
        },
        r is Ok <==> config.storage_path is Some && crate::dm::provides(targets@, "thin-pool"@)
            && config.dm_thin_mode is Some,
{
    let storage_path = match &config.storage_path {
        Some(p) => p.as_str(),
        None => {
            return Err(
                Error::Config(
                    "dm-thin requires --storage-path (directory or block device)".to_owned(),
                ),
            );
        },
    };
    match ensure_target_loaded(targets) {
        Ok(()) => {},
        Err(e) => {
            return Err(e);
        },
    }
    let block_size_sectors: u32 = match config.dm_thin_block_size {
        Some(n) => n,
        None => DEFAULT_BLOCK_SIZE_SECTORS,
    };
    let mode = match config.dm_thin_mode {
        Some(m) => m,
        None => {
            return Err(
                Error::Config(
                    "dm-thin requires a resolved layout mode in InitConfig".to_owned(),
                ),
            );
        },
    };
    let (metadata_path, data_path) = resolve_init_paths(
        storage_path,
        config.state_dir.as_str(),
        mode,
    );
    Ok(
        InitLayout {
            pool_name: pool_name(Some(config.instance_id.as_str())),
            vdo_name: vdo::name(Some(config.instance_id.as_str())),
            block_size_sectors,
            mode,
            metadata_path,
            data_path,
        },
    )
}

/// What was found where a pool is to be set up.
#[derive(Debug)]
pub struct InitProbe {
    /// The listing of the targets of the kernel.
    pub targets: String,
    /// Whether the tool that formats compression layers was found.
    pub format_tool: bool,
    pub data_exists: bool,
    pub data_is_file: bool,
    /// The size of the data device.
    pub data_size: Result<u64, Error>,
    pub metadata_exists: bool,
}

/// The sizes that a pool is set up with.
#[derive(Debug, Clone, Copy, PartialEq, Eq, Structural)]
pub struct InitSizes {
    pub pool_size: u64,
    /// The bytes that the pool may hand out.
    pub addressable: u64,
}

/// What to do about a data device of the wrong size.
pub open spec fn backing_fix(data_path: Seq<char>, is_file: bool, backing: nat) -> Seq<char> {
    if is_file {
        data_path
            + " is a leftover pool from an earlier install, so delete it (or re-run `ember deinit --purge`) before initializing again"@
    } else {
        "pass --size "@ + size_for_people(whole_blocks(backing)) + " to match "@ + data_path
            + ", or point --storage-path at a device of the requested size"@
    }
}

/// The error for a data device of the wrong size.
pub open spec fn backing_error(
    data_path: Seq<char>,
    is_file: bool,
    backing: nat,
    wanted: nat,
) -> ErrorView {
    ErrorView::Config(
        "--vdo uses the whole backing device, so the pool's physical size must match it: "@
            + data_path + " is "@ + size_for_people(backing) + ", but "@ + size_for_people(wanted)
            + " was requested. "@ + backing_fix(data_path, is_file, backing) + "."@,
    )
}

/// Whether a compression layer can be set up, and why not.
pub open spec fn layer_verdict(
    layer_config: VdoConfig,
    data_path: Seq<char>,
    probe: InitProbe,
    pool_bytes: u64,
) -> Result<(), ErrorView> {
    let backing = if probe.data_exists {
        outcome(probe.data_size)
    } else {
        Ok(pool_bytes)
    };
    if !crate::dm::provides(probe.targets@, "vdo"@) {
        Err(crate::dm::missing_target("dm-vdo"@, "vdo"@, "CONFIG_DM_VDO"@))
    } else if !probe.format_tool {
        Err(vdo::no_format_tool())
    } else if physical_verdict(layer_config.physical_size as nat) is Err {
        physical_verdict(layer_config.physical_size as nat)
    } else {
        match backing {
            Err(e) => Err(e),
            Ok(b) => if whole_blocks(b as nat) != layer_config.physical_size {
                Err(
                    backing_error(
                        data_path,
                        probe.data_is_file,
                        b as nat,
                        layer_config.physical_size as nat,
                    ),
                )
            } else {
                Ok(())
            },
        }
    }
}

fn check_layer(
    layer_config: VdoConfig,
    data_path: &str,
    probe: &InitProbe,
    pool_bytes: u64,
) -> (r: Result<(), Error>)
    ensures
        outcome(r) == layer_verdict(layer_config, data_path@, *probe, pool_bytes),
{
    match vdo::ensure_target_loaded(probe.targets.as_str()) {
        Ok(()) => {},
        Err(e) => {
            return Err(e);
        },
    }
    match vdo::ensure_format_tool(probe.format_tool) {
        Ok(()) => {},
        Err(e) => {
            return Err(e);
        },
    }
    match vdo::check_physical_size(layer_config.physical_size) {
        Ok(()) => {},
        Err(e) => {
            return Err(e);
        },
    }
    let backing: u64 = if probe.data_exists {
        match &probe.data_size {
            Ok(n) => *n,
            Err(e) => {
                return Err(e.clone());
            },
        }
    } else {
        pool_bytes
    };
    if vdo::align_down(backing) != layer_config.physical_size {
        let fix = if probe.data_is_file {
            data_path.to_owned().concat(
                " is a leftover pool from an earlier install, so delete it (or re-run `ember deinit --purge`) before initializing again",
            )
        } else {
            let fitting = format_bytes(vdo::align_down(backing));
            "pass --size ".to_owned().concat(fitting.as_str()).concat(" to match ").concat(
                data_path,
            ).concat(", or point --storage-path at a device of the requested size")
        };
        let is = format_bytes(backing);
        let wanted = format_bytes(layer_config.physical_size);
        return Err(
            Error::Config(
                "--vdo uses the whole backing device, so the pool's physical size must match it: ".to_owned().concat(
                    data_path,
                ).concat(" is ").concat(is.as_str()).concat(", but ").concat(
                    wanted.as_str(),
                ).concat(" was requested. ").concat(fix.as_str()).concat("."),
            ),
        );
    }
    Ok(())
}

/// The sizes that a pool is set up with, or why it cannot be.
pub open spec fn init_sizes_of(
    config: InitConfig,
    mode: DmThinMode,
    data_path: Seq<char>,
    probe: InitProbe,
) -> Result<InitSizes, ErrorView> {
    match pool_size(config.dm_thin_size, mode, outcome(probe.data_size)) {
        Err(e) => Err(e),
        Ok(bytes) => match config.vdo {
            None => Ok(InitSizes { pool_size: bytes, addressable: bytes }),
            Some(v) => match layer_verdict(v, data_path, probe, bytes) {
                Err(e) => Err(e),
                Ok(()) => Ok(
                    InitSizes {
                        pool_size: bytes,
                        addressable: if v.logical_size > bytes {
                            v.logical_size
                        } else {
                            bytes
                        },
                    },
                ),
            },
        },
    }
}

/// The sizes that a pool is set up with, or why it cannot be.
pub fn init_sizes(config: &InitConfig, layout: &InitLayout, probe: &InitProbe) -> (r: Result<
    InitSizes,
    Error,
>)
    ensures
        outcome(r) == init_sizes_of(*config, layout.mode, layout.data_path@, *probe),
{
    let device_size: Result<u64, Error> = match &probe.data_size {
        Ok(n) => Ok(*n),
        Err(e) => Err(e.clone()),
    };
    let bytes: u64 = match resolve_pool_size(layout.mode, config.dm_thin_size, device_size) {
        Ok(n) => n,
        Err(e) => {
            return Err(e);
        },
    };
    match config.vdo {
        None => Ok(InitSizes { pool_size: bytes, addressable: bytes }),
        Some(v) => {
            match check_layer(v, layout.data_path.as_str(), probe, bytes) {
                Ok(()) => {},
                Err(e) => {
                    return Err(e);
                },
            }
            let addressable: u64 = if v.logical_size > bytes { v.logical_size } else { bytes };
            Ok(InitSizes { pool_size: bytes, addressable })
        },
    }
}

/// The size of the metadata: the one asked for; without one, the recommended
/// one, within limits.
pub open spec fn metadata_bytes(requested: Option<ByteSize>, recommended: u64) -> u64 {
    match requested {
        Some(size) => size.bytes(),
        None => if recommended < 32 * 1024 * 1024 {
            (32 * 1024 * 1024) as u64
        } else if recommended > 16 * 1024 * 1024 * 1024 {
            (16 * 1024 * 1024 * 1024) as u64
        } else {
            recommended
        },
    }
}

/// The size of the metadata. `recommended` is what the tool recommends, which
/// is asked only when no size was given.
pub fn metadata_size(requested: Option<ByteSize>, recommended: u64) -> (r: u64)
    ensures
        r == metadata_bytes(requested, recommended),
{
    match requested {
        Some(size) => size.bytes(),
        None => {
            if recommended < MIN_METADATA_SIZE_BYTES {
                MIN_METADATA_SIZE_BYTES
            } else if recommended > MAX_METADATA_SIZE_BYTES {
                MAX_METADATA_SIZE_BYTES
            } else {
                recommended
            }
        },
    }
}

/// What takes a pool down that could not be set up.
pub open spec fn unwinding(
    vdo_name: Seq<char>,
    metadata_path: Seq<char>,
    data_path: Seq<char>,
    data_is_file: bool,
    created: bool,
) -> Seq<PoolActionView> {
    seq![PoolActionView::RemoveDeviceIfThere(vdo_name)] + (if data_is_file {
        seq![PoolActionView::Detach(data_path)] + (if created {
            seq![PoolActionView::RemoveFile(data_path)]
        } else {
            seq![]
        })
    } else {
        seq![]
    }) + seq![PoolActionView::Detach(metadata_path)]
}

fn unwind_stack(
    vdo_name: &str,
    metadata_path: &str,
    data_path: &str,
    data_is_file: bool,
    created: bool,
) -> (r: Vec<PoolAction>)
    ensures
        views(r@) == unwinding(vdo_name@, metadata_path@, data_path@, data_is_file, created),
{
    let mut r = and(no_actions(), PoolAction::RemoveDeviceIfThere(vdo_name.to_owned()));
    if data_is_file {
        r = and(r, PoolAction::Detach(data_path.to_owned()));
        if created {
            r = and(r, PoolAction::RemoveFile(data_path.to_owned()));
        }
    }
    r = and(r, PoolAction::Detach(metadata_path.to_owned()));
    assert(views(r@) =~= unwinding(
        vdo_name@,
        metadata_path@,
        data_path@,
        data_is_file,
        created,
    ));
    r
}

/// The files that are made before a pool is set up.
pub open spec fn file_steps(
    metadata_path: Seq<char>,
    data_path: Seq<char>,
    probe: InitProbe,
    pool_bytes: u64,
    metadata_size_bytes: u64,
) -> Seq<StepView<PoolActionView>> {
    (if probe.metadata_exists {
        seq![]
    } else {
        seq![
            must(PoolActionView::MakeParent(metadata_path)),
            must(PoolActionView::SparseFile(metadata_path, metadata_size_bytes)),
        ]
    }) + (if probe.data_is_file || !probe.data_exists {
        seq![must(PoolActionView::MakeParent(data_path))] + (if probe.data_exists {
            seq![]
        } else {
            seq![must(PoolActionView::SparseFile(data_path, pool_bytes))]
        })
    } else {
        seq![]
    }) + seq![
        must(PoolActionView::ZeroHead(metadata_path)),
        must(PoolActionView::AttachMetadata(metadata_path)),
    ]
}

/// How a pool is put together on its devices.
pub open spec fn stack_steps(
    pool: Seq<char>,
    vdo_name: Seq<char>,
    data_path: Seq<char>,
    layer_config: Option<VdoConfig>,
    block_size_sectors: u32,
    undo: Seq<PoolActionView>,
) -> Seq<StepView<PoolActionView>> {
    seq![must_or(PoolActionView::AttachData(data_path), undo)] + (match layer_config {
        None => seq![],
        Some(v) => seq![
            must_or(
                PoolActionView::FormatLayer(
                    v.logical_size,
                    IndexMemory(vdo::index_quarters(v.physical_size as nat) as u32),
                ),
                undo,
            ),
            must_or(
                PoolActionView::ActivateLayer(vdo_name, layer(v, block_size_sectors)),
                undo,
            ),
            must_or(PoolActionView::WaitFor(device_path_of(vdo_name)), undo),
        ],
    }) + seq![must_or(PoolActionView::CreatePool(pool, block_size_sectors), undo)]
}

/// The steps, and those that put a pool together on its devices behind them.
/// When one of these fails, what was put together is taken down again.
pub fn assemble_stack(
    steps: Vec<Step<PoolAction>>,
    layer_config: Option<VdoConfig>,
    layout: &InitLayout,
    data_is_file: bool,
    created: bool,
) -> (r: Vec<Step<PoolAction>>)
    ensures
        plan(r@) == plan(steps@) + stack_steps(
            layout.pool_name@,
            layout.vdo_name@,
            layout.data_path@,
            layer_config,
            layout.block_size_sectors,
            unwinding(
                layout.vdo_name@,
                layout.metadata_path@,
                layout.data_path@,
                data_is_file,
                created,
            ),
        ),
{
    let ghost before = plan(steps@);
    let metadata = layout.metadata_path.as_str();
    let data = layout.data_path.as_str();
    let name = layout.vdo_name.as_str();
    let mut steps = then_must_undo(
        steps,
        PoolAction::AttachData(data.to_owned()),
        unwind_stack(name, metadata, data, data_is_file, created),
    );
    match layer_config {
        None => {},
        Some(v) => {
            steps = then_must_undo(
                steps,
                PoolAction::FormatLayer(
                    v.logical_size,
                    IndexMemory::for_physical_size(v.physical_size),
                ),
                unwind_stack(name, metadata, data, data_is_file, created),
            );
            steps = then_must_undo(
                steps,
                PoolAction::ActivateLayer(
                    name.to_owned(),
                    vdo_params(v, layout.block_size_sectors),
                ),
                unwind_stack(name, metadata, data, data_is_file, created),
            );
            steps = then_must_undo(
                steps,
                PoolAction::WaitFor(vdo::device_path(name)),
                unwind_stack(name, metadata, data, data_is_file, created),
            );
        },
    }
    steps = then_must_undo(
        steps,
        PoolAction::CreatePool(layout.pool_name.clone(), layout.block_size_sectors),
        unwind_stack(name, metadata, data, data_is_file, created),
    );
    assert(plan(steps@) =~= before + stack_steps(
        layout.pool_name@,
        layout.vdo_name@,
        layout.data_path@,
        layer_config,
        layout.block_size_sectors,
        unwinding(name@, metadata@, data@, data_is_file, created),
    ));
    steps
}

/// How a pool is set up: the files are made, and the pool is put together on
/// them. When the latter fails, what was put together is taken down again, and
/// a data file that was made for it is removed.
pub fn init_steps(
    config: &InitConfig,
    layout: &InitLayout,
    probe: &InitProbe,
    sizes: InitSizes,
    metadata_size_bytes: u64,
) -> (r: Vec<Step<PoolAction>>)
    ensures
        plan(r@) == file_steps(
            layout.metadata_path@,
            layout.data_path@,
            *probe,
            sizes.pool_size,
            metadata_size_bytes,
        ) + stack_steps(
            layout.pool_name@,
            layout.vdo_name@,
            layout.data_path@,
            config.vdo,
            layout.block_size_sectors,
            unwinding(
                layout.vdo_name@,
                layout.metadata_path@,
                layout.data_path@,
                probe.data_is_file || !probe.data_exists,
                !probe.data_exists,
            ),
        ),
{
    let metadata = layout.metadata_path.as_str();
    let data = layout.data_path.as_str();
    let mut steps: Vec<Step<PoolAction>> = no_steps();
    if !probe.metadata_exists {
        steps = then_must(steps, PoolAction::MakeParent(metadata.to_owned()));
        steps = then_must(
            steps,
            PoolAction::SparseFile(metadata.to_owned(), metadata_size_bytes),
        );
    }
    if probe.data_is_file || !probe.data_exists {
        steps = then_must(steps, PoolAction::MakeParent(data.to_owned()));
        if !probe.data_exists {
            steps = then_must(steps, PoolAction::SparseFile(data.to_owned(), sizes.pool_size));
        }
    }
    steps = then_must(steps, PoolAction::ZeroHead(metadata.to_owned()));
    steps = then_must(steps, PoolAction::AttachMetadata(metadata.to_owned()));
    let ghost files = file_steps(
        layout.metadata_path@,
        layout.data_path@,
        *probe,
        sizes.pool_size,
        metadata_size_bytes,
    );
    assert(plan(steps@) =~= files);
    let is_file = probe.data_is_file || !probe.data_exists;
    assemble_stack(steps, config.vdo, layout, is_file, !probe.data_exists)
}

/// The call that makes a file of so many bytes that takes no room yet.
pub open spec fn sparse_call(path: Seq<char>, size_bytes: u64) -> InvocationView {
    InvocationView {
        program: "truncate"@,
        args: seq!["-s"@, dec(size_bytes as nat), path],
        label: "truncate"@,
        start_label: "truncate"@,
    }
}

/// The call that makes a file of so many bytes that takes no room yet, or gives
/// it another size.
pub fn create_sparse_file(path: &str, size_bytes: u64) -> (r: Invocation)
    ensures
        r@ == sparse_call(path@, size_bytes),
{
    let n = decimal(size_bytes);
    Invocation::new("truncate", "truncate").arg("-s").arg(n.as_str()).arg(path)
}

/// The call that wipes the start of the metadata.
pub open spec fn zero_head_call(path: Seq<char>) -> InvocationView {
    InvocationView {
        program: "dd"@,
        args: seq![
            "if=/dev/zero"@,
            "of="@ + path,
            "bs=4K"@,
            "count=1"@,
            "conv=notrunc"@,
            "status=none"@,
        ],
        label: "dd zero metadata"@,
        start_label: "dd zero metadata"@,
    }
}

/// The call that wipes the start of the metadata, so that the kernel takes it for
/// that of a new pool.
pub fn zero_head(path: &str) -> (r: Invocation)
    ensures
        r@ == zero_head_call(path@),
{
    let of = "of=".to_owned().concat(path);
    Invocation::new("dd", "dd zero metadata").arg("if=/dev/zero").arg(of.as_str()).arg(
        "bs=4K",
    ).arg("count=1").arg("conv=notrunc").arg("status=none")
}

/// The call that writes an image to a device.
pub open spec fn write_call(image_path: Seq<char>, device: Seq<char>) -> InvocationView {
    InvocationView {
        program: "dd"@,
        args: seq![
            "if="@ + image_path,
            "of="@ + device,
            "bs=1M"@,
            "conv=fsync"@,
            "status=none"@,
        ],
        label: "dd image to thin"@,
        start_label: "dd image to thin"@,
    }
}

/// The call that writes an image to a device.
pub fn dd_image(image_path: &str, device: &str) -> (r: Invocation)
    ensures
        r@ == write_call(image_path@, device@),
{
    let from = "if=".to_owned().concat(image_path);
    let of = "of=".to_owned().concat(device);
    Invocation::new("dd", "dd image to thin").arg(from.as_str()).arg(of.as_str()).arg(
        "bs=1M",
    ).arg("conv=fsync").arg("status=none")
}

/// Asks for the size of a device, for [`device_size_bytes`] to read.
pub fn ask_device_size(path: &str) -> (r: Invocation)
    ensures
        r@ == (InvocationView {
            program: "blockdev"@,
            args: seq!["--getsize64"@, path@],
            label: "blockdev --getsize64"@,
            start_label: "blockdev --getsize64"@,
        }),
{
    Invocation::new("blockdev", "blockdev --getsize64").arg("--getsize64").arg(path)
}

/// The size of a device, as the tool says it.
pub open spec fn device_size(stdout: Seq<char>) -> Result<u64, ErrorView> {
    let s = trimmed(stdout);
    match parsed(s, u64::MAX as nat) {
        Some(n) => Ok(n as u64),
        None => Err(
            ErrorView::Command {
                command: "blockdev --getsize64"@,
                exit_code: 0,
                stderr: "non-numeric size "@ + quoted_text(s) + ": "@ + number_fault(
                    s,
                    u64::MAX as nat,
                ).text(),
            },
        ),
    }
}

/// Reads the size of a device.
pub fn device_size_bytes(stdout: &str) -> (r: Result<u64, Error>)
    ensures
        outcome(r) == device_size(stdout@),
{
    let s = trim(stdout);
    match parse_max(s, u64::MAX) {
        Ok(n) => Ok(n),
        Err(f) => {
            let shown = quoted(s);
            let why = f.message();
            Err(
                Error::Command {
                    command: "blockdev --getsize64".to_owned(),
                    exit_code: 0,
                    stderr: "non-numeric size ".to_owned().concat(shown.as_str()).concat(
                        ": ",
                    ).concat(why.as_str()),
                },
            )
        },
    }
}

/// The size of a device in sectors.
pub fn device_sectors(stdout: &str) -> (r: Result<u64, Error>)
    ensures
        outcome(r) == (match device_size(stdout@) {
            Ok(n) => Ok::<u64, ErrorView>((n / SECTOR_SIZE) as u64),
            Err(e) => Err(e),
        }),
{
    match device_size_bytes(stdout) {
        Ok(n) => Ok(n / SECTOR_SIZE),
        Err(e) => Err(e),
    }
}

/// The error for sizes that could not be recorded.
pub open spec fn unrecorded(layer_config: VdoConfig, config_path: Seq<char>, e: ErrorView) -> ErrorView {
    ErrorView::Config(
        "the VDO volume was grown to "@ + dec(layer_config.physical_size as nat) + " physical / "@
            + dec(layer_config.logical_size as nat) + " logical, but "@ + config_path
            + " could not be updated: "@ + error_text(e)
            + ". Set those two values under \"vdo\" by hand, or the pool will not activate again."@,
    )
}

/// The error for metadata that the check found broken.
pub open spec fn broken_metadata(device: Seq<char>, e: ErrorView) -> ErrorView {
    ErrorView::Command {
        command: "thin_check"@,
        exit_code: 1,
        stderr: "metadata device "@ + device
            + " failed thin_check; run thin_repair manually: "@ + error_text(e),
    }
}

/// The error for metadata that the check found broken.
pub fn metadata_check_error(device: &str, e: &Error) -> (r: Error)
    ensures
        r@ == broken_metadata(device@, e@),
{
    let cause = e.to_string();
    Error::Command {
        command: "thin_check".to_owned(),
        exit_code: 1,
        stderr: "metadata device ".to_owned().concat(device).concat(
            " failed thin_check; run thin_repair manually: ",
        ).concat(cause.as_str()),
    }
}

/// What was found of a pool that is to be taken down.
#[derive(Debug)]
pub struct DeinitProbe {
    /// The devices of images.
    pub image_devices: Vec<String>,
    /// The devices of machines.
    pub vm_devices: Vec<String>,
    pub pool_exists: bool,
    pub layer_exists: bool,
    pub metadata_attached: bool,
    pub data_attached: bool,
    pub metadata_is_file: bool,
    pub data_is_file: bool,
    pub storage_is_dir: bool,
}

/// The steps that deactivate devices.
pub open spec fn deactivations(names: Seq<Seq<char>>) -> Seq<StepView<PoolActionView>> {
    names.map_values(|n: Seq<char>| may(PoolActionView::Deactivate(n)))
}

fn then_deactivate(steps: Vec<Step<PoolAction>>, names: &Vec<String>) -> (r: Vec<Step<PoolAction>>)
    ensures
        plan(r@) == plan(steps@) + deactivations(texts(names@)),
{
    let ghost before = plan(steps@);
    let ghost all = deactivations(texts(names@));
    let mut steps = steps;
    let mut i: usize = 0;
    assert(before =~= before + all.take(0));
    while i < names.len()
        invariant
            i <= names.len(),
            all == deactivations(texts(names@)),
            plan(steps@) == before + all.take(i as int),
        decreases names.len() - i,
    {
        steps = then_may(steps, PoolAction::Deactivate(names[i].clone()));
        assert(texts(names@)[i as int] == names@[i as int]@);
        assert(all.take(i + 1) =~= all.take(i as int).push(all[i as int]));
        assert(plan(steps@) =~= before + all.take(i + 1));
        i = i + 1;
    }
    assert(all.take(i as int) =~= all);
    steps
}

/// A step, when it is wanted.
pub open spec fn when<V>(wanted: bool, step: StepView<V>) -> Seq<StepView<V>> {
    if wanted {
        seq![step]
    } else {
        seq![]
    }
}

/// How the devices of a pool are taken down.
pub open spec fn teardown_plan(s: DmThinStorage, probe: DeinitProbe) -> Seq<
    StepView<PoolActionView>,
> {
    let paths = init_paths(s.storage_path@, s.state_dir@, s.mode);
    deactivations(texts(probe.image_devices@)) + deactivations(texts(probe.vm_devices@)) + when(
        probe.pool_exists,
        must(PoolActionView::RemoveDevice(s.pool_name@)),
    ) + when(probe.layer_exists, must(PoolActionView::RemoveDevice(s.vdo_name@))) + when(
        probe.metadata_attached,
        may(PoolActionView::Detach(paths.0)),
    ) + when(probe.data_attached, may(PoolActionView::Detach(paths.1)))
}

/// How the files of a pool are removed.
pub open spec fn purge_plan(s: DmThinStorage, probe: DeinitProbe) -> Seq<
    StepView<PoolActionView>,
> {
    let paths = init_paths(s.storage_path@, s.state_dir@, s.mode);
    when(probe.metadata_is_file, may(PoolActionView::RemoveFile(paths.0))) + when(
        probe.data_is_file,
        may(PoolActionView::RemoveFile(paths.1)),
    ) + when(probe.storage_is_dir, may(PoolActionView::RemoveDir(s.storage_path@)))
}

fn then_must_if(wanted: bool, steps: Vec<Step<PoolAction>>, action: PoolAction) -> (r: Vec<
    Step<PoolAction>,
>)
    ensures
        plan(r@) == plan(steps@) + when(wanted, must(action@)),
{
    let ghost before = plan(steps@);
    if wanted {
        let r = then_must(steps, action);
        assert(plan(r@) =~= before + when(wanted, must(action@)));
        r
    } else {
        assert(before =~= before + when(wanted, must(action@)));
        steps
    }
}

fn then_may_if(wanted: bool, steps: Vec<Step<PoolAction>>, action: PoolAction) -> (r: Vec<
    Step<PoolAction>,
>)
    ensures
        plan(r@) == plan(steps@) + when(wanted, may(action@)),
{
    let ghost before = plan(steps@);
    if wanted {
        let r = then_may(steps, action);
        assert(plan(r@) =~= before + when(wanted, may(action@)));
        r
    } else {
        assert(before =~= before + when(wanted, may(action@)));
        steps
    }
}

/// Whether `s` is the pool of an installation, where its path was found to be a
/// directory or not, and to be there or not.
pub open spec fn made_from(
    s: DmThinStorage,
    config: GlobalConfig,
    path_is_dir: bool,
    path_exists: bool,
) -> bool {
    let ns = namespace(config.instance_id@);
    &&& s.storage_path@ == match config.storage_path {
        Some(p) => p@,
        None => default_storage_path(),
    }
    &&& s.state_dir@ == config.state_dir@
    &&& s.mode == match config.dm_thin_mode {
        Some(m) => m,
        None => probed_mode(path_is_dir, path_exists),
    }
    &&& s.block_size_sectors == block_sectors(config.dm_thin_block_size)
    &&& s.pool_name@ == pool_name_of(ns)
    &&& s.image_prefix@ == image_prefix_of(ns)
    &&& s.vm_prefix@ == vm_prefix_of(ns)
    &&& s.vdo == config.vdo
    &&& s.vdo_name@ == name_of(ns)
}

impl DmThinStorage {
    /// The pool of an installation. The two flags say what is at the place
    /// where it lies.
    pub fn new(config: &GlobalConfig, path_is_dir: bool, path_exists: bool) -> (r: DmThinStorage)
        ensures
            made_from(r, *config, path_is_dir, path_exists),
    {
        let storage_path = match &config.storage_path {
            Some(p) => p.clone(),
            None => "/var/lib/ember/dm-thin".to_owned(),
        };
        let mode = match config.dm_thin_mode {
            Some(m) => m,
            None => probe_mode(path_is_dir, path_exists),
        };
        let ns = config.instance_namespace();
        DmThinStorage {
            storage_path,
            state_dir: config.state_dir.clone(),
            mode,
            block_size_sectors: match config.dm_thin_block_size {
                Some(n) => n,
                None => DEFAULT_BLOCK_SIZE_SECTORS,
            },
            pool_name: pool_name(ns),
            image_prefix: thin::image_prefix(ns),
            vm_prefix: thin::vm_prefix(ns),
            vdo: config.vdo,
            vdo_name: vdo::name(ns),
        }
    }

    /// What the compression layer is made of.
    pub fn vdo_params(&self, config: VdoConfig) -> (r: Params)
        ensures
            r == layer(config, self.block_size_sectors),
    {
        vdo_params(config, self.block_size_sectors)
    }

    /// The error for sizes of the compression layer that could not be recorded.
    pub fn persist_vdo_config(&self, layer_config: VdoConfig, config_path: &str, e: &Error) -> (r:
        Error)
        ensures
            r@ == unrecorded(layer_config, config_path@, e@),
    {
        let physical = decimal(layer_config.physical_size);
        let logical = decimal(layer_config.logical_size);
        let cause = e.to_string();
        Error::Config(
            "the VDO volume was grown to ".to_owned().concat(physical.as_str()).concat(
                " physical / ",
            ).concat(logical.as_str()).concat(" logical, but ").concat(config_path).concat(
                " could not be updated: ",
            ).concat(cause.as_str()).concat(
                ". Set those two values under \"vdo\" by hand, or the pool will not activate again.",
            ),
        )
    }

    /// The file that holds the metadata.
    pub fn metadata_file(&self) -> (r: String)
        ensures
            r@ == init_paths(self.storage_path@, self.state_dir@, self.mode).0,
    {
        let (m, _) = resolve_init_paths(
            self.storage_path.as_str(),
            self.state_dir.as_str(),
            self.mode,
        );
        m
    }

    /// The file or device that holds the data.
    pub fn data_file(&self) -> (r: String)
        ensures
            r@ == init_paths(self.storage_path@, self.state_dir@, self.mode).1,
    {
        let (_, d) = resolve_init_paths(
            self.storage_path.as_str(),
            self.state_dir.as_str(),
            self.mode,
        );
        d
    }

    /// How the device below the pool is brought up.
    pub open spec fn data_device_plan(self, layer_active: bool) -> Seq<StepView<PoolActionView>> {
        let data = init_paths(self.storage_path@, self.state_dir@, self.mode).1;
        seq![must(PoolActionView::AttachData(data))] + (match self.vdo {
            None => seq![],
            Some(v) => when(!layer_active, must(PoolActionView::EnsureLayerTarget)) + when(
                !layer_active,
                must(
                    PoolActionView::ActivateLayer(
                        self.vdo_name@,
                        layer(v, self.block_size_sectors),
                    ),
                ),
            ) + seq![
                must(PoolActionView::WaitFor(device_path_of(self.vdo_name@))),
                must(PoolActionView::AssertReadWrite),
            ],
        })
    }

    /// How the device below the pool is brought up, given whether the
    /// compression layer is active.
    pub fn ensure_data_device(&self, steps: Vec<Step<PoolAction>>, layer_active: bool) -> (r: Vec<
        Step<PoolAction>,
    >)
        ensures
            plan(r@) == plan(steps@) + self.data_device_plan(layer_active),
    {
        let ghost before = plan(steps@);
        let mut steps = then_must(steps, PoolAction::AttachData(self.data_file()));
        match self.vdo {
            None => {},
            Some(v) => {
                if !layer_active {
                    steps = then_must(steps, PoolAction::EnsureLayerTarget);
                    steps = then_must(
                        steps,
                        PoolAction::ActivateLayer(self.vdo_name.clone(), self.vdo_params(v)),
                    );
                }
                steps = then_must(
                    steps,
                    PoolAction::WaitFor(vdo::device_path(self.vdo_name.as_str())),
                );
                steps = then_must(steps, PoolAction::AssertReadWrite);
            },
        }
        assert(plan(steps@) =~= before + self.data_device_plan(layer_active));
        steps
    }

    /// How the pool is activated, given what is active already.
    pub open spec fn activation(self, pool_active: bool, layer_active: bool) -> Seq<
        StepView<PoolActionView>,
    > {
        if pool_active {
            seq![]
        } else {
            let meta = init_paths(self.storage_path@, self.state_dir@, self.mode).0;
            seq![
                must(PoolActionView::EnsurePoolTarget),
                must(PoolActionView::AttachMetadata(meta)),
            ] + self.data_device_plan(layer_active) + seq![
                must(PoolActionView::CheckMetadata(meta)),
                must(PoolActionView::CreatePool(self.pool_name@, self.block_size_sectors)),
            ]
        }
    }

    /// How the pool is activated, given what is active already.
    pub fn ensure_pool_active(&self, pool_active: bool, layer_active: bool) -> (r: Vec<
        Step<PoolAction>,
    >)
        ensures
            plan(r@) == self.activation(pool_active, layer_active),
    {
        if pool_active {
            return no_steps();
        }
        let steps = then_must(no_steps(), PoolAction::EnsurePoolTarget);
        let steps = then_must(steps, PoolAction::AttachMetadata(self.metadata_file()));
        let ghost head = plan(steps@);
        let steps = self.ensure_data_device(steps, layer_active);
        let steps = then_must(steps, PoolAction::CheckMetadata(self.metadata_file()));
        let steps = then_must(
            steps,
            PoolAction::CreatePool(self.pool_name.clone(), self.block_size_sectors),
        );
        let ghost meta = init_paths(self.storage_path@, self.state_dir@, self.mode).0;
        assert(head =~= seq![
            must(PoolActionView::EnsurePoolTarget),
            must(PoolActionView::AttachMetadata(meta)),
        ]);
        assert(plan(steps@) =~= head + self.data_device_plan(layer_active) + seq![
            must(PoolActionView::CheckMetadata(meta)),
            must(PoolActionView::CreatePool(self.pool_name@, self.block_size_sectors)),
        ]);
        steps
    }

    /// What activates a volume, unless it is active, and where it shows.
    pub fn ensure_thin_active(&self, dm_name: &str, thin_id: u64, size_sectors: u64, active: bool) -> (r:
        (Option<Invocation>, String))
        ensures
            r.0 is None <==> active,
            r.0 matches Some(i) ==> i@ == thin::activate_call(
                dm_name@,
                self.pool_name@,
                thin_id as nat,
                size_sectors as nat,
            ),
            r.1@ == device_path_of(dm_name@),
    {
        let path = thin::device_path(dm_name);
        if active {
            (None, path)
        } else {
            (
                Some(thin::activate(dm_name, self.pool_name.as_str(), thin_id, size_sectors)),
                path,
            )
        }
    }

    /// The id of the volume of a machine.
    pub fn require_vm_thin_id(vm: &VmMetadata) -> (r: Result<u64, Error>)
        ensures
            outcome(r) == (match vm.thin_id {
                Some(id) => Ok::<u64, ErrorView>(id),
                None => Err(no_vm_id(vm.name@)),
            }),
    {
        match vm.thin_id {
            Some(id) => Ok(id),
            None => Err(
                Error::Vm(
                    "vm '".to_owned().concat(vm.name.as_str()).concat(
                        "' has no dm-thin id recorded — was the pool re-initialized?",
                    ),
                ),
            ),
        }
    }

    /// The id of the volume of an image.
    pub fn require_image_thin_id(image: &ImageEntry) -> (r: Result<u64, Error>)
        ensures
            outcome(r) == (match image.thin_id {
                Some(id) => Ok::<u64, ErrorView>(id),
                None => Err(no_image_id(image.local_name@)),
            }),
    {
        match image.thin_id {
            Some(id) => Ok(id),
            None => Err(
                Error::Image(
                    "image '".to_owned().concat(image.local_name.as_str()).concat(
                        "' has no dm-thin id recorded — was the pool re-initialized?",
                    ),
                ),
            ),
        }
    }

    /// The warnings on the compression layer, and whether the pool may take more data.
    /// There are warnings whenever the layer itself may, whatever becomes of the pool.
    /// `layer_status` is the state of the layer, where there is one.
    pub fn assert_pool_healthy(
        &self,
        layer_status: Option<VdoStatus>,
        status: &PoolStatus,
    ) -> (r: (Vec<String>, Result<(), Error>))
        requires
            layer_status matches Some(st) ==> (st.mode != VdoMode::ReadOnly && (
            st.fullness().at_least(REFUSE_FULL as nat) || st.fullness().at_least(WARN_FULL as nat))
                ==> st.in_bytes()),
        ensures
            texts(r.0@) == (match layer_status {
                Some(st) => if health(self.vdo_name@, st) is Ok {
                    vdo::full_warning(self.vdo_name@, st) + vdo::recovery_warning(
                        self.vdo_name@,
                        st,
                    ) + vdo::compression_warning(self.vdo_name@, st)
                } else {
                    seq![]
                },
                None => seq![],
            }),
            outcome(r.1) == (match layer_status {
                Some(st) => if health(self.vdo_name@, st) is Err {
                    health(self.vdo_name@, st)
                } else {
                    pool_verdict(self.pool_name@, *status)
                },
                None => pool_verdict(self.pool_name@, *status),
            }),
    {
        let mut warnings: Vec<String> = crate::command::nothing();
        match layer_status {
            Some(st) => {
                match vdo::assert_healthy(self.vdo_name.as_str(), &st) {
                    Ok(()) => {},
                    Err(e) => {
                        return (warnings, Err(e));
                    },
                }
                warnings = vdo::warnings(self.vdo_name.as_str(), &st);
            },
            None => {},
        }
        (warnings, check_pool(self.pool_name.as_str(), status))
    }

    /// The name of the device of a machine.
    pub open spec fn machine_device(self, vm: Seq<char>) -> Seq<char> {
        self.vm_prefix@ + sanitized(vm)
    }

    /// The name of the device of an image.
    pub open spec fn image_device(self, name: Seq<char>) -> Seq<char> {
        self.image_prefix@ + sanitized(name)
    }

    /// How an image is written to the pool.
    pub open spec fn image_making(self, name: Seq<char>, size_mib: u64) -> Seq<
        StepView<PoolActionView>,
    > {
        let staging = self.image_prefix@ + sanitized(name) + "-staging"@;
        let sectors = (size_mib * 2048) as u64;
        seq![
            must(PoolActionView::EnsurePool),
            must(PoolActionView::AssertHealthy),
            may(PoolActionView::DeactivateIfThere(staging)),
            must(PoolActionView::AllocateStaging),
            must_or(
                PoolActionView::ActivateNew(staging, sectors),
                seq![PoolActionView::DeleteStaging],
            ),
            must_or(
                PoolActionView::WriteImage(staging),
                seq![PoolActionView::Deactivate(staging), PoolActionView::DeleteStaging],
            ),
            must_or(
                PoolActionView::Suspend(staging),
                seq![PoolActionView::Deactivate(staging), PoolActionView::DeleteStaging],
            ),
            must_or(
                PoolActionView::SnapshotStaging,
                seq![
                    PoolActionView::Resume(staging),
                    PoolActionView::Deactivate(staging),
                    PoolActionView::DeleteStaging,
                ],
            ),
            may(PoolActionView::Resume(staging)),
            may(PoolActionView::Deactivate(staging)),
            may(PoolActionView::DeleteStaging),
        ]
    }

    /// How the disk of a machine is made from an image.
    pub open spec fn image_cloning(self, image: ImageEntry, vm: Seq<char>) -> Seq<
        StepView<PoolActionView>,
    > {
        self.clone_plan(
            match image.thin_id {
                Some(id) => Ok(id),
                None => Err(no_image_id(image.local_name@)),
            },
            self.machine_device(vm),
            (image.size_mib * 2048) as u64,
        )
    }

    /// How the disk of a machine is made from that of another.
    pub open spec fn machine_copying(self, source: VmMetadata, target: Seq<char>) -> Seq<
        StepView<PoolActionView>,
    > {
        self.clone_plan(
            match source.thin_id {
                Some(id) => Ok(id),
                None => Err(no_vm_id(source.name@)),
            },
            self.machine_device(target),
            disk_sectors(source.disk_size_gib) as u64,
        )
    }

    /// How the disk of a machine is made larger.
    pub open spec fn growing(self, vm: VmMetadata, bytes: u64) -> Seq<StepView<PoolActionView>> {
        seq![must(PoolActionView::EnsurePool), must(PoolActionView::AssertHealthy)] + (
        match vm.thin_id {
            None => seq![must(PoolActionView::Refuse(no_vm_id(vm.name@)))],
            Some(id) => {
                let dm = self.machine_device(vm.name@);
                seq![
                    must(
                        PoolActionView::EnsureActive(
                            dm,
                            id,
                            disk_sectors(vm.disk_size_gib) as u64,
                        ),
                    ),
                    must(PoolActionView::ReloadSize(dm, id, bytes / SECTOR_SIZE)),
                    must(PoolActionView::WaitFor(device_path_of(dm))),
                    must(PoolActionView::CheckFilesystem(device_path_of(dm))),
                    must(PoolActionView::GrowFilesystem(device_path_of(dm))),
                ]
            },
        })
    }

    /// How the disk of a machine is brought up.
    pub open spec fn showing(self, vm: VmMetadata) -> Seq<StepView<PoolActionView>> {
        seq![must(PoolActionView::EnsurePool)] + when(
            self.vdo is Some,
            must(PoolActionView::AssertReadWrite),
        ) + (match vm.thin_id {
            None => seq![must(PoolActionView::Refuse(no_vm_id(vm.name@)))],
            Some(id) => seq![
                must(
                    PoolActionView::EnsureActive(
                        self.machine_device(vm.name@),
                        id,
                        disk_sectors(vm.disk_size_gib) as u64,
                    ),
                ),
            ],
        })
    }

    /// How a device gets another name.
    pub open spec fn renaming(self, from: Seq<char>, to: Seq<char>) -> Seq<
        StepView<PoolActionView>,
    > {
        seq![must(PoolActionView::EnsurePool), must(PoolActionView::RenameIfThere(from, to))]
    }

    /// How an image is written to the pool: to a volume of its own, of which a
    /// snapshot is kept. What was made is deleted again when a step fails, and
    /// the volume that was written to is deleted in any case. The volume lies
    /// at the path that comes with the steps, under the id of the snapshot.
    pub fn create_image_volume(&self, name: &str, size_mib: u64) -> (r: (
        Vec<Step<PoolAction>>,
        String,
    ))
        requires
            size_mib * 0x10_0000 <= u64::MAX,
        ensures
            plan(r.0@) == self.image_making(name@, size_mib),
            r.1@ == device_path_of(self.image_prefix@ + sanitized(name@)),
    {
        let staging = thin::staging_dm_name(self.image_prefix.as_str(), name);
        let dm = thin::dm_name(self.image_prefix.as_str(), name);
        let sectors: u64 = size_mib * 0x10_0000 / SECTOR_SIZE;
        assert(sectors == size_mib * 2048);
        let undo_activate = and(no_actions(), PoolAction::DeleteStaging);
        let undo_write = and(
            and(no_actions(), PoolAction::Deactivate(staging.clone())),
            PoolAction::DeleteStaging,
        );
        let undo_suspend = and(
            and(no_actions(), PoolAction::Deactivate(staging.clone())),
            PoolAction::DeleteStaging,
        );
        let undo_snap = and(
            and(
                and(no_actions(), PoolAction::Resume(staging.clone())),
                PoolAction::Deactivate(staging.clone()),
            ),
            PoolAction::DeleteStaging,
        );
        assert(views(undo_activate@) =~= seq![PoolActionView::DeleteStaging]);
        assert(views(undo_write@) =~= seq![
            PoolActionView::Deactivate(staging@),
            PoolActionView::DeleteStaging,
        ]);
        assert(views(undo_suspend@) =~= seq![
            PoolActionView::Deactivate(staging@),
            PoolActionView::DeleteStaging,
        ]);
        assert(views(undo_snap@) =~= seq![
            PoolActionView::Resume(staging@),
            PoolActionView::Deactivate(staging@),
            PoolActionView::DeleteStaging,
        ]);
        let steps = then_must(no_steps(), PoolAction::EnsurePool);
        let steps = then_must(steps, PoolAction::AssertHealthy);
        let steps = then_may(steps, PoolAction::DeactivateIfThere(staging.clone()));
        let steps = then_must(steps, PoolAction::AllocateStaging);
        let steps = then_must_undo(
            steps,
            PoolAction::ActivateNew(staging.clone(), sectors),
            undo_activate,
        );
        let steps = then_must_undo(steps, PoolAction::WriteImage(staging.clone()), undo_write);
        let steps = then_must_undo(steps, PoolAction::Suspend(staging.clone()), undo_suspend);
        let steps = then_must_undo(steps, PoolAction::SnapshotStaging, undo_snap);
        let steps = then_may(steps, PoolAction::Resume(staging.clone()));
        let steps = then_may(steps, PoolAction::Deactivate(staging.clone()));
        let steps = then_may(steps, PoolAction::DeleteStaging);
        (steps, thin::device_path(dm.as_str()))
    }

    /// How a volume becomes the disk of a machine: a snapshot of it is made and
    /// activated, and deleted again when that fails.
    pub open spec fn clone_plan(self, source: Result<u64, ErrorView>, dm: Seq<char>, sectors: u64) -> Seq<
        StepView<PoolActionView>,
    > {
        seq![must(PoolActionView::EnsurePool), must(PoolActionView::AssertHealthy)] + (match source {
            Err(e) => seq![must(PoolActionView::Refuse(e))],
            Ok(id) => seq![
                must(PoolActionView::SnapshotOf(id)),
                must_or(
                    PoolActionView::ActivateNew(dm, sectors),
                    seq![PoolActionView::DeleteNew],
                ),
            ],
        })
    }

    fn clone_steps(&self, source: Result<u64, Error>, dm: &str, sectors: u64) -> (r: Vec<
        Step<PoolAction>,
    >)
        ensures
            plan(r@) == self.clone_plan(outcome(source), dm@, sectors),
    {
        let steps = then_must(no_steps(), PoolAction::EnsurePool);
        let steps = then_must(steps, PoolAction::AssertHealthy);
        let ghost so = outcome(source);
        let steps = match source {
            Err(e) => then_must(steps, PoolAction::Refuse(e)),
            Ok(id) => {
                let steps = then_must(steps, PoolAction::SnapshotOf(id));
                then_must_undo(
                    steps,
                    PoolAction::ActivateNew(dm.to_owned(), sectors),
                    and(no_actions(), PoolAction::DeleteNew),
                )
            },
        };
        assert(plan(steps@) =~= self.clone_plan(so, dm@, sectors));
        steps
    }

    /// How the disk of a machine is made from an image.
    pub fn clone_for_vm(&self, image: &ImageEntry, vm_name: &str) -> (r: Vec<Step<PoolAction>>)
        requires
            image.size_mib * 0x10_0000 <= u64::MAX,
        ensures
            plan(r@) == self.image_cloning(*image, vm_name@),
    {
        let dm = thin::dm_name(self.vm_prefix.as_str(), vm_name);
        let sectors: u64 = image.size_mib * 0x10_0000 / SECTOR_SIZE;
        assert(sectors == image.size_mib * 2048);
        self.clone_steps(DmThinStorage::require_image_thin_id(image), dm.as_str(), sectors)
    }

    /// How the disk of a machine is made from that of another.
    pub fn clone_vm_storage(&self, source: &VmMetadata, target_vm: &str) -> (r: Vec<
        Step<PoolAction>,
    >)
        ensures
            plan(r@) == self.machine_copying(*source, target_vm@),
    {
        let dm = thin::dm_name(self.vm_prefix.as_str(), target_vm);
        self.clone_steps(
            DmThinStorage::require_vm_thin_id(source),
            dm.as_str(),
            DmThinStorage::vm_size_sectors(source),
        )
    }

    /// How the disk of a machine is made larger, with the file system on it.
    pub fn resize(&self, vm: &VmMetadata, new_size: ByteSize) -> (r: Vec<Step<PoolAction>>)
        ensures
            plan(r@) == self.growing(*vm, new_size.bytes()),
    {
        let steps = then_must(no_steps(), PoolAction::EnsurePool);
        let steps = then_must(steps, PoolAction::AssertHealthy);
        match DmThinStorage::require_vm_thin_id(vm) {
            Err(e) => then_must(steps, PoolAction::Refuse(e)),
            Ok(id) => {
                let dm = thin::dm_name(self.vm_prefix.as_str(), vm.name.as_str());
                let sectors: u64 = new_size.bytes() / SECTOR_SIZE;
                let steps = then_must(
                    steps,
                    PoolAction::EnsureActive(dm.clone(), id, DmThinStorage::vm_size_sectors(vm)),
                );
                let steps = then_must(steps, PoolAction::ReloadSize(dm.clone(), id, sectors));
                let steps = then_must(steps, PoolAction::WaitFor(thin::device_path(dm.as_str())));
                let steps = then_must(
                    steps,
                    PoolAction::CheckFilesystem(thin::device_path(dm.as_str())),
                );
                then_must(steps, PoolAction::GrowFilesystem(thin::device_path(dm.as_str())))
            },
        }
    }

    /// How a volume is destroyed. Nothing of it can fail.
    pub open spec fn destroy_plan(self, dm: Seq<char>, thin_id: Option<u64>) -> Seq<
        StepView<PoolActionView>,
    > {
        seq![may(PoolActionView::EnsurePool), may(PoolActionView::DeactivateIfThere(dm))] + (
        match thin_id {
            Some(id) => seq![may(PoolActionView::Delete(id))],
            None => seq![],
        })
    }

    fn destroy_steps(&self, dm: String, thin_id: Option<u64>) -> (r: Vec<Step<PoolAction>>)
        ensures
            plan(r@) == self.destroy_plan(dm@, thin_id),
    {
        let steps = then_may(no_steps(), PoolAction::EnsurePool);
        let steps = then_may(steps, PoolAction::DeactivateIfThere(dm));
        let steps = match thin_id {
            Some(id) => then_may(steps, PoolAction::Delete(id)),
            None => steps,
        };
        assert(plan(steps@) =~= self.destroy_plan(dm@, thin_id));
        steps
    }

    /// How the disk of a machine is destroyed.
    pub fn destroy_vm_storage(&self, vm: &VmMetadata) -> (r: Vec<Step<PoolAction>>)
        ensures
            plan(r@) == self.destroy_plan(self.machine_device(vm.name@), vm.thin_id),
    {
        self.destroy_steps(
            thin::dm_name(self.vm_prefix.as_str(), vm.name.as_str()),
            vm.thin_id,
        )
    }

    /// How the volume of an image is destroyed.
    pub fn destroy_image_storage(&self, image: &ImageEntry) -> (r: Vec<Step<PoolAction>>)
        ensures
            plan(r@) == self.destroy_plan(self.image_device(image.local_name@), image.thin_id),
    {
        self.destroy_steps(
            thin::dm_name(self.image_prefix.as_str(), image.local_name.as_str()),
            image.thin_id,
        )
    }

    /// How the disk of a machine is brought up, and where it shows.
    pub fn disk_device_path(&self, vm: &VmMetadata) -> (r: (Vec<Step<PoolAction>>, String))
        ensures
            plan(r.0@) == self.showing(*vm),
            r.1@ == device_path_of(self.machine_device(vm.name@)),
    {
        let dm = thin::dm_name(self.vm_prefix.as_str(), vm.name.as_str());
        let path = thin::device_path(dm.as_str());
        let mut steps = then_must(no_steps(), PoolAction::EnsurePool);
        if self.vdo.is_some() {
            steps = then_must(steps, PoolAction::AssertReadWrite);
        }
        match DmThinStorage::require_vm_thin_id(vm) {
            Err(e) => {
                steps = then_must(steps, PoolAction::Refuse(e));
            },
            Ok(id) => {
                steps = then_must(
                    steps,
                    PoolAction::EnsureActive(dm, id, DmThinStorage::vm_size_sectors(vm)),
                );
            },
        }
        (steps, path)
    }

    /// How the disk of a machine gets another name, and what it is then.
    pub fn rename_vm_storage(&self, vm: &VmMetadata, new_name: &str) -> (r: (
        Vec<Step<PoolAction>>,
        VolumeHandle,
    ))
        ensures
            plan(r.0@) == self.renaming(
                self.machine_device(vm.name@),
                self.machine_device(new_name@),
            ),
            r.1.disk_path@ == device_path_of(self.machine_device(new_name@)),
            r.1.thin_id == vm.thin_id,
    {
        let old_dm = thin::dm_name(self.vm_prefix.as_str(), vm.name.as_str());
        let new_dm = thin::dm_name(self.vm_prefix.as_str(), new_name);
        let disk_path = thin::device_path(new_dm.as_str());
        let steps = then_must(no_steps(), PoolAction::EnsurePool);
        let steps = then_must(steps, PoolAction::RenameIfThere(old_dm, new_dm));
        (steps, VolumeHandle { disk_path, thin_id: vm.thin_id })
    }

    /// How the volume of an image gets another name, and what it is then.
    pub fn rename_image_storage(&self, image: &ImageEntry, new_local_name: &str) -> (r: (
        Vec<Step<PoolAction>>,
        VolumeHandle,
    ))
        ensures
            plan(r.0@) == self.renaming(
                self.image_device(image.local_name@),
                self.image_device(new_local_name@),
            ),
            r.1.disk_path@ == device_path_of(self.image_device(new_local_name@)),
            r.1.thin_id == image.thin_id,
    {
        let old_dm = thin::dm_name(self.image_prefix.as_str(), image.local_name.as_str());
        let new_dm = thin::dm_name(self.image_prefix.as_str(), new_local_name);
        let disk_path = thin::device_path(new_dm.as_str());
        let steps = then_must(no_steps(), PoolAction::EnsurePool);
        let steps = then_must(steps, PoolAction::RenameIfThere(old_dm, new_dm));
        (steps, VolumeHandle { disk_path, thin_id: image.thin_id })
    }

    /// What is in use. `status` is the state of the pool, `None` when it is not
    /// active; `rows` are its volumes, `None` when the metadata is not attached.
    pub fn usage(
        &self,
        status: Option<PoolStatus>,
        layer_stats: Option<VdoStats>,
        rows: Option<Vec<ThinRow>>,
        vms: &[VmMetadata],
        images: &[ImageEntry],
    ) -> (r: Result<StorageUsage, Error>)
        requires
            status matches Some(st) ==> pool_in_bytes(
                st,
                (self.block_size_sectors * SECTOR_SIZE) as u64,
            ),
            layer_stats matches Some(v) ==> v.in_bytes(),
            images_in_bytes(images@),
        ensures
            match r {
                Err(e) => if status is None {
                    e@ == ErrorView::Pool(
                        "dm-thin pool '"@ + self.pool_name@
                            + "' is not active, so its usage cannot be measured. Any command that touches storage will activate it."@,
                    )
                } else {
                    rows is None && e@ == ErrorView::Config(
                        "metadata device "@ + init_paths(
                            self.storage_path@,
                            self.state_dir@,
                            self.mode,
                        ).0 + " is not attached to a loop device"@,
                    )
                },
                Ok(u) => {
                    &&& status is Some
                    &&& rows is Some
                    &&& u.pool == pool_usage_of(
                        status->0,
                        (self.block_size_sectors * SECTOR_SIZE) as u64,
                        layer_stats,
                    )
                    &&& u.vms.in_order()
                    &&& u.vms@ == vms_joined(vms@, rows->0@)
                    &&& u.images.in_order()
                    &&& u.images@ == images_joined(images@, rows->0@)
                },
            },
            r is Ok <==> status is Some && rows is Some,
    {
        let st = match status {
            Some(st) => st,
            None => {
                return Err(
                    Error::Pool(
                        "dm-thin pool '".to_owned().concat(self.pool_name.as_str()).concat(
                            "' is not active, so its usage cannot be measured. Any command that touches storage will activate it.",
                        ),
                    ),
                );
            },
        };
        let block_bytes: u64 = self.block_size_sectors as u64 * SECTOR_SIZE;
        let by_id = match rows {
            Some(v) => v,
            None => {
                return Err(self.unattached_metadata());
            },
        };
        let pool = match layer_stats {
            Some(v) => pool_usage(&st, block_bytes, Some(&v)),
            None => pool_usage(&st, block_bytes, None),
        };
        Ok(
            StorageUsage {
                pool,
                vms: join_vms(vms, by_id.as_slice()),
                images: join_images(images, by_id.as_slice()),
            },
        )
    }

    fn unattached_metadata(&self) -> (r: Error)
        ensures
            r@ == ErrorView::Config(
                "metadata device "@ + init_paths(
                    self.storage_path@,
                    self.state_dir@,
                    self.mode,
                ).0 + " is not attached to a loop device"@,
            ),
    {
        let m = self.metadata_file();
        Error::Config(
            "metadata device ".to_owned().concat(m.as_str()).concat(
                " is not attached to a loop device",
            ),
        )
    }

    /// How the pool is taken down; with `purge`, its files as well.
    pub fn deinit(&self, purge: bool, probe: &DeinitProbe) -> (r: Vec<Step<PoolAction>>)
        ensures
            plan(r@) == teardown_plan(*self, *probe) + (if purge {
                purge_plan(*self, *probe)
            } else {
                seq![]
            }),
    {
        let steps: Vec<Step<PoolAction>> = no_steps();
        let ghost images = deactivations(texts(probe.image_devices@));
        assert(plan(steps@) + images =~= images);
        let steps = then_deactivate(steps, &probe.image_devices);
        let steps = then_deactivate(steps, &probe.vm_devices);
        let steps = then_must_if(
            probe.pool_exists,
            steps,
            PoolAction::RemoveDevice(self.pool_name.clone()),
        );
        let steps = then_must_if(
            probe.layer_exists,
            steps,
            PoolAction::RemoveDevice(self.vdo_name.clone()),
        );
        let steps = then_may_if(
            probe.metadata_attached,
            steps,
            PoolAction::Detach(self.metadata_file()),
        );
        let steps = then_may_if(
            probe.data_attached,
            steps,
            PoolAction::Detach(self.data_file()),
        );
        let ghost down = plan(steps@);
        assert(down == teardown_plan(*self, *probe));
        if !purge {
            assert(down =~= down + seq![]);
            return steps;
        }
        let steps = then_may_if(
            probe.metadata_is_file,
            steps,
            PoolAction::RemoveFile(self.metadata_file()),
        );
        let steps = then_may_if(
            probe.data_is_file,
            steps,
            PoolAction::RemoveFile(self.data_file()),
        );
        let steps = then_may_if(
            probe.storage_is_dir,
            steps,
            PoolAction::RemoveDir(self.storage_path.clone()),
        );
        assert(plan(steps@) =~= down + purge_plan(*self, *probe));
        steps
    }

    /// How a pool grows to what a plan says.
    pub open spec fn growth_plan(self, p: GrowPlan) -> Seq<StepView<PoolActionView>> {
        let data = init_paths(self.storage_path@, self.state_dir@, self.mode).1;
        when(p.resize_backing, must(PoolActionView::SparseFile(data, p.physical_size))) + when(
            p.resize_backing,
            must(PoolActionView::RefreshLoop(data)),
        ) + (match p.vdo {
            None => seq![
                must(
                    PoolActionView::ReloadPool(
                        self.pool_name@,
                        Some(p.physical_size / SECTOR_SIZE),
                    ),
                ),
            ],
            Some(v) => seq![
                must(
                    PoolActionView::ReloadLayer(self.vdo_name@, layer(v, self.block_size_sectors)),
                ),
                must(PoolActionView::RecordLayer(v)),
                must(PoolActionView::ReloadPool(self.pool_name@, None)),
            ],
        })
    }

    /// How the pool grows as asked, or why it cannot. `backing_size` is the size
    /// of the device that its data lies on, `None` when that is a file without a
    /// loop device; `metadata_attached` says whether the metadata has one.
    pub fn grow(
        &self,
        request: &GrowRequest,
        status: &PoolStatus,
        metadata_attached: bool,
        backing_is_file: bool,
        backing_size: Option<u64>,
    ) -> (r: Result<(GrowPlan, Vec<Step<PoolAction>>), Error>)
        requires
            status.total_data_blocks * (self.block_size_sectors * SECTOR_SIZE) <= u64::MAX,
        ensures
            ({
                let data = init_paths(self.storage_path@, self.state_dir@, self.mode).1;
                let ctx = GrowContext {
                    vdo: self.vdo,
                    backing_is_file,
                    backing_size: backing_size->0,
                    pool_capacity: (status.total_data_blocks * (self.block_size_sectors
                        * SECTOR_SIZE)) as u64,
                };
                let planned = grow_plan(*request, ctx);
                match r {
                    Err(e) => if !metadata_attached {
                        e@ == ErrorView::Config(
                            "metadata device "@ + init_paths(
                                self.storage_path@,
                                self.state_dir@,
                                self.mode,
                            ).0 + " is not attached to a loop device"@,
                        )
                    } else if backing_size is None {
                        e@ == ErrorView::Config(
                            "data device "@ + data + " is not attached to a loop device"@,
                        )
                    } else {
                        match planned {
                            Err(x) => e@ == x,
                            Ok(p) => self.vdo is Some && growth_verdict(
                                layer(self.vdo->0, self.block_size_sectors),
                                layer(p.vdo->0, self.block_size_sectors),
                            ) == Err::<(), ErrorView>(e@),
                        }
                    },
                    Ok((p, steps)) => {
                        &&& metadata_attached
                        &&& backing_size is Some
                        &&& planned == Ok::<GrowPlan, ErrorView>(p)
                        &&& self.vdo is Some ==> growth_verdict(
                            layer(self.vdo->0, self.block_size_sectors),
                            layer(p.vdo->0, self.block_size_sectors),
                        ) is Ok
                        &&& plan(steps@) == self.growth_plan(p)
                    },
                }
            }),
    {
        if !metadata_attached {
            return Err(self.unattached_metadata());
        }
        let backing: u64 = match backing_size {
            Some(n) => n,
            None => {
                let d = self.data_file();
                return Err(
                    Error::Config(
                        "data device ".to_owned().concat(d.as_str()).concat(
                            " is not attached to a loop device",
                        ),
                    ),
                );
            },
        };
        let block_bytes: u64 = self.block_size_sectors as u64 * SECTOR_SIZE;
        let ctx = GrowContext {
            vdo: self.vdo,
            backing_is_file,
            backing_size: backing,
            pool_capacity: status.total_data_blocks * block_bytes,
        };
        let p = match plan_grow(request, &ctx) {
            Ok(p) => p,
            Err(e) => {
                return Err(e);
            },
        };
        match (self.vdo, p.vdo) {
            (Some(was), Some(will)) => {
                match vdo::check_growth(&self.vdo_params(was), &self.vdo_params(will)) {
                    Ok(()) => {},
                    Err(e) => {
                        return Err(e);
                    },
                }
            },
            _ => {},
        }
        let mut steps: Vec<Step<PoolAction>> = no_steps();
        if p.resize_backing {
            steps = then_must(steps, PoolAction::SparseFile(self.data_file(), p.physical_size));
            steps = then_must(steps, PoolAction::RefreshLoop(self.data_file()));
        }
        match p.vdo {
            None => {
                let sectors: u64 = p.physical_size / SECTOR_SIZE;
                steps = then_must(
                    steps,
                    PoolAction::ReloadPool(self.pool_name.clone(), Some(sectors)),
                );
            },
            Some(v) => {
                steps = then_must(
                    steps,
                    PoolAction::ReloadLayer(self.vdo_name.clone(), self.vdo_params(v)),
                );
                steps = then_must(steps, PoolAction::RecordLayer(v));
                steps = then_must(steps, PoolAction::ReloadPool(self.pool_name.clone(), None));
            },
        }
        assert(plan(steps@) =~= self.growth_plan(p));
        Ok((p, steps))
    }
}

/// A disk that could not be brought up leaves no volume behind in the pool.
pub proof fn law_failed_clone_leaves_nothing(
    s: DmThinStorage,
    id: u64,
    dm: Seq<char>,
    sectors: u64,
    i: int,
    j: int,
)
    requires
        0 <= i < j < s.clone_plan(Ok(id), dm, sectors).len(),
        s.clone_plan(Ok(id), dm, sectors)[i].action == PoolActionView::SnapshotOf(id),
    ensures
        s.clone_plan(Ok(id), dm, sectors)[j].undo.contains(PoolActionView::DeleteNew),
{
    let p = s.clone_plan(Ok(id), dm, sectors);
    assert(p[3].undo[0] == PoolActionView::DeleteNew);
}

/// Whatever of a volume cannot be destroyed, the rest is.
pub proof fn law_destroying_goes_on(s: DmThinStorage, dm: Seq<char>, thin_id: Option<u64>, i: int)
    requires
        0 <= i < s.destroy_plan(dm, thin_id).len(),
    ensures
        s.destroy_plan(dm, thin_id)[i].tolerate,
{
}

/// The sizes of a compression layer are recorded once it has them, and before the
/// pool makes use of them.
pub proof fn law_growth_is_recorded_before_use(s: DmThinStorage, p: GrowPlan, i: int, j: int, k: int)
    requires
        p.vdo is Some,
        0 <= i < s.growth_plan(p).len(),
        0 <= j < s.growth_plan(p).len(),
        0 <= k < s.growth_plan(p).len(),
        s.growth_plan(p)[i].action is ReloadLayer,
        s.growth_plan(p)[j].action is RecordLayer,
        s.growth_plan(p)[k].action is ReloadPool,
    ensures
        i < j < k,
{
}

/// A pool that could not be put together is taken down again, down to the loop
/// device of its metadata; a file for its data goes if it was made for that.
pub proof fn law_failed_setup_is_undone(
    pool: Seq<char>,
    vdo_name: Seq<char>,
    metadata_path: Seq<char>,
    data_path: Seq<char>,
    layer_config: Option<VdoConfig>,
    block_size_sectors: u32,
    data_is_file: bool,
    created: bool,
    i: int,
)
    requires
        0 <= i < stack_steps(
            pool,
            vdo_name,
            data_path,
            layer_config,
            block_size_sectors,
            unwinding(vdo_name, metadata_path, data_path, data_is_file, created),
        ).len(),
    ensures
        ({
            let step = stack_steps(
                pool,
                vdo_name,
                data_path,
                layer_config,
                block_size_sectors,
                unwinding(vdo_name, metadata_path, data_path, data_is_file, created),
            )[i];
            &&& !step.tolerate
            &&& step.undo.last() == PoolActionView::Detach(metadata_path)
            &&& step.undo.contains(PoolActionView::RemoveFile(data_path)) <==> data_is_file
                && created
        }),
{
    let u = unwinding(vdo_name, metadata_path, data_path, data_is_file, created);
    if data_is_file && created {
        assert(u[2] == PoolActionView::RemoveFile(data_path));
    }
}

/// What the user is told of a pool that was set up.
pub fn active_text(layout: &InitLayout, sizes: InitSizes) -> (r: String)
    ensures
        r@ == "dm-thin pool '"@ + layout.pool_name@ + "' active ("@ + size_for_people(sizes.addressable as nat) + " data capacity, "@ + size_for_people(
            (layout.block_size_sectors * SECTOR_SIZE) as nat,
        )
            + " block size)."@,
{
    let capacity = format_bytes(sizes.addressable);
    let block = format_bytes(layout.block_size_sectors as u64 * SECTOR_SIZE);
    "dm-thin pool '".to_owned().concat(layout.pool_name.as_str()).concat("' active (").concat(
        capacity.as_str(),
    ).concat(" data capacity, ").concat(block.as_str()).concat(" block size).")
}

/// What the user is told of a compression layer that was set up.
pub fn layer_text(vdo_name: &str, config: VdoConfig, block_size_sectors: u32) -> (r: String)
    ensures
        r@ == "VDO volume '"@ + vdo_name@ + "' active: "@ + size_for_people(
            config.physical_size as nat,
        ) + " physical, "@ + size_for_people(config.logical_size as nat)
            + " addressable, compression on, deduplication "@ + (if config.deduplication {
            "on"@
        } else {
            "off"@
        }) + ". Expect it to want around "@ + size_for_people(
            vdo::ram_estimate(
                layer(config, block_size_sectors),
                IndexMemory(vdo::index_quarters(config.physical_size as nat) as u32),
            ),
        ) + " of RAM."@,
{
    let index = IndexMemory::for_physical_size(config.physical_size);
    let params = vdo_params(config, block_size_sectors);
    let physical = format_bytes(config.physical_size);
    let logical = format_bytes(config.logical_size);
    let memory = format_bytes(vdo::ram_estimate_bytes(&params, index));
    let dedup: &str = if config.deduplication { "on" } else { "off" };
    "VDO volume '".to_owned().concat(vdo_name).concat("' active: ").concat(
        physical.as_str(),
    ).concat(" physical, ").concat(logical.as_str()).concat(
        " addressable, compression on, deduplication ",
    ).concat(dedup).concat(". Expect it to want around ").concat(memory.as_str()).concat(
        " of RAM.",
    )
}

/// What the user is told of a pool that was taken down.
pub fn torn_down_text(pool_name: &str) -> (r: String)
    ensures
        r@ == "dm-thin pool '"@ + pool_name@ + "' torn down."@,
{
    "dm-thin pool '".to_owned().concat(pool_name).concat("' torn down.")
}

/// What the user is told of a compression layer that has grown.
pub fn grown_layer_text(vdo_name: &str, new: &VdoConfig) -> (r: String)
    ensures
        r@ == "Grew VDO volume '"@ + vdo_name@ + "' to "@ + size_for_people(
            new.physical_size as nat,
        )
            + " physical, "@ + size_for_people(new.logical_size as nat) + " addressable."@,
{
    let physical = format_bytes(new.physical_size);
    let logical = format_bytes(new.logical_size);
    "Grew VDO volume '".to_owned().concat(vdo_name).concat("' to ").concat(
        physical.as_str(),
    ).concat(" physical, ").concat(logical.as_str()).concat(" addressable.")
}

/// What the user is told of a pool that has grown.
pub fn grown_text(data_sectors: u64) -> (r: String)
    requires
        data_sectors * SECTOR_SIZE <= u64::MAX,
    ensures
        r@ == "Grew dm-thin pool data capacity to "@ + size_for_people(
            (data_sectors * SECTOR_SIZE) as nat,
        ) + "."@,
{
    let capacity = format_bytes(data_sectors * SECTOR_SIZE);
    "Grew dm-thin pool data capacity to ".to_owned().concat(capacity.as_str()).concat(".")
}

/// The error for a pool that cannot be set up at all: it is not said where, the
/// kernel cannot do it, or it is not said how.
pub open spec fn init_refusal(config: InitConfig, targets: Seq<char>) -> Option<ErrorView> {
    if config.storage_path is None {
        Some(ErrorView::Config("dm-thin requires --storage-path (directory or block device)"@))
    } else if !crate::dm::provides(targets, "thin-pool"@) {
        Some(no_pool_target())
    } else if config.dm_thin_mode is None {
        Some(ErrorView::Config("dm-thin requires a resolved layout mode in InitConfig"@))
    } else {
        None
    }
}

/// How a pool is set up.
pub open spec fn init_plan(
    config: InitConfig,
    probe: InitProbe,
    sizes: InitSizes,
    metadata_size_bytes: u64,
) -> Seq<StepView<PoolActionView>> {
    let paths = init_paths(config.storage_path->0@, config.state_dir@, config.dm_thin_mode->0);
    let vdo_name = name_of(Some(config.instance_id@));
    file_steps(paths.0, paths.1, probe, sizes.pool_size, metadata_size_bytes) + stack_steps(
        pool_name_of(Some(config.instance_id@)),
        vdo_name,
        paths.1,
        config.vdo,
        block_sectors(config.dm_thin_block_size),
        unwinding(
            vdo_name,
            paths.0,
            paths.1,
            probe.data_is_file || !probe.data_exists,
            !probe.data_exists,
        ),
    )
}

/// The size of the metadata, or why it cannot be told: the tool is asked for its
/// recommendation only when no size was given.
pub open spec fn metadata_verdict(
    requested: Option<ByteSize>,
    recommended: Result<u64, ErrorView>,
) -> Result<u64, ErrorView> {
    match (requested, recommended) {
        (Some(size), _) => Ok(size.bytes()),
        (None, Ok(n)) => Ok(metadata_bytes(None, n)),
        (None, Err(e)) => Err(e),
    }
}

/// How a pool is set up, with what the user is told once it is, or why it cannot
/// be.
pub open spec fn setting_up(
    config: InitConfig,
    probe: InitProbe,
    recommended: Result<u64, ErrorView>,
) -> Result<(Seq<StepView<PoolActionView>>, Seq<char>), ErrorView> {
    let mode = config.dm_thin_mode->0;
    let paths = init_paths(config.storage_path->0@, config.state_dir@, mode);
    let sizes = init_sizes_of(config, mode, paths.1, probe);
    let metadata = metadata_verdict(config.dm_thin_metadata_size, recommended);
    if init_refusal(config, probe.targets@) is Some {
        Err(init_refusal(config, probe.targets@)->0)
    } else if sizes is Err {
        Err(sizes->Err_0)
    } else if metadata is Err {
        Err(metadata->Err_0)
    } else {
        Ok(
            (
                init_plan(config, probe, sizes->Ok_0, metadata->Ok_0),
                "dm-thin pool '"@ + pool_name_of(Some(config.instance_id@)) + "' active ("@
                    + size_for_people(sizes->Ok_0.addressable as nat) + " data capacity, "@
                    + size_for_people(
                    (block_sectors(config.dm_thin_block_size) * SECTOR_SIZE) as nat,
                ) + " block size)."@,
            ),
        )
    }
}

impl DmThinStorage {
    /// The machines whose volumes depend on that of another: none, since a copy in a
    /// pool stands on its own.
    pub fn storage_dependents() -> (r: Vec<String>)
        ensures
            r@.len() == 0,
    {
        Vec::new()
    }
}

impl DmThinStorage {
    /// How a pool is set up, with what the user is told once it is, or why it
    /// cannot be. `probe` is what was found at the places that [`init_layout`]
    /// names, and `recommended` what the tool recommends for the metadata.
    pub fn init(config: &InitConfig, probe: &InitProbe, recommended: Result<u64, Error>) -> (r:
        Result<(Vec<Step<PoolAction>>, String), Error>)
        ensures
            match (r, setting_up(*config, *probe, outcome(recommended))) {
                (Ok((steps, text)), Ok((p, t))) => plan(steps@) == p && text@ == t,
                (Err(e), Err(why)) => e@ == why,
                _ => false,
            },
    {
        let layout = match init_layout(config, probe.targets.as_str()) {
            Ok(l) => l,
            Err(e) => {
                return Err(e);
            },
        };
        let sizes = match init_sizes(config, &layout, probe) {
            Ok(s) => s,
            Err(e) => {
                return Err(e);
            },
        };
        let metadata: u64 = match config.dm_thin_metadata_size {
            Some(size) => size.bytes(),
            None => match recommended {
                Ok(n) => metadata_size(None, n),
                Err(e) => {
                    return Err(e);
                },
            },
        };
        let steps = init_steps(config, &layout, probe, sizes, metadata);
        let text = active_text(&layout, sizes);
        Ok((steps, text))
    }
}

/// An image is written from its file to the device, and is on it once the call is done; of
/// metadata the first block and nothing else is wiped; and a file gets the size it is told
/// in bytes.
pub proof fn law_calls_write_where_they_should(
    image: Seq<char>,
    device: Seq<char>,
    metadata: Seq<char>,
    bytes: u64,
)
    ensures
        ({
            let w = write_call(image, device);
            &&& w.program == "dd"@
            &&& w.args.contains("if="@ + image) && w.args.contains("of="@ + device)
            &&& w.args.contains("conv=fsync"@)
        }),
        ({
            let z = zero_head_call(metadata);
            &&& z.program == "dd"@
            &&& z.args.contains("if=/dev/zero"@) && z.args.contains("of="@ + metadata)
            &&& z.args.contains("bs=4K"@) && z.args.contains("count=1"@) && z.args.contains(
                "conv=notrunc"@,
            )
        }),
        ({
            let t = sparse_call(metadata, bytes);
            &&& t.program == "truncate"@ && t.args.len() == 3 && t.args[0] == "-s"@
            &&& parsed(t.args[1], u64::MAX as nat) == Some(bytes as nat)
            &&& t.args[2] == metadata
        }),
{
    let w = write_call(image, device).args;
    assert(w[0] == "if="@ + image && w[1] == "of="@ + device && w[3] == "conv=fsync"@);
    let z = zero_head_call(metadata).args;
    assert(z[0] == "if=/dev/zero"@ && z[1] == "of="@ + metadata && z[2] == "bs=4K"@ && z[3]
        == "count=1"@ && z[4] == "conv=notrunc"@);
    lemma_dec_parsed(bytes as nat, u64::MAX as nat);
}

/// What is told of a pool adds up: what is in use is no more than there is. Over a
/// compression layer the space is that of the layer, what the layer keeps for itself is
/// part of what is in use, and the pool tells what was handed out before compression.
pub proof fn law_usage_of_a_pool(st: PoolStatus, block_bytes: u64, layer_stats: Option<VdoStats>)
    requires
        pool_in_bytes(st, block_bytes),
        layer_stats matches Some(v) ==> v.in_bytes(),
        st.used_data_blocks <= st.total_data_blocks,
        st.used_metadata_blocks <= st.total_metadata_blocks,
        layer_stats matches Some(v) ==> v.data_blocks + v.overhead_blocks <= v.physical_blocks,
    ensures
        ({
            let u = pool_usage_of(st, block_bytes, layer_stats);
            &&& u.allocated <= u.capacity
            &&& u.reserved <= u.allocated
            &&& u.metadata is Some
            &&& u.metadata->0.used == st.used_metadata_blocks * 4096
            &&& u.metadata->0.capacity == st.total_metadata_blocks * 4096
            &&& layer_stats is None ==> {
                &&& u.capacity == st.total_data_blocks * block_bytes
                &&& u.allocated == st.used_data_blocks * block_bytes
                &&& u.logical is None && u.reserved == 0
            }
            &&& layer_stats matches Some(v) ==> {
                &&& u.capacity == v.physical_blocks * 4096
                &&& u.allocated - u.reserved == v.data_blocks * 4096
                &&& u.logical == Some((st.used_data_blocks * block_bytes) as u64)
                &&& u.addressable == Some((st.total_data_blocks * block_bytes) as u64)
            }
        }),
{
    assert(st.used_data_blocks * block_bytes <= st.total_data_blocks * block_bytes)
        by (nonlinear_arith)
        requires
            st.used_data_blocks <= st.total_data_blocks,
    ;
}

/// Whether no two machines have the same name.
pub open spec fn names_differ(vms: Seq<VmMetadata>) -> bool {
    forall|i: int, j: int|
        0 <= i < j < vms.len() ==> (#[trigger] vms[i]).name@ != (#[trigger] vms[j]).name@
}

/// Every machine whose volume the pool lists is told of under its name, with its size and
/// with what that volume holds; and no other.
pub proof fn law_every_machine_is_accounted_for(
    vms: Seq<VmMetadata>,
    rows: Seq<ThinRow>,
    i: int,
)
    requires
        names_differ(vms),
        0 <= i < vms.len(),
    ensures
        ({
            let m = vms_joined(vms, rows);
            let row = row_with_id(rows, vms[i].thin_id->0);
            if vms[i].thin_id is Some && row is Some {
                &&& m.contains_key(vms[i].name@)
                &&& m[vms[i].name@].provisioned == vms[i].disk_size_gib * 0x4000_0000
                &&& m[vms[i].name@].exclusive == row->0.exclusive_bytes
                &&& m[vms[i].name@].referenced == Some(row->0.mapped_bytes)
                &&& rows.contains(row->0) && row->0.dev_id == vms[i].thin_id->0
            } else {
                !m.contains_key(vms[i].name@)
            }
        }),
        forall|n: Seq<char>| #[trigger]
            vms_joined(vms, rows).contains_key(n) ==> exists|k: int|
                0 <= k < vms.len() && (#[trigger] vms[k]).name@ == n,
    decreases vms.len(),
{
    let before = vms.drop_last();
    lemma_row_found(rows, vms[i].thin_id->0);
    lemma_joined_names(vms, rows);
    if i < vms.len() - 1 {
        assert(names_differ(before)) by {
            assert forall|a: int, b: int| 0 <= a < b < before.len() implies (
            #[trigger] before[a]).name@ != (#[trigger] before[b]).name@ by {
                assert(vms[a].name@ != vms[b].name@);
            }
        }
        law_every_machine_is_accounted_for(before, rows, i);
        assert(before[i] == vms[i]);
        assert(vms[i].name@ != vms[vms.len() - 1].name@);
    } else {
        lemma_joined_names(before, rows);
        if vms_joined(before, rows).contains_key(vms[i].name@) {
            let k = choose|k: int|
                0 <= k < before.len() && (#[trigger] before[k]).name@ == vms[i].name@;
            assert(vms[k].name@ == vms[i].name@);
        }
    }
}

proof fn lemma_joined_names(vms: Seq<VmMetadata>, rows: Seq<ThinRow>)
    ensures
        forall|n: Seq<char>| #[trigger]
            vms_joined(vms, rows).contains_key(n) ==> exists|k: int|
                0 <= k < vms.len() && (#[trigger] vms[k]).name@ == n,
    decreases vms.len(),
{
    if vms.len() > 0 {
        let before = vms.drop_last();
        lemma_joined_names(before, rows);
        assert forall|n: Seq<char>| #[trigger] vms_joined(vms, rows).contains_key(n) implies exists|
            k: int,
        |
            0 <= k < vms.len() && (#[trigger] vms[k]).name@ == n by {
            if vms_joined(before, rows).contains_key(n) {
                let k = choose|k: int| 0 <= k < before.len() && (#[trigger] before[k]).name@ == n;
                assert(vms[k].name@ == n);
            } else {
                assert(vms[vms.len() - 1].name@ == n);
            }
        }
    }
}

proof fn lemma_row_found(rows: Seq<ThinRow>, id: u64)
    ensures
        row_with_id(rows, id) matches Some(r) ==> rows.contains(r) && r.dev_id == id,
    decreases rows.len(),
{
    if rows.len() > 0 {
        lemma_row_found(rows.skip(1), id);
        if rows[0].dev_id != id {
            match row_with_id(rows.skip(1), id) {
                Some(r) => {
                    let k = choose|k: int| 0 <= k < rows.skip(1).len() && rows.skip(1)[k] == r;
                    assert(rows[k + 1] == r);
                },
                None => {},
            }
        } else {
            assert(rows[0] == rows[0]);
        }
    }
}

} // verus!
