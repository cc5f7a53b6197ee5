//! Setting an installation up.

use vstd::prelude::*;
use vstd::string::*;

use crate::backend::InitConfig;
use crate::config::{
    derive_instance_id, instance_id_of, DmThinMode, GlobalConfig, StorageKind, VdoConfig,
};
use crate::dm_thin_storage::{
    block_sectors, default_storage_path, made_from, pool_size, pool_size_at_init, probe_mode,
    probed_mode, DmThinStorage,
};
use crate::error::{answer, error_text, outcome, Error, ErrorView};
use crate::procedure::{must, no_steps, plan, then_must, Step, StepView};
use crate::size::ByteSize;
use crate::text::{
    chars_of, copy_text, dec, decimal, is_hex, lowered, opt_text, quoted,
    quoted_text, to_lower,
};
use crate::thin_stack::names_of;
use crate::vdo::{align_down, check_logical_size, logical_verdict, whole_blocks};
use crate::zfs::storage::{datasets, datasets_of, LinuxStorage};

verus! {

/// What an installation is to be.
#[derive(Debug)]
pub struct InitArgs {
    pub storage: StorageKind,
    pub pool: String,
    pub device: Option<String>,
    pub dataset: String,
    pub storage_path: Option<String>,
    pub size: Option<ByteSize>,
    pub metadata_size: Option<ByteSize>,
    pub block_size: Option<ByteSize>,
    pub vdo: bool,
    pub vdo_logical_size: Option<ByteSize>,
    pub vdo_dedup: bool,
    pub kernel: Option<String>,
    pub wan_iface: Option<String>,
    pub instance_id: Option<String>,
    pub ip_subnet: Option<String>,
}

/// The sectors of a block of a pool: a multiple of 64 KiB, and 128 unless asked
/// for otherwise.
pub open spec fn block_size_sectors(user: Option<ByteSize>) -> Result<u32, Seq<char>> {
    match user {
        None => Ok(128),
        Some(size) => {
            let bytes = size.bytes();
            if bytes < 65536 || bytes % 65536 != 0 {
                Err(
                    "--block-size must be at least 64K and a multiple of 64K (got "@ + dec(
                        bytes as nat,
                    ) + " bytes)"@,
                )
            } else if bytes / 512 > u32::MAX {
                Err("--block-size "@ + dec(bytes as nat) + " bytes overflows u32 sectors"@)
            } else {
                Ok((bytes / 512) as u32)
            }
        },
    }
}

/// The sectors of a block of a pool.
pub fn resolve_dm_thin_block_size_sectors(user: Option<ByteSize>) -> (r: Result<u32, String>)
    ensures
        answer(r) == block_size_sectors(user),
{
    let bytes: u64 = match user {
        None => {
            return Ok(128);
        },
        Some(size) => size.bytes(),
    };
    let text = decimal(bytes);
    if bytes < 65536 || bytes % 65536 != 0 {
        return Err(
            "--block-size must be at least 64K and a multiple of 64K (got ".to_owned().concat(
                text.as_str(),
            ).concat(" bytes)"),
        );
    }
    let sectors: u64 = bytes / 512;
    if sectors > u32::MAX as u64 {
        return Err(
            "--block-size ".to_owned().concat(text.as_str()).concat(
                " bytes overflows u32 sectors",
            ),
        );
    }
    Ok(sectors as u32)
}

/// The compression layer that was asked for, or why there cannot be one: as
/// large as the pool, and handing out what was asked for, or else no more than
/// that.
pub open spec fn layer_of(
    args: InitArgs,
    has_path: bool,
    mode: Option<DmThinMode>,
    device_size: Result<u64, ErrorView>,
) -> Result<Option<VdoConfig>, Seq<char>> {
    if !args.vdo {
        Ok(None)
    } else if !has_path || mode is None {
        Err("--vdo requires --storage dm-thin"@)
    } else {
        match pool_size(args.size, mode->0, device_size) {
            Err(e) => Err(error_text(e)),
            Ok(bytes) => {
                let physical = whole_blocks(bytes as nat);
                let logical = match args.vdo_logical_size {
                    Some(s) => whole_blocks(s.bytes() as nat),
                    None => physical,
                };
                match logical_verdict(logical) {
                    Err(e) => Err(error_text(e)),
                    Ok(()) => Ok(
                        Some(
                            VdoConfig {
                                physical_size: physical as u64,
                                logical_size: logical as u64,
                                deduplication: args.vdo_dedup,
                            },
                        ),
                    ),
                }
            },
        }
    }
}

/// The compression layer that was asked for on a platform that has none.
pub fn resolve_vdo_elsewhere(args: &InitArgs) -> (r: Result<Option<VdoConfig>, String>)
    ensures
        answer(r) == (if args.vdo {
            Err::<Option<VdoConfig>, Seq<char>>(
                "--vdo is a Linux dm-thin feature and is not available on this platform"@,
            )
        } else {
            Ok(None)
        }),
{
    if args.vdo {
        Err("--vdo is a Linux dm-thin feature and is not available on this platform".to_owned())
    } else {
        Ok(None)
    }
}

/// The compression layer that was asked for, or why there cannot be one.
/// `device_size` is what the size of the data device was found to be.
pub fn resolve_vdo(
    args: &InitArgs,
    storage_path: Option<&str>,
    mode: Option<DmThinMode>,
    device_size: Result<u64, Error>,
) -> (r: Result<Option<VdoConfig>, String>)
    ensures
        answer(r) == layer_of(*args, storage_path is Some, mode, outcome(device_size)),
{
    if !args.vdo {
        return Ok(None);
    }
    let mode = match (storage_path, mode) {
        (Some(_), Some(m)) => m,
        _ => {
            return Err("--vdo requires --storage dm-thin".to_owned());
        },
    };
    let bytes: u64 = match pool_size_at_init(mode, args.size, device_size) {
        Ok(n) => n,
        Err(e) => {
            return Err(e.to_string());
        },
    };
    let physical_size: u64 = align_down(bytes);
    let logical_size: u64 = match args.vdo_logical_size {
        Some(s) => align_down(s.bytes()),
        None => physical_size,
    };
    match check_logical_size(logical_size) {
        Ok(()) => {},
        Err(e) => {
            return Err(e.to_string());
        },
    }
    Ok(Some(VdoConfig { physical_size, logical_size, deduplication: args.vdo_dedup }))
}

/// Whether a text is made of four small hexadecimal digits.
pub open spec fn is_instance_id(s: Seq<char>) -> bool {
    s.len() == 4 && forall|i: int| 0 <= i < s.len() ==> is_hex(#[trigger] s[i])
}

/// Reads an instance id: four hexadecimal digits, small or capital.
pub fn parse_instance_id(s: &str) -> (r: Result<String, String>)
    ensures
        match r {
            Ok(id) => is_instance_id(lowered(s@)) && id@ == lowered(s@),
            Err(e) => !is_instance_id(lowered(s@)) && e@
                == "--instance-id must be exactly 4 hex chars (got "@ + quoted_text(s@) + ")"@,
        },
{
    let lower = to_lower(s);
    let v = chars_of(lower.as_str());
    let mut good = v.len() == 4;
    let mut i: usize = 0;
    while i < v.len()
        invariant
            i <= v.len(),
            v@ == lower@,
            good == (v@.len() == 4 && forall|k: int| 0 <= k < i ==> is_hex(#[trigger] v@[k])),
        decreases v.len() - i,
    {
        let c = v[i];
        if !((c >= '0' && c <= '9') || (c >= 'a' && c <= 'f')) {
            assert(!is_hex(v@[i as int]));
            good = false;
        }
        i = i + 1;
    }
    if !good {
        let shown = quoted(s);
        return Err(
            "--instance-id must be exactly 4 hex chars (got ".to_owned().concat(
                shown.as_str(),
            ).concat(")"),
        );
    }
    Ok(lower)
}

/// Reading an instance id a second time changes nothing.
pub proof fn law_instance_id_is_settled(s: Seq<char>)
    requires
        is_instance_id(lowered(s)),
    ensures
        lowered(lowered(s)) == lowered(s),
{
    let l = lowered(s);
    assert forall|i: int| 0 <= i < l.len() implies lowered(l)[i] == l[i] by {
        assert(is_hex(l[i]));
    }
    assert(lowered(l) =~= l);
}

/// The error for a configuration that is there and cannot be read.
pub fn unreadable_config(config_path: &str, why: &str) -> (r: String)
    ensures
        r@ == config_path@ + " exists but could not be read: "@ + why@
            + ". Refusing to initialize over it, because that would destroy any pool it describes. Fix or remove the file, or run 'ember deinit'."@,
{
    config_path.to_owned().concat(" exists but could not be read: ").concat(why).concat(
        ". Refusing to initialize over it, because that would destroy any pool it describes. Fix or remove the file, or run 'ember deinit'.",
    )
}

/// Why an installation that is there is not set up again.
pub open spec fn already_there(
    existing: GlobalConfig,
    args: InitArgs,
    config_path: Seq<char>,
) -> Seq<char> {
    if existing.storage_backend != args.storage {
        "ember is already initialized with the "@ + existing.storage_backend.spec_name()
            + " backend. Run 'ember deinit' first to switch to "@ + args.storage.spec_name() + "."@
    } else if (existing.vdo is Some) != args.vdo {
        "ember is already initialized "@ + (if existing.vdo is Some {
            "with"@
        } else {
            "without"@
        }) + " a compression layer. It cannot be "@ + (if args.vdo {
            "added to"@
        } else {
            "removed from"@
        })
            + " an existing pool without rewriting every block, so run 'ember deinit' first."@
    } else {
        "ember is already initialized at "@ + config_path
            + " — run 'ember deinit' first to reconfigure"@
    }
}

/// Refuses to set up an installation that is there.
pub fn check_existing(existing: Option<&GlobalConfig>, args: &InitArgs, config_path: &str) -> (r:
    Result<(), String>)
    ensures
        answer(r) == (match existing {
            Some(c) => Err::<(), Seq<char>>(already_there(*c, *args, config_path@)),
            None => Ok(()),
        }),
{
    match existing {
        None => Ok(()),
        Some(c) => {
            if c.storage_backend != args.storage {
                let was = c.storage_backend.name();
                let will = args.storage.name();
                return Err(
                    "ember is already initialized with the ".to_owned().concat(
                        was.as_str(),
                    ).concat(" backend. Run 'ember deinit' first to switch to ").concat(
                        will.as_str(),
                    ).concat("."),
                );
            }
            if c.vdo.is_some() != args.vdo {
                let has = if c.vdo.is_some() { "with" } else { "without" };
                let change = if args.vdo { "added to" } else { "removed from" };
                return Err(
                    "ember is already initialized ".to_owned().concat(has).concat(
                        " a compression layer. It cannot be ",
                    ).concat(change).concat(
                        " an existing pool without rewriting every block, so run 'ember deinit' first.",
                    ),
                );
            }
            Err(
                "ember is already initialized at ".to_owned().concat(config_path).concat(
                    " — run 'ember deinit' first to reconfigure",
                ),
            )
        },
    }
}

/// Where the storage of an installation lies, when it lies at a path.
pub open spec fn path_of(args: InitArgs) -> Option<Seq<char>> {
    match args.storage {
        StorageKind::DmThin => match args.storage_path {
            Some(p) => Some(p@),
            None => Some(default_storage_path()),
        },
        StorageKind::Btrfs => opt_text(args.storage_path),
        StorageKind::Zfs => None,
    }
}

/// Where the storage of an installation lies, when it lies at a path.
pub fn resolve_storage_path(args: &InitArgs) -> (r: Option<String>)
    ensures
        opt_text(r) == path_of(*args),
{
    match args.storage {
        StorageKind::DmThin => match &args.storage_path {
            Some(p) => Some(p.clone()),
            None => Some("/var/lib/ember/dm-thin".to_owned()),
        },
        StorageKind::Btrfs => copy_text(&args.storage_path),
        StorageKind::Zfs => None,
    }
}

/// What was found where an installation is to be set up.
#[derive(Debug)]
pub struct InitEnv {
    /// Whether the path of the storage is a directory.
    pub path_is_dir: bool,
    /// Whether there is anything at the path of the storage.
    pub path_exists: bool,
    /// What the size of the data device was found to be.
    pub device_size: Result<u64, Error>,
    /// The state directory, written out in full.
    pub canonical_state_dir: String,
}

/// What an installation will be.
#[derive(Debug)]
pub struct Settled {
    pub storage_path: Option<String>,
    pub dm_thin_block_size: Option<u32>,
    pub dm_thin_mode: Option<DmThinMode>,
    pub vdo: Option<VdoConfig>,
    pub instance_id: String,
}

/// A [`Settled`], its strings taken by their texts.
#[verifier::ext_equal]
pub struct SettledView {
    pub storage_path: Option<Seq<char>>,
    pub dm_thin_block_size: Option<u32>,
    pub dm_thin_mode: Option<DmThinMode>,
    pub vdo: Option<VdoConfig>,
    pub instance_id: Seq<char>,
}

impl View for Settled {
    type V = SettledView;

    open spec fn view(&self) -> SettledView {
        SettledView {
            storage_path: opt_text(self.storage_path),
            dm_thin_block_size: self.dm_thin_block_size,
            dm_thin_mode: self.dm_thin_mode,
            vdo: self.vdo,
            instance_id: self.instance_id@,
        }
    }
}

/// What a thin pool lies on; `None` for other storage.
pub open spec fn mode_of(args: InitArgs, env: InitEnv) -> Option<DmThinMode> {
    match args.storage {
        StorageKind::DmThin => Some(probed_mode(env.path_is_dir, env.path_exists)),
        _ => None,
    }
}

/// What an installation will be, or why it cannot be set up.
pub open spec fn settled_of(args: InitArgs, env: InitEnv) -> Result<SettledView, Seq<char>> {
    let block = block_size_sectors(args.block_size);
    let vdo = layer_of(
        args,
        path_of(args) is Some,
        mode_of(args, env),
        outcome(env.device_size),
    );
    if args.vdo && args.storage != StorageKind::DmThin {
        Err(
            "--vdo puts a compression layer under the dm-thin pool's data device, so it requires --storage dm-thin (got "@
                + args.storage.spec_name() + ")"@,
        )
    } else if args.storage == StorageKind::DmThin && block is Err {
        Err(block->Err_0)
    } else if vdo is Err {
        Err(vdo->Err_0)
    } else {
        Ok(
            SettledView {
                storage_path: path_of(args),
                dm_thin_block_size: if args.storage == StorageKind::DmThin {
                    Some(block->Ok_0)
                } else {
                    None
                },
                dm_thin_mode: mode_of(args, env),
                vdo: vdo->Ok_0,
                instance_id: match args.instance_id {
                    Some(id) => id@,
                    None => instance_id_of(env.canonical_state_dir@),
                },
            },
        )
    }
}

/// What an installation will be, or why it cannot be set up.
pub fn settle(args: &InitArgs, env: &InitEnv) -> (r: Result<Settled, String>)
    ensures
        match r {
            Ok(s) => settled_of(*args, *env) == Ok::<SettledView, Seq<char>>(s@),
            Err(e) => settled_of(*args, *env) == Err::<SettledView, Seq<char>>(e@),
        },
{
    if args.vdo && args.storage != StorageKind::DmThin {
        let name = args.storage.name();
        return Err(
            "--vdo puts a compression layer under the dm-thin pool's data device, so it requires --storage dm-thin (got ".to_owned().concat(
                name.as_str(),
            ).concat(")"),
        );
    }
    let storage_path = resolve_storage_path(args);
    let dm_thin_block_size = if args.storage == StorageKind::DmThin {
        match resolve_dm_thin_block_size_sectors(args.block_size) {
            Ok(n) => Some(n),
            Err(e) => {
                return Err(e);
            },
        }
    } else {
        None
    };
    let dm_thin_mode = match args.storage {
        StorageKind::DmThin => Some(probe_mode(env.path_is_dir, env.path_exists)),
        _ => None,
    };
    let device_size = match &env.device_size {
        Ok(n) => Ok(*n),
        Err(e) => Err(e.clone()),
    };
    let path = match &storage_path {
        Some(p) => Some(p.as_str()),
        None => None,
    };
    let vdo = match resolve_vdo(args, path, dm_thin_mode, device_size) {
        Ok(v) => v,
        Err(e) => {
            return Err(e);
        },
    };
    let instance_id = match &args.instance_id {
        Some(id) => id.clone(),
        None => derive_instance_id(env.canonical_state_dir.as_str()),
    };
    Ok(Settled { storage_path, dm_thin_block_size, dm_thin_mode, vdo, instance_id })
}

/// Whether the storage of an installation is set up from this.
pub open spec fn starts_from(
    r: InitConfig,
    args: InitArgs,
    state_dir: Seq<char>,
    settled: SettledView,
) -> bool {
    &&& r.storage_backend == args.storage
    &&& r.state_dir@ == state_dir
    &&& r.instance_id@ == settled.instance_id
    &&& r.pool@ == args.pool@
    &&& r.dataset@ == args.dataset@
    &&& opt_text(r.device) == opt_text(args.device)
    &&& opt_text(r.storage_path) == settled.storage_path
    &&& r.btrfs_size is None
    &&& r.dm_thin_size == args.size
    &&& r.dm_thin_metadata_size == args.metadata_size
    &&& r.dm_thin_block_size == settled.dm_thin_block_size
    &&& r.dm_thin_mode == settled.dm_thin_mode
    &&& r.vdo == settled.vdo
}

/// What the storage of an installation is set up from.
pub fn init_config(args: &InitArgs, state_dir: &str, settled: &Settled) -> (r: InitConfig)
    ensures
        starts_from(r, *args, state_dir@, settled@),
{
    InitConfig {
        storage_backend: args.storage,
        state_dir: state_dir.to_owned(),
        instance_id: settled.instance_id.clone(),
        pool: args.pool.clone(),
        dataset: args.dataset.clone(),
        device: copy_text(&args.device),
        storage_path: copy_text(&settled.storage_path),
        btrfs_size: None,
        dm_thin_size: args.size,
        dm_thin_metadata_size: args.metadata_size,
        dm_thin_block_size: settled.dm_thin_block_size,
        dm_thin_mode: settled.dm_thin_mode,
        vdo: settled.vdo,
    }
}

/// Whether this is the configuration of an installation.
pub open spec fn records(
    r: GlobalConfig,
    args: InitArgs,
    state_dir: Seq<char>,
    settled: SettledView,
    kernel_path: Option<String>,
    wan_iface: Option<String>,
    ip_subnet: String,
) -> bool {
    &&& r.storage_backend == args.storage
    &&& r.pool@ == args.pool@
    &&& r.dataset@ == args.dataset@
    &&& r.kernel_path == kernel_path
    &&& r.wan_iface == wan_iface
    &&& r.state_dir@ == state_dir
    &&& r.instance_id@ == settled.instance_id
    &&& r.ip_subnet == ip_subnet
    &&& opt_text(r.storage_path) == settled.storage_path
    &&& r.dm_thin_block_size == settled.dm_thin_block_size
    &&& r.dm_thin_mode == settled.dm_thin_mode
    &&& r.vdo == settled.vdo
    &&& r.cpu_weight is None
}

/// The configuration of an installation. The last three arguments were found out
/// while it was set up.
pub fn global_config(
    args: &InitArgs,
    state_dir: &str,
    settled: &Settled,
    kernel_path: Option<String>,
    wan_iface: Option<String>,
    ip_subnet: String,
) -> (r: GlobalConfig)
    ensures
        records(r, *args, state_dir@, settled@, kernel_path, wan_iface, ip_subnet),
{
    GlobalConfig {
        storage_backend: args.storage,
        pool: args.pool.clone(),
        dataset: args.dataset.clone(),
        kernel_path,
        wan_iface,
        state_dir: state_dir.to_owned(),
        instance_id: settled.instance_id.clone(),
        ip_subnet,
        storage_path: copy_text(&settled.storage_path),
        dm_thin_block_size: settled.dm_thin_block_size,
        dm_thin_mode: settled.dm_thin_mode,
        vdo: settled.vdo,
        cpu_weight: None,
    }
}

/// Without a size of its own, a compression layer hands out no more than it lies
/// on.
pub proof fn law_no_promise_beyond_the_device(
    args: InitArgs,
    has_path: bool,
    mode: Option<DmThinMode>,
    device_size: Result<u64, ErrorView>,
)
    requires
        args.vdo_logical_size is None,
    ensures
        layer_of(args, has_path, mode, device_size) matches Ok(Some(v)) ==> v.logical_size
            == v.physical_size,
{
}

/// What there is in place of a configuration before an installation is set up.
#[derive(Debug)]
pub enum Existing {
    /// Nothing.
    Absent,
    /// Something that cannot be read, and why.
    Unreadable(String),
    /// A configuration.
    There(GlobalConfig),
}

/// What an installation is set up with, or why none is. One that is there is
/// not touched, whatever else there is to say.
pub fn run(args: &InitArgs, existing: &Existing, config_path: &str, env: &InitEnv) -> (r: Result<
    Settled,
    String,
>)
    ensures
        match existing {
            Existing::Unreadable(why) => r is Err && r->Err_0@ == config_path@
                + " exists but could not be read: "@ + why@
                + ". Refusing to initialize over it, because that would destroy any pool it describes. Fix or remove the file, or run 'ember deinit'."@,
            Existing::There(c) => r is Err && r->Err_0@ == already_there(*c, *args, config_path@),
            Existing::Absent => match r {
                Ok(s) => settled_of(*args, *env) == Ok::<SettledView, Seq<char>>(s@),
                Err(e) => settled_of(*args, *env) == Err::<SettledView, Seq<char>>(e@),
            },
        },
{
    let found = match existing {
        Existing::Unreadable(why) => {
            return Err(unreadable_config(config_path, why.as_str()));
        },
        Existing::There(c) => Some(c),
        Existing::Absent => None,
    };
    match check_existing(found, args, config_path) {
        Err(e) => Err(e),
        Ok(()) => settle(args, env),
    }
}

/// Something to do to set up an installation.
#[derive(Debug, PartialEq)]
pub enum InitAction {
    /// Set up the storage, whatever is on it.
    InitStorage,
    /// Make the directories of the state.
    InitState,
    /// Tell the user.
    Say(String),
    /// Find or fetch this kernel.
    ResolveKernel(String),
    /// Find the interface to the outside.
    DetectWan,
    /// Record the configuration, unless there is one.
    CreateConfig,
}

/// An [`InitAction`], its strings taken by their texts.
#[verifier::ext_equal]
pub enum InitView {
    InitStorage,
    InitState,
    Say(Seq<char>),
    ResolveKernel(Seq<char>),
    DetectWan,
    CreateConfig,
}

impl View for InitAction {
    type V = InitView;

    open spec fn view(&self) -> InitView {
        match *self {
            InitAction::InitStorage => InitView::InitStorage,
            InitAction::InitState => InitView::InitState,
            InitAction::Say(t) => InitView::Say(t@),
            InitAction::ResolveKernel(k) => InitView::ResolveKernel(k@),
            InitAction::DetectWan => InitView::DetectWan,
            InitAction::CreateConfig => InitView::CreateConfig,
        }
    }
}

/// How an installation is set up.
pub open spec fn setting_up(
    kernel: Option<Seq<char>>,
    state_dir: Seq<char>,
    config_path: Seq<char>,
    instance_id: Seq<char>,
    ip_subnet: Seq<char>,
) -> Seq<StepView<InitView>> {
    seq![
        must(InitView::InitStorage),
        must(InitView::InitState),
        must(InitView::Say("State directory initialized at "@ + state_dir)),
        must(
            match kernel {
                Some(k) => InitView::ResolveKernel(k),
                None => InitView::Say(
                    "No --kernel provided; a default kernel will be downloaded on first 'vm create'."@,
                ),
            },
        ),
        must(InitView::DetectWan),
        must(InitView::CreateConfig),
        must(InitView::Say("Configuration written to "@ + config_path)),
        must(InitView::Say("Instance id: "@ + instance_id)),
        must(InitView::Say("VM IP subnet: "@ + ip_subnet)),
        must(InitView::Say("\nember initialized successfully."@)),
    ]
}

/// How an installation is set up once it is settled with what.
pub fn init_steps(
    args: &InitArgs,
    state_dir: &str,
    config_path: &str,
    settled: &Settled,
    ip_subnet: &str,
) -> (r: Vec<Step<InitAction>>)
    ensures
        plan(r@) == setting_up(
            opt_text(args.kernel),
            state_dir@,
            config_path@,
            settled.instance_id@,
            ip_subnet@,
        ),
{
    let steps = then_must(no_steps(), InitAction::InitStorage);
    let steps = then_must(steps, InitAction::InitState);
    let steps = then_must(
        steps,
        InitAction::Say("State directory initialized at ".to_owned().concat(state_dir)),
    );
    let kernel = match &args.kernel {
        Some(k) => InitAction::ResolveKernel(k.clone()),
        None => InitAction::Say(
            "No --kernel provided; a default kernel will be downloaded on first 'vm create'.".to_owned(),
        ),
    };
    let steps = then_must(steps, kernel);
    let steps = then_must(steps, InitAction::DetectWan);
    let steps = then_must(steps, InitAction::CreateConfig);
    let steps = then_must(
        steps,
        InitAction::Say("Configuration written to ".to_owned().concat(config_path)),
    );
    let steps = then_must(
        steps,
        InitAction::Say("Instance id: ".to_owned().concat(settled.instance_id.as_str())),
    );
    let steps = then_must(
        steps,
        InitAction::Say("VM IP subnet: ".to_owned().concat(ip_subnet)),
    );
    then_must(steps, InitAction::Say("\nember initialized successfully.".to_owned()))
}

/// The range of addresses of an installation: the one that was asked for, or the
/// usual one.
pub fn ip_subnet(args: &InitArgs, usual: &str) -> (r: String)
    ensures
        r@ == (match args.ip_subnet {
            Some(s) => s@,
            None => usual@,
        }),
{
    match &args.ip_subnet {
        Some(s) => s.clone(),
        None => usual.to_owned(),
    }
}

/// The error for a configuration that could not be recorded. Somebody else may
/// have been faster.
pub fn config_error(e: &Error, config_path: &str) -> (r: String)
    ensures
        r@ == (if e@ is AlreadyExists {
            "ember is already initialized at "@ + config_path@
                + " — run 'ember deinit' first to reconfigure"@
        } else {
            error_text(e@)
        }),
{
    match e {
        Error::AlreadyExists { path: _ } => "ember is already initialized at ".to_owned().concat(
            config_path,
        ).concat(" — run 'ember deinit' first to reconfigure"),
        _ => e.to_string(),
    }
}

/// The configuration is recorded only when everything that it speaks of is there,
/// and nothing is done to the storage after that.
pub proof fn law_recorded_last(
    kernel: Option<Seq<char>>,
    state_dir: Seq<char>,
    config_path: Seq<char>,
    instance_id: Seq<char>,
    ip_subnet: Seq<char>,
    i: int,
    j: int,
)
    requires
        0 <= i < setting_up(kernel, state_dir, config_path, instance_id, ip_subnet).len(),
        0 <= j < setting_up(kernel, state_dir, config_path, instance_id, ip_subnet).len(),
        setting_up(kernel, state_dir, config_path, instance_id, ip_subnet)[i].action
            == InitView::CreateConfig,
        !(setting_up(kernel, state_dir, config_path, instance_id, ip_subnet)[j].action is Say),
    ensures
        j <= i,
{
}

/// What is recorded of an installation leads back to the storage that was set up for it:
/// its pool is found under the same names, on the same devices, with the same blocks and
/// the same compression layer; and so are the datasets of a pool of volumes.
pub proof fn law_what_is_recorded_leads_to_the_storage(
    args: InitArgs,
    state_dir: Seq<char>,
    settled: SettledView,
    kernel_path: Option<String>,
    wan_iface: Option<String>,
    ip_subnet: String,
    c: InitConfig,
    g: GlobalConfig,
    d: DmThinStorage,
    z: LinuxStorage,
    is_dir: bool,
    there: bool,
)
    requires
        starts_from(c, args, state_dir, settled),
        records(g, args, state_dir, settled, kernel_path, wan_iface, ip_subnet),
        made_from(d, g, is_dir, there),
        datasets_of(z, g),
        settled.instance_id.len() > 0,
    ensures
        c.storage_backend == g.storage_backend,
        settled.storage_path is Some && settled.dm_thin_mode is Some ==> {
            &&& d.names() == names_of(c)
            &&& d.block_size_sectors == block_sectors(c.dm_thin_block_size)
            &&& d.vdo == c.vdo
        },
        z.images_dataset@ == datasets(c.pool@, c.dataset@).1,
        z.vms_dataset@ == datasets(c.pool@, c.dataset@).2,
{
}

} // verus!
