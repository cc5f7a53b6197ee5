//! Machines: creating, copying, renaming, running, changing and deleting them.

use vstd::prelude::*;
use vstd::string::*;

use super::fmt::{bytes_text, format_bytes_binary, GIB, MIB};
use crate::backend::VolumeHandle;
use crate::config::{opt_str, GlobalConfig};
use crate::error::{answer, Error, ErrorView};
use crate::path::{expand_tilde, join, joined, written_out};
use crate::procedure::{
    and, may, must, must_or, no_actions, no_steps, plan, then_must, then_must_undo, views, Step,
    StepView,
};
use crate::size::{whole_units, ByteSize};
use crate::store::vm_dir_of;
use crate::text::{copy_text, opt_text, same};
use crate::vm::{
    fresh_id, is_random_uuid, load_running_with_network, not_stopped, reachable, require_stopped,
    NetworkInfo, SshConfig, VmMetadata, VmStatus,
};

verus! {

// ---------------------------------------------------------------------
// Arguments
// ---------------------------------------------------------------------

/// How to print.
#[derive(Debug, Clone, Copy, PartialEq, Eq, Structural)]
pub enum OutputFormat {
    Table,
    Json,
}

/// A state to look for.
#[derive(Debug, Clone, Copy, PartialEq, Eq, Structural)]
pub enum StatusFilter {
    Created,
    Running,
    Stopped,
    Paused,
}

impl StatusFilter {
    /// The state that is looked for.
    pub open spec fn status(self) -> VmStatus {
        match self {
            StatusFilter::Created => VmStatus::Created,
            StatusFilter::Running => VmStatus::Running,
            StatusFilter::Stopped => VmStatus::Stopped,
            StatusFilter::Paused => VmStatus::Paused,
        }
    }

    /// Whether a state is the one that is looked for.
    pub fn matches(self, status: VmStatus) -> (r: bool)
        ensures
            r == (status == self.status()),
    {
        match (self, status) {
            (StatusFilter::Created, VmStatus::Created) => true,
            (StatusFilter::Running, VmStatus::Running) => true,
            (StatusFilter::Stopped, VmStatus::Stopped) => true,
            (StatusFilter::Paused, VmStatus::Paused) => true,
            _ => false,
        }
    }
}

/// What a new machine is to be.
#[derive(Debug)]
pub struct CreateArgs {
    pub name: String,
    pub image: Option<String>,
    pub cpus: Option<u32>,
    pub memory: Option<ByteSize>,
    pub disk_size: Option<ByteSize>,
    pub kernel: Option<String>,
    pub network: Option<String>,
    /// A file that says what the arguments do not.
    pub vm_config: Option<String>,
    pub no_start: bool,
}

#[derive(Debug)]
pub struct StartArgs {
    pub name: String,
}

#[derive(Debug)]
pub struct StopArgs {
    pub name: String,
    pub force: bool,
}

#[derive(Debug)]
pub struct PauseArgs {
    pub name: String,
}

#[derive(Debug)]
pub struct ResumeArgs {
    pub name: String,
}

#[derive(Debug)]
pub struct ResizeArgs {
    pub name: String,
    pub disk_size: ByteSize,
}

/// What is to change about a machine.
#[derive(Debug)]
pub struct UpdateConfigArgs {
    pub name: String,
    pub cpus: Option<u32>,
    pub memory: Option<ByteSize>,
    pub kernel: Option<String>,
    pub boot_args: Option<String>,
    pub ssh_user: Option<String>,
    pub ssh_key: Option<String>,
}

#[derive(Debug)]
pub struct RmArgs {
    pub name: String,
    pub force: bool,
}

#[derive(Debug)]
pub struct ListArgs {
    pub format: OutputFormat,
    pub status: Vec<StatusFilter>,
}

/// What a copy of a machine is to be.
#[derive(Debug)]
pub struct CpArgs {
    pub source: String,
    pub name: String,
    pub cpus: Option<u32>,
    pub memory: Option<ByteSize>,
    pub disk_size: Option<ByteSize>,
    pub kernel: Option<String>,
    pub network: Option<String>,
    pub no_start: bool,
}

#[derive(Debug)]
pub struct RenameArgs {
    pub name: String,
    pub new_name: String,
}

#[derive(Debug)]
pub struct InspectArgs {
    pub name: String,
    pub format: OutputFormat,
}

/// A command about machines.
#[derive(Debug)]
pub enum VmCommand {
    Create(CreateArgs),
    Start(StartArgs),
    Stop(StopArgs),
    Pause(PauseArgs),
    Resume(ResumeArgs),
    Resize(ResizeArgs),
    UpdateConfig(UpdateConfigArgs),
    Rm(RmArgs),
    List(ListArgs),
    Inspect(InspectArgs),
    Cp(CpArgs),
    Rename(RenameArgs),
}

// ---------------------------------------------------------------------
// Records
// ---------------------------------------------------------------------

/// The record of a machine of which only the disk is there.
pub fn pending_metadata(name: &str, handle: &VolumeHandle, disk_size_gib: u32) -> (r: VmMetadata)
    ensures
        r.name@ == name@,
        r.disk_path@ == handle.disk_path@,
        r.thin_id == handle.thin_id,
        r.disk_size_gib == disk_size_gib,
        exists|p: VmMetadata| #[trigger]
            p.is_placeholder() && r == (VmMetadata {
                name: r.name,
                disk_path: r.disk_path,
                thin_id: r.thin_id,
                disk_size_gib: r.disk_size_gib,
                ..p
            }),
{
    let mut m = VmMetadata::default_for_teardown();
    let ghost p = m;
    assert(p.is_placeholder());
    m.name = name.to_owned();
    m.disk_path = handle.disk_path.clone();
    m.thin_id = handle.thin_id;
    m.disk_size_gib = disk_size_gib;
    m
}

/// The record of a machine of which only the name is known.
pub fn name_only_metadata(name: &str) -> (r: VmMetadata)
    ensures
        r.name@ == name@,
        exists|p: VmMetadata| #[trigger]
            p.is_placeholder() && r == (VmMetadata { name: r.name, ..p }),
{
    let mut m = VmMetadata::default_for_teardown();
    let ghost p = m;
    assert(p.is_placeholder());
    m.name = name.to_owned();
    m
}

/// Whether a machine runs and its address is known, and why not.
pub open spec fn addressed(name: Seq<char>, m: VmMetadata) -> Result<(), Seq<char>> {
    match reachable(name, m) {
        Err(e) => Err(e),
        Ok(_) => if m.network->0.guest_ip@ == "pending"@ {
            Err(
                "guest IP not yet available for '"@ + name
                    + "' — the VM may still be booting\nHint: try 'ember reconcile' or wait a few seconds and retry"@,
            )
        } else {
            Ok(())
        },
    }
}

/// The network of a machine that runs and whose address is known, or why it cannot be
/// reached.
pub fn load_running_with_ip(name: &str, m: &VmMetadata) -> (r: Result<NetworkInfo, String>)
    ensures
        match r {
            Ok(network) => addressed(name@, *m) is Ok && m.network == Some(network),
            Err(e) => addressed(name@, *m) == Err::<(), Seq<char>>(e@),
        },
{
    let network = load_running_with_network(name, m)?;
    if same(network.guest_ip.as_str(), "pending") {
        Err(
            "guest IP not yet available for '".to_owned().concat(name).concat(
                "' — the VM may still be booting\nHint: try 'ember reconcile' or wait a few seconds and retry",
            ),
        )
    } else {
        Ok(network)
    }
}

/// The error for a name that is taken.
pub open spec fn taken(name: Seq<char>) -> Seq<char> {
    "vm '"@ + name + "' already exists"@
}

/// Refuses a name that is taken.
pub fn check_new_name(name: &str, exists_already: bool) -> (r: Result<(), String>)
    ensures
        answer(r) == (if exists_already {
            Err::<(), Seq<char>>(taken(name@))
        } else {
            Ok(())
        }),
{
    if exists_already {
        Err("vm '".to_owned().concat(name).concat("' already exists"))
    } else {
        Ok(())
    }
}

// ---------------------------------------------------------------------
// What a new machine is to be
// ---------------------------------------------------------------------

/// What a file says of a new machine.
#[derive(Debug)]
pub struct VmFile {
    pub image: Option<String>,
    pub cpus: Option<u32>,
    pub memory: Option<ByteSize>,
    pub disk_size: Option<ByteSize>,
    pub kernel: Option<String>,
    pub boot_args: Option<String>,
    pub subnet: Option<String>,
    pub ssh_user: Option<String>,
    /// The file with the private key. A tilde at its start stands for the home
    /// directory.
    pub ssh_key: Option<String>,
}

/// A new machine, once arguments and file are taken together.
#[derive(Debug)]
pub struct ResolvedVmCreate {
    pub name: String,
    pub image: String,
    pub cpus: u32,
    pub memory: u32,
    pub disk_size: u32,
    pub kernel: Option<String>,
    pub boot_args: Option<String>,
    pub network: Option<String>,
    pub no_start: bool,
    pub ssh_user: Option<String>,
    pub ssh_key: Option<String>,
}

/// A [`ResolvedVmCreate`], its strings taken by their texts.
#[verifier::ext_equal]
pub struct ResolvedView {
    pub name: Seq<char>,
    pub image: Seq<char>,
    pub cpus: u32,
    pub memory: u32,
    pub disk_size: u32,
    pub kernel: Option<Seq<char>>,
    pub boot_args: Option<Seq<char>>,
    pub network: Option<Seq<char>>,
    pub no_start: bool,
    pub ssh_user: Option<Seq<char>>,
    pub ssh_key: Option<Seq<char>>,
}

impl View for ResolvedVmCreate {
    type V = ResolvedView;

    open spec fn view(&self) -> ResolvedView {
        ResolvedView {
            name: self.name@,
            image: self.image@,
            cpus: self.cpus,
            memory: self.memory,
            disk_size: self.disk_size,
            kernel: opt_text(self.kernel),
            boot_args: opt_text(self.boot_args),
            network: opt_text(self.network),
            no_start: self.no_start,
            ssh_user: opt_text(self.ssh_user),
            ssh_key: opt_text(self.ssh_key),
        }
    }
}

/// The first of two that is there.
pub open spec fn first_of<T>(a: Option<T>, b: Option<T>) -> Option<T> {
    match a {
        Some(x) => Some(x),
        None => b,
    }
}

fn first_text(a: &Option<String>, b: &Option<String>) -> (r: Option<String>)
    ensures
        r == first_of(*a, *b),
{
    match a {
        Some(x) => Some(x.clone()),
        None => copy_text(b),
    }
}

/// Something of a file, where there is one.
pub open spec fn from_file<T>(file: Option<VmFile>, field: spec_fn(VmFile) -> Option<T>) -> Option<
    T,
> {
    match file {
        Some(f) => field(f),
        None => None,
    }
}

/// How many bytes of memory and of disk a machine gets: what was asked for, or
/// else 16 GiB and 8 GiB.
pub open spec fn size_or(size: Option<ByteSize>, gib: u64) -> u64 {
    match size {
        Some(s) => s.bytes(),
        None => (gib * crate::size::GIB) as u64,
    }
}

/// A new machine, once arguments and file are taken together: an argument
/// counts more than the file.
pub open spec fn resolved_of(
    args: CreateArgs,
    file: Option<VmFile>,
    home: Option<Seq<char>>,
) -> Result<ResolvedView, Seq<char>> {
    let image = first_of(args.image, from_file(file, |f: VmFile| f.image));
    let memory = whole_units(
        size_or(first_of(args.memory, from_file(file, |f: VmFile| f.memory)), 16),
        crate::size::MIB,
        "MiB"@,
    );
    let disk = whole_units(
        size_or(first_of(args.disk_size, from_file(file, |f: VmFile| f.disk_size)), 8),
        crate::size::GIB,
        "GiB"@,
    );
    if image is None {
        Err("no image specified — provide --image or set 'image' in the YAML config"@)
    } else if memory is Err {
        Err("invalid memory size: "@ + memory->Err_0)
    } else if disk is Err {
        Err("invalid disk size: "@ + disk->Err_0)
    } else {
        Ok(
            ResolvedView {
                name: args.name@,
                image: image->0@,
                cpus: match first_of(args.cpus, from_file(file, |f: VmFile| f.cpus)) {
                    Some(n) => n,
                    None => 1,
                },
                memory: memory->Ok_0,
                disk_size: disk->Ok_0,
                kernel: opt_text(first_of(args.kernel, from_file(file, |f: VmFile| f.kernel))),
                boot_args: opt_text(from_file(file, |f: VmFile| f.boot_args)),
                network: opt_text(first_of(args.network, from_file(file, |f: VmFile| f.subnet))),
                no_start: args.no_start,
                ssh_user: opt_text(from_file(file, |f: VmFile| f.ssh_user)),
                ssh_key: match from_file(file, |f: VmFile| f.ssh_key) {
                    Some(k) => Some(written_out(k@, home)),
                    None => None,
                },
            },
        )
    }
}

/// A new machine, once arguments and file are taken together. `home` is the home
/// directory of the user.
pub fn resolve_create_config(
    args: &CreateArgs,
    file: Option<&VmFile>,
    home: Option<&str>,
) -> (r: Result<ResolvedVmCreate, String>)
    ensures
        ({
            let f = match file {
                Some(f) => Some(*f),
                None => None,
            };
            match r {
                Ok(c) => resolved_of(*args, f, opt_str(home)) == Ok::<ResolvedView, Seq<char>>(
                    c@,
                ),
                Err(e) => resolved_of(*args, f, opt_str(home)) == Err::<ResolvedView, Seq<char>>(
                    e@,
                ),
            }
        }),
{
    let nothing = VmFile {
        image: None,
        cpus: None,
        memory: None,
        disk_size: None,
        kernel: None,
        boot_args: None,
        subnet: None,
        ssh_user: None,
        ssh_key: None,
    };
    let f: &VmFile = match file {
        Some(f) => f,
        None => &nothing,
    };
    let image = match first_text(&args.image, &f.image) {
        Some(i) => i,
        None => {
            return Err(
                "no image specified — provide --image or set 'image' in the YAML config".to_owned(),
            );
        },
    };
    let cpus: u32 = match args.cpus {
        Some(n) => n,
        None => match f.cpus {
            Some(n) => n,
            None => 1,
        },
    };
    let memory_size = match args.memory {
        Some(s) => s,
        None => match f.memory {
            Some(s) => s,
            None => ByteSize::from_gib(16),
        },
    };
    let memory: u32 = match memory_size.to_mib() {
        Ok(n) => n,
        Err(e) => {
            return Err("invalid memory size: ".to_owned().concat(e.as_str()));
        },
    };
    let disk_size_val = match args.disk_size {
        Some(s) => s,
        None => match f.disk_size {
            Some(s) => s,
            None => ByteSize::from_gib(8),
        },
    };
    let disk_size: u32 = match disk_size_val.to_gib() {
        Ok(n) => n,
        Err(e) => {
            return Err("invalid disk size: ".to_owned().concat(e.as_str()));
        },
    };
    let ssh_key = match &f.ssh_key {
        Some(k) => Some(expand_tilde(k.as_str(), home)),
        None => None,
    };
    Ok(
        ResolvedVmCreate {
            name: args.name.clone(),
            image,
            cpus,
            memory,
            disk_size,
            kernel: first_text(&args.kernel, &f.kernel),
            boot_args: copy_text(&f.boot_args),
            network: first_text(&args.network, &f.subnet),
            no_start: args.no_start,
            ssh_user: copy_text(&f.ssh_user),
            ssh_key,
        },
    )
}

/// What is said by an argument counts, whatever the file says; what is said by
/// none of them is the default.
pub proof fn law_arguments_come_first(
    args: CreateArgs,
    file: Option<VmFile>,
    home: Option<Seq<char>>,
)
    ensures
        resolved_of(args, file, home) matches Ok(r) ==> {
            &&& args.image matches Some(i) ==> r.image == i@
            &&& args.cpus matches Some(n) ==> r.cpus == n
            &&& args.memory matches Some(m) ==> r.memory * crate::size::MIB == m.bytes()
            &&& args.disk_size matches Some(d) ==> r.disk_size * crate::size::GIB == d.bytes()
            &&& args.kernel is Some ==> r.kernel == opt_text(args.kernel)
            &&& args.network is Some ==> r.network == opt_text(args.network)
            &&& args.cpus is None && file is None ==> r.cpus == 1
            &&& args.memory is None && file is None ==> r.memory == 16 * 1024
            &&& args.disk_size is None && file is None ==> r.disk_size == 8
        },
{
}

/// The kernel of a machine.
#[derive(Debug, PartialEq)]
pub enum KernelChoice {
    /// The one that was asked for, which has to be found.
    Asked(String),
    /// The one at this place.
    Configured(String),
    /// The usual one, which has to be found, and is the configured one from then
    /// on.
    Usual,
}

/// The kernel of a machine: the one that was asked for, or else the configured
/// one, or else the usual one.
pub fn ensure_kernel(asked: &Option<String>, config: &GlobalConfig) -> (r: KernelChoice)
    ensures
        match r {
            KernelChoice::Asked(k) => opt_text(*asked) == Some(k@),
            KernelChoice::Configured(k) => *asked is None && opt_text(config.kernel_path) == Some(
                k@,
            ),
            KernelChoice::Usual => *asked is None && config.kernel_path is None,
        },
{
    match asked {
        Some(k) => KernelChoice::Asked(k.clone()),
        None => match &config.kernel_path {
            Some(k) => KernelChoice::Configured(k.clone()),
            None => KernelChoice::Usual,
        },
    }
}

// ---------------------------------------------------------------------
// Creating
// ---------------------------------------------------------------------

/// Something to do about a machine.
#[derive(Debug, PartialEq)]
pub enum VmAction {
    /// Tell the user.
    Say(String),
    /// Tell the user that something went wrong.
    Warn(String),
    /// Make the disk from that of the image.
    CloneImage,
    /// Make the disk from that of the other machine.
    CloneVm,
    /// Make the disk larger, to so many GiB.
    Resize(u32),
    /// Find out where the disk shows.
    OpenDisk,
    /// Put a key for logging in into the disk.
    InjectKey(String),
    /// Put a name into the disk.
    InjectHostname(String),
    /// Find the kernel.
    EnsureKernel,
    /// Keep the record.
    SaveRecord,
    DeleteRecord(String),
    DestroyStorage,
    /// Start the machine of this name, once it is made.
    Start(String),
    /// Remove what was kept for the copy at the machine that it came from.
    CleanupFork,
    SetupNetwork,
    /// Tell the user what addresses the network has.
    TellAddresses,
    TeardownNetwork,
    StartProcess,
    /// Tell the user that the machine of this name was started.
    TellStarted(String),
    ForceStop,
    /// Ask the process to end.
    Stop,
    /// What the platform looks at before a machine is paused or resumed.
    PrePauseCheck,
    Pause,
    Resume,
    /// Give the disk the name of another machine.
    RenameStorage(String),
    /// Give the disk its old name back.
    RevertStorage,
    /// Move a directory.
    MoveDir(String, String),
    /// Tell the machines that were copied from this one its new name.
    RenameParents,
    /// Remove the socket of the process.
    RemoveSocket,
    /// What the platform does after a deletion.
    PostDelete,
    /// Fail with these words.
    Refuse(String),
}

/// A [`VmAction`], its strings taken by their texts.
#[verifier::ext_equal]
pub enum VmView {
    Say(Seq<char>),
    Warn(Seq<char>),
    CloneImage,
    CloneVm,
    Resize(u32),
    OpenDisk,
    InjectKey(Seq<char>),
    InjectHostname(Seq<char>),
    EnsureKernel,
    SaveRecord,
    DeleteRecord(Seq<char>),
    DestroyStorage,
    CleanupFork,
    SetupNetwork,
    TellAddresses,
    TeardownNetwork,
    Start(Seq<char>),
    StartProcess,
    TellStarted(Seq<char>),
    ForceStop,
    Stop,
    PrePauseCheck,
    Pause,
    Resume,
    RenameStorage(Seq<char>),
    RevertStorage,
    MoveDir(Seq<char>, Seq<char>),
    RenameParents,
    RemoveSocket,
    PostDelete,
    Refuse(Seq<char>),
}

impl View for VmAction {
    type V = VmView;

    open spec fn view(&self) -> VmView {
        match self {
            VmAction::Say(s) => VmView::Say(s@),
            VmAction::Warn(s) => VmView::Warn(s@),
            VmAction::CloneImage => VmView::CloneImage,
            VmAction::CloneVm => VmView::CloneVm,
            VmAction::Resize(n) => VmView::Resize(*n),
            VmAction::OpenDisk => VmView::OpenDisk,
            VmAction::InjectKey(p) => VmView::InjectKey(p@),
            VmAction::InjectHostname(n) => VmView::InjectHostname(n@),
            VmAction::EnsureKernel => VmView::EnsureKernel,
            VmAction::SaveRecord => VmView::SaveRecord,
            VmAction::DeleteRecord(n) => VmView::DeleteRecord(n@),
            VmAction::DestroyStorage => VmView::DestroyStorage,
            VmAction::CleanupFork => VmView::CleanupFork,
            VmAction::SetupNetwork => VmView::SetupNetwork,
            VmAction::TellAddresses => VmView::TellAddresses,
            VmAction::TeardownNetwork => VmView::TeardownNetwork,
            VmAction::Start(n) => VmView::Start(n@),
            VmAction::StartProcess => VmView::StartProcess,
            VmAction::TellStarted(n) => VmView::TellStarted(n@),
            VmAction::ForceStop => VmView::ForceStop,
            VmAction::Stop => VmView::Stop,
            VmAction::PrePauseCheck => VmView::PrePauseCheck,
            VmAction::Pause => VmView::Pause,
            VmAction::Resume => VmView::Resume,
            VmAction::RenameStorage(n) => VmView::RenameStorage(n@),
            VmAction::RevertStorage => VmView::RevertStorage,
            VmAction::MoveDir(a, b) => VmView::MoveDir(a@, b@),
            VmAction::RenameParents => VmView::RenameParents,
            VmAction::RemoveSocket => VmView::RemoveSocket,
            VmAction::PostDelete => VmView::PostDelete,
            VmAction::Refuse(s) => VmView::Refuse(s@),
        }
    }
}

/// What the user is told before something is undone.
pub open spec fn rolling_back() -> VmView {
    VmView::Warn("Operation failed, rolling back..."@)
}

/// What the user is told about one thing that is undone.
pub open spec fn cleaning_up(label: Seq<char>) -> VmView {
    VmView::Warn("  Cleaning up "@ + label + "..."@)
}

fn start_undo(label: &str) -> (r: Vec<VmAction>)
    ensures
        views(r@) == seq![rolling_back(), cleaning_up(label@)],
{
    let r = and(
        no_actions(),
        VmAction::Warn("Operation failed, rolling back...".to_owned()),
    );
    let r = and(r, VmAction::Warn(crate::rollback::cleanup_message(label)));
    assert(views(r@) =~= seq![rolling_back(), cleaning_up(label@)]);
    r
}

/// What undoes a clone of an image.
pub open spec fn undo_clone(name: Seq<char>) -> Seq<VmView> {
    seq![
        rolling_back(),
        cleaning_up("VM storage clone"@),
        VmView::DestroyStorage,
        VmView::DeleteRecord(name),
    ]
}

fn undo_clone_actions(name: &str) -> (r: Vec<VmAction>)
    ensures
        views(r@) == undo_clone(name@),
{
    let r = start_undo("VM storage clone");
    let r = and(r, VmAction::DestroyStorage);
    let r = and(r, VmAction::DeleteRecord(name.to_owned()));
    assert(views(r@) =~= undo_clone(name@));
    r
}

/// A list of things to do, each with the same to undo.
pub open spec fn all_or(actions: Seq<VmView>, undo: Seq<VmView>) -> Seq<StepView<VmView>> {
    actions.map_values(|a: VmView| must_or(a, undo))
}

/// What growing a disk takes, when it has to grow.
pub open spec fn growing(needed: bool, gib: u32) -> Seq<VmView> {
    if needed {
        seq![
            VmView::Say("Growing disk to "@ + bytes_text((gib * GIB) as u64) + "..."@),
            VmView::Resize(gib),
        ]
    } else {
        seq![]
    }
}

/// What is done to a new disk: it is grown to what was asked for, and gets a key
/// for logging in and a name.
pub open spec fn preparing(
    name: Seq<char>,
    disk_size: u32,
    image_size_mib: u64,
    pubkey: Option<Seq<char>>,
) -> Seq<VmView> {
    growing(disk_size * 1024 > image_size_mib, disk_size) + seq![VmView::OpenDisk] + (match pubkey {
        None => seq![
            VmView::Refuse(
                "no SSH public key found at ~/.ssh/id_ed25519.pub or ~/.ssh/id_rsa.pub\nHint: create one with: ssh-keygen -t ed25519"@,
            ),
        ],
        Some(p) => seq![
            VmView::Say("Injecting SSH key from "@ + p + "..."@),
            VmView::InjectKey(p),
            VmView::InjectHostname(name),
            VmView::EnsureKernel,
            VmView::SaveRecord,
            VmView::Say("VM '"@ + name + "' created successfully."@),
        ],
    })
}

fn grow_actions(needed: bool, gib: u32) -> (r: Vec<VmAction>)
    ensures
        views(r@) == growing(needed, gib),
{
    let mut r: Vec<VmAction> = no_actions();
    if needed {
        assert(gib as u64 * GIB <= u32::MAX * GIB) by (nonlinear_arith)
            requires
                gib <= u32::MAX,
        ;
        let size = format_bytes_binary(gib as u64 * GIB);
        r = and(
            r,
            VmAction::Say("Growing disk to ".to_owned().concat(size.as_str()).concat("...")),
        );
        r = and(r, VmAction::Resize(gib));
    }
    assert(views(r@) =~= growing(needed, gib));
    r
}

fn with_undo(
    steps: Vec<Step<VmAction>>,
    actions: Vec<VmAction>,
    copying: bool,
    name: &str,
) -> (r: Vec<Step<VmAction>>)
    ensures
        plan(r@) == plan(steps@) + all_or(
            views(actions@),
            if copying {
                undo_copy(name@)
            } else {
                undo_clone(name@)
            },
        ),
    decreases actions@.len(),
{
    let ghost all = views(actions@);
    let ghost undo = if copying {
        undo_copy(name@)
    } else {
        undo_clone(name@)
    };
    let mut actions = actions;
    if actions.len() == 0 {
        assert(all_or(all, undo) =~= seq![]);
        assert(plan(steps@) =~= plan(steps@) + all_or(all, undo));
        return steps;
    }
    let ghost whole = actions@;
    let last = actions.pop();
    match last {
        None => steps,
        Some(a) => {
            let ghost less = views(actions@);
            assert(actions@ =~= whole.drop_last());
            assert(less =~= all.drop_last());
            assert(all.last() == a@);
            let ghost before = plan(steps@);
            let steps = with_undo(steps, actions, copying, name);
            let ghost mid = plan(steps@);
            let u = if copying {
                undo_copy_actions(name)
            } else {
                undo_clone_actions(name)
            };
            let steps = then_must_undo(steps, a, u);
            assert(all_or(all, undo) =~= all_or(less, undo).push(must_or(a@, undo)));
            assert(plan(steps@) =~= before + all_or(all, undo));
            steps
        },
    }
}

/// What undoes a copy of a machine.
pub open spec fn undo_copy(name: Seq<char>) -> Seq<VmView> {
    seq![
        rolling_back(),
        cleaning_up("vm copy clone + snapshot"@),
        VmView::DestroyStorage,
        VmView::CleanupFork,
        VmView::DeleteRecord(name),
    ]
}

fn undo_copy_actions(name: &str) -> (r: Vec<VmAction>)
    ensures
        views(r@) == undo_copy(name@),
{
    let r = start_undo("vm copy clone + snapshot");
    let r = and(r, VmAction::DestroyStorage);
    let r = and(r, VmAction::CleanupFork);
    let r = and(r, VmAction::DeleteRecord(name.to_owned()));
    assert(views(r@) =~= undo_copy(name@));
    r
}

/// What is done to a new disk, in this order.
pub fn create_post_clone(
    name: &str,
    disk_size: u32,
    image_size_mib: u64,
    pubkey: Option<&str>,
) -> (r: Vec<VmAction>)
    ensures
        views(r@) == preparing(
            name@,
            disk_size,
            image_size_mib,
            match pubkey {
                Some(p) => Some(p@),
                None => None,
            },
        ),
{
    let requested_size_mib: u64 = disk_size as u64 * 1024;
    let r = grow_actions(requested_size_mib > image_size_mib, disk_size);
    let ghost head = views(r@);
    let r = and(r, VmAction::OpenDisk);
    match pubkey {
        None => {
            let r = and(
                r,
                VmAction::Refuse(
                    "no SSH public key found at ~/.ssh/id_ed25519.pub or ~/.ssh/id_rsa.pub\nHint: create one with: ssh-keygen -t ed25519".to_owned(),
                ),
            );
            assert(views(r@) =~= preparing(name@, disk_size, image_size_mib, None));
            r
        },
        Some(p) => {
            let r = and(
                r,
                VmAction::Say("Injecting SSH key from ".to_owned().concat(p).concat("...")),
            );
            let r = and(r, VmAction::InjectKey(p.to_owned()));
            let r = and(r, VmAction::InjectHostname(name.to_owned()));
            let r = and(r, VmAction::EnsureKernel);
            let r = and(r, VmAction::SaveRecord);
            let r = and(
                r,
                VmAction::Say("VM '".to_owned().concat(name).concat("' created successfully.")),
            );
            assert(views(r@) =~= preparing(name@, disk_size, image_size_mib, Some(p@)));
            r
        },
    }
}

/// What becomes of a machine that is made: it is started, unless that is not
/// wanted.
pub open spec fn starting(no_start: bool, name: Seq<char>) -> Seq<StepView<VmView>> {
    if no_start {
        seq![]
    } else {
        seq![must(VmView::Start(name))]
    }
}

fn then_start(steps: Vec<Step<VmAction>>, no_start: bool, name: &str) -> (r: Vec<Step<VmAction>>)
    ensures
        plan(r@) == plan(steps@) + starting(no_start, name@),
{
    if no_start {
        assert(plan(steps@) =~= plan(steps@) + starting(no_start, name@));
        steps
    } else {
        let ghost before = plan(steps@);
        let steps = then_must(steps, VmAction::Start(name.to_owned()));
        assert(plan(steps@) =~= before + starting(no_start, name@));
        steps
    }
}

/// Whatever goes wrong once a disk is there, the disk goes again, and the record
/// of the machine with it.
pub proof fn law_failed_creation_is_undone(
    name: Seq<char>,
    disk_size: u32,
    image_size_mib: u64,
    pubkey: Option<Seq<char>>,
    i: int,
)
    requires
        0 <= i < preparing(name, disk_size, image_size_mib, pubkey).len(),
    ensures
        ({
            let step = all_or(
                preparing(name, disk_size, image_size_mib, pubkey),
                undo_clone(name),
            )[i];
            &&& !step.tolerate
            &&& step.undo.contains(VmView::DestroyStorage)
            &&& step.undo.last() == VmView::DeleteRecord(name)
        }),
{
    assert(undo_clone(name)[2] == VmView::DestroyStorage);
}

/// Whatever goes wrong once a disk is copied, the copy goes again, with what it
/// left behind at its source and with the record of the machine.
pub proof fn law_failed_copy_is_undone(
    name: Seq<char>,
    disk_size_gib: u32,
    source_gib: u32,
    new_kernel: bool,
    i: int,
)
    requires
        0 <= i < preparing_copy(name, disk_size_gib, source_gib, new_kernel).len(),
    ensures
        ({
            let step = all_or(
                preparing_copy(name, disk_size_gib, source_gib, new_kernel),
                undo_copy(name),
            )[i];
            &&& !step.tolerate
            &&& step.undo.contains(VmView::DestroyStorage)
            &&& step.undo.contains(VmView::CleanupFork)
            &&& step.undo.last() == VmView::DeleteRecord(name)
        }),
{
    assert(undo_copy(name)[2] == VmView::DestroyStorage);
    assert(undo_copy(name)[3] == VmView::CleanupFork);
}

/// How a machine is created from an image. Once its disk is there, it is
/// destroyed again when anything fails.
pub open spec fn create_plan(
    resolved: ResolvedVmCreate,
    image_size_mib: u64,
    pubkey: Option<Seq<char>>,
) -> Seq<StepView<VmView>> {
    seq![
        must(VmView::Say("Cloning image for VM '"@ + resolved.name@ + "'..."@)),
        must(VmView::CloneImage),
    ] + all_or(
        preparing(resolved.name@, resolved.disk_size, image_size_mib, pubkey),
        undo_clone(resolved.name@),
    ) + starting(resolved.no_start, resolved.name@)
}

/// How a machine is created from an image. Once its disk is there, it is
/// destroyed again when anything fails.
pub fn create(resolved: &ResolvedVmCreate, image_size_mib: u64, pubkey: Option<&str>) -> (r: Vec<
    Step<VmAction>,
>)
    ensures
        plan(r@) == create_plan(*resolved, image_size_mib, opt_str(pubkey)),
{
    let name = resolved.name.as_str();
    let m = "Cloning image for VM '".to_owned().concat(name).concat("'...");
    let steps = then_must(no_steps(), VmAction::Say(m));
    let steps = then_must(steps, VmAction::CloneImage);
    let ghost head = plan(steps@);
    assert(head =~= seq![
        must(VmView::Say("Cloning image for VM '"@ + name@ + "'..."@)),
        must(VmView::CloneImage),
    ]);
    let actions = create_post_clone(name, resolved.disk_size, image_size_mib, pubkey);
    let steps = with_undo(steps, actions, false, name);
    then_start(steps, resolved.no_start, name)
}

/// The error for an image that is not there.
pub fn image_not_found(image: &str) -> (r: String)
    ensures
        r@ == "image '"@ + image@ + "' not found locally — pull it first with: ember image pull "@
            + image@,
{
    "image '".to_owned().concat(image).concat(
        "' not found locally — pull it first with: ember image pull ",
    ).concat(image)
}

/// How a machine is created from an image, or the refusal to: its name has to be
/// free, and the image has to be there. `image_size_mib` is the size of the image,
/// where it is.
pub fn begin_create(
    resolved: &ResolvedVmCreate,
    name_taken: bool,
    image_size_mib: Option<u64>,
    pubkey: Option<&str>,
) -> (r: Result<Vec<Step<VmAction>>, String>)
    ensures
        match r {
            Ok(steps) => {
                &&& !name_taken
                &&& image_size_mib is Some
                &&& plan(steps@) == create_plan(*resolved, image_size_mib->0, opt_str(pubkey))
            },
            Err(e) => if name_taken {
                e@ == taken(resolved.name@)
            } else {
                image_size_mib is None && e@ == "image '"@ + resolved.image@
                    + "' not found locally — pull it first with: ember image pull "@
                    + resolved.image@
            },
        },
{
    match check_new_name(resolved.name.as_str(), name_taken) {
        Ok(()) => {},
        Err(e) => {
            return Err(e);
        },
    }
    match image_size_mib {
        Some(size) => Ok(create(resolved, size, pubkey)),
        None => Err(image_not_found(resolved.image.as_str())),
    }
}

/// What is found out while a machine is created.
#[derive(Debug)]
pub struct CreateFacts {
    /// The name of the image.
    pub image_ref: String,
    pub kernel_path: String,
    /// The user who got the key for logging in.
    pub detected_ssh_user: String,
    /// The private key of whoever creates the machine.
    pub default_privkey: Option<String>,
    pub created_at: String,
}

/// What the user is told before a file with settings is read.
pub fn loading_text(path: &str) -> (r: String)
    ensures
        r@ == "Loading VM config from "@ + path@ + "..."@,
{
    "Loading VM config from ".to_owned().concat(path).concat("...")
}

/// Where a machine is spoken to.
pub open spec fn socket_of(root: Seq<char>, name: Seq<char>) -> Seq<char> {
    joined(vm_dir_of(root, name), "firecracker.sock"@)
}

fn socket_path(root: &str, name: &str) -> (r: String)
    ensures
        r@ == socket_of(root@, name@),
{
    let vms = join(root, "vms");
    let dir = join(vms.as_str(), name);
    join(dir.as_str(), "firecracker.sock")
}

/// Whether `r` is the record of a new machine.
pub open spec fn is_new_record(
    r: VmMetadata,
    resolved: ResolvedView,
    state_dir: Seq<char>,
    pending: VmMetadata,
    facts: CreateFacts,
) -> bool {
    &&& r.name@ == resolved.name
    &&& is_random_uuid(r.id@)
    &&& r.status == VmStatus::Created
    &&& r.image@ == facts.image_ref@
    &&& r.cpus == resolved.cpus
    &&& r.memory_mib == resolved.memory
    &&& r.disk_size_gib == resolved.disk_size
    &&& r.kernel_path@ == facts.kernel_path@
    &&& r.disk_path@ == pending.disk_path@
    &&& opt_text(r.boot_args) == resolved.boot_args
    &&& opt_text(r.subnet) == resolved.network
    &&& r.network is None
    &&& r.pid is None
    &&& r.api_socket@ == socket_of(state_dir, resolved.name)
    &&& r.created_at@ == facts.created_at@
    &&& r.ssh.user@ == (match resolved.ssh_user {
        Some(u) => u,
        None => facts.detected_ssh_user@,
    })
    &&& r.ssh.key@ == (match resolved.ssh_key {
        Some(k) => k,
        None => match facts.default_privkey {
            Some(k) => k@,
            None => "/root/.ssh/id_ed25519"@,
        },
    })
    &&& r.parent_vm is None
    &&& r.thin_id == pending.thin_id
}

/// The record of a new machine.
pub fn created_metadata(
    resolved: &ResolvedVmCreate,
    state_dir: &str,
    pending: &VmMetadata,
    facts: &CreateFacts,
) -> (r: VmMetadata)
    ensures
        is_new_record(r, resolved@, state_dir@, *pending, *facts),
{
    VmMetadata {
        name: resolved.name.clone(),
        id: fresh_id(),
        status: VmStatus::Created,
        image: facts.image_ref.clone(),
        cpus: resolved.cpus,
        memory_mib: resolved.memory,
        disk_size_gib: resolved.disk_size,
        kernel_path: facts.kernel_path.clone(),
        disk_path: pending.disk_path.clone(),
        boot_args: copy_text(&resolved.boot_args),
        subnet: copy_text(&resolved.network),
        network: None,
        pid: None,
        api_socket: socket_path(state_dir, resolved.name.as_str()),
        created_at: facts.created_at.clone(),
        ssh: SshConfig {
            user: match &resolved.ssh_user {
                Some(u) => u.clone(),
                None => facts.detected_ssh_user.clone(),
            },
            key: match &resolved.ssh_key {
                Some(k) => k.clone(),
                None => match &facts.default_privkey {
                    Some(k) => k.clone(),
                    None => "/root/.ssh/id_ed25519".to_owned(),
                },
            },
        },
        parent_vm: None,
        thin_id: pending.thin_id,
    }
}

// ---------------------------------------------------------------------
// Copying
// ---------------------------------------------------------------------

/// What a copy is to be, once the arguments and the machine are taken together.
#[derive(Debug, Clone, Copy, PartialEq, Eq, Structural)]
pub struct CopySizes {
    pub cpus: u32,
    pub memory_mib: u32,
    pub disk_size_gib: u32,
}

/// What a copy is to be: what was asked for, or else what the machine is. Its
/// disk cannot be smaller.
pub open spec fn copy_sizes(args: CpArgs, source: VmMetadata) -> Result<CopySizes, Seq<char>> {
    let memory = match args.memory {
        Some(m) => whole_units(m.bytes(), crate::size::MIB, "MiB"@),
        None => Ok(source.memory_mib),
    };
    let disk = match args.disk_size {
        Some(d) => whole_units(d.bytes(), crate::size::GIB, "GiB"@),
        None => Ok(source.disk_size_gib),
    };
    if memory is Err {
        Err("invalid memory size: "@ + memory->Err_0)
    } else if disk is Err {
        Err("invalid disk size: "@ + disk->Err_0)
    } else if disk->Ok_0 < source.disk_size_gib {
        Err(
            "cannot shrink disk: requested "@ + bytes_text((disk->Ok_0 * GIB) as u64)
                + " but source is "@ + bytes_text((source.disk_size_gib * GIB) as u64),
        )
    } else {
        Ok(
            CopySizes {
                cpus: match args.cpus {
                    Some(n) => n,
                    None => source.cpus,
                },
                memory_mib: memory->Ok_0,
                disk_size_gib: disk->Ok_0,
            },
        )
    }
}

fn gib_text(gib: u32) -> (r: String)
    ensures
        r@ == bytes_text((gib * GIB) as u64),
{
    assert(gib as u64 * GIB <= u32::MAX * GIB) by (nonlinear_arith)
        requires
            gib <= u32::MAX,
    ;
    format_bytes_binary(gib as u64 * GIB)
}

/// What a copy is to be.
pub fn resolve_copy(args: &CpArgs, source: &VmMetadata) -> (r: Result<CopySizes, String>)
    ensures
        answer(r) == copy_sizes(*args, *source),
{
    let cpus: u32 = match args.cpus {
        Some(n) => n,
        None => source.cpus,
    };
    let memory_mib: u32 = match args.memory {
        Some(m) => match m.to_mib() {
            Ok(n) => n,
            Err(e) => {
                return Err("invalid memory size: ".to_owned().concat(e.as_str()));
            },
        },
        None => source.memory_mib,
    };
    let disk_size_gib: u32 = match args.disk_size {
        Some(d) => match d.to_gib() {
            Ok(n) => n,
            Err(e) => {
                return Err("invalid disk size: ".to_owned().concat(e.as_str()));
            },
        },
        None => source.disk_size_gib,
    };
    if disk_size_gib < source.disk_size_gib {
        let asked = gib_text(disk_size_gib);
        let is = gib_text(source.disk_size_gib);
        return Err(
            "cannot shrink disk: requested ".to_owned().concat(asked.as_str()).concat(
                " but source is ",
            ).concat(is.as_str()),
        );
    }
    Ok(CopySizes { cpus, memory_mib, disk_size_gib })
}

/// What is done to the disk of a copy.
pub open spec fn preparing_copy(
    name: Seq<char>,
    disk_size_gib: u32,
    source_gib: u32,
    new_kernel: bool,
) -> Seq<VmView> {
    growing(disk_size_gib > source_gib, disk_size_gib) + seq![
        VmView::OpenDisk,
        VmView::InjectHostname(name),
    ] + (if new_kernel {
        seq![VmView::EnsureKernel]
    } else {
        seq![]
    }) + seq![VmView::SaveRecord]
}

/// How a machine is copied. Once the disk of the copy is there, it is destroyed
/// again when anything fails.
pub open spec fn copy_plan(args: CpArgs, source: VmMetadata, sizes: CopySizes) -> Seq<
    StepView<VmView>,
> {
    seq![
        must(VmView::Say("Copying '"@ + args.source@ + "' → '"@ + args.name@ + "'..."@)),
        must(VmView::CloneVm),
    ] + all_or(
        preparing_copy(
            args.name@,
            sizes.disk_size_gib,
            source.disk_size_gib,
            args.kernel is Some,
        ),
        undo_copy(args.name@),
    ) + seq![
        must(VmView::Say("VM '"@ + args.name@ + "' copied from '"@ + args.source@ + "'."@)),
    ] + starting(args.no_start, args.name@)
}

/// Why something cannot be done to a machine.
#[derive(Debug)]
pub enum Refusal {
    /// It runs or is paused.
    NotStopped(Error),
    /// It is in a state in which this cannot be done.
    WrongState(Error),
    /// For what these words say.
    Words(String),
}

/// A [`Refusal`], its string taken by its text.
#[verifier::ext_equal]
pub enum RefusalView {
    NotStopped(ErrorView),
    WrongState(ErrorView),
    Words(Seq<char>),
}

impl View for Refusal {
    type V = RefusalView;

    open spec fn view(&self) -> RefusalView {
        match self {
            Refusal::NotStopped(e) => RefusalView::NotStopped(e@),
            Refusal::WrongState(e) => RefusalView::WrongState(e@),
            Refusal::Words(t) => RefusalView::Words(t@),
        }
    }
}

/// What a copy is to be, or the refusal to make one: the source has to stand still,
/// the name has to be free, and the sizes have to make sense, in this order.
pub open spec fn copying(args: CpArgs, source: VmMetadata, name_taken: bool) -> Result<
    CopySizes,
    RefusalView,
> {
    if source.status.spec_is_active() {
        Err(RefusalView::NotStopped(not_stopped(source, "copying"@)))
    } else if name_taken {
        Err(RefusalView::Words(taken(args.name@)))
    } else {
        match copy_sizes(args, source) {
            Ok(sizes) => Ok(sizes),
            Err(e) => Err(RefusalView::Words(e)),
        }
    }
}

/// What a copy is to be and how it is made, or the refusal to make one.
pub fn begin_copy(args: &CpArgs, source: &VmMetadata, name_taken: bool) -> (r: Result<
    (CopySizes, Vec<Step<VmAction>>),
    Refusal,
>)
    ensures
        match (r, copying(*args, *source, name_taken)) {
            (Ok((sizes, steps)), Ok(s)) => sizes == s && plan(steps@) == copy_plan(
                *args,
                *source,
                s,
            ),
            (Err(e), Err(why)) => e@ == why,
            _ => false,
        },
{
    match require_stopped(source, "copying") {
        Ok(()) => {},
        Err(e) => {
            return Err(Refusal::NotStopped(e));
        },
    }
    match check_new_name(args.name.as_str(), name_taken) {
        Ok(()) => {},
        Err(e) => {
            return Err(Refusal::Words(e));
        },
    }
    match resolve_copy(args, source) {
        Ok(sizes) => Ok((sizes, cp(args, source, sizes))),
        Err(e) => Err(Refusal::Words(e)),
    }
}

/// How a machine is copied. Once the disk of the copy is there, it is destroyed
/// again when anything fails.
pub fn cp(args: &CpArgs, source: &VmMetadata, sizes: CopySizes) -> (r: Vec<Step<VmAction>>)
    ensures
        plan(r@) == copy_plan(*args, *source, sizes),
{
    let name = args.name.as_str();
    let m = "Copying '".to_owned().concat(args.source.as_str()).concat("' → '").concat(
        name,
    ).concat("'...");
    let steps = then_must(no_steps(), VmAction::Say(m));
    let steps = then_must(steps, VmAction::CloneVm);
    let ghost head = plan(steps@);
    assert(head =~= seq![
        must(VmView::Say("Copying '"@ + args.source@ + "' → '"@ + args.name@ + "'..."@)),
        must(VmView::CloneVm),
    ]);
    let actions = grow_actions(
        sizes.disk_size_gib > source.disk_size_gib,
        sizes.disk_size_gib,
    );
    let ghost grown = views(actions@);
    let actions = and(actions, VmAction::OpenDisk);
    let mut actions = and(actions, VmAction::InjectHostname(name.to_owned()));
    if args.kernel.is_some() {
        actions = and(actions, VmAction::EnsureKernel);
    }
    actions = and(actions, VmAction::SaveRecord);
    assert(views(actions@) =~= preparing_copy(
        name@,
        sizes.disk_size_gib,
        source.disk_size_gib,
        args.kernel is Some,
    ));
    let steps = with_undo(steps, actions, true, name);
    let done = "VM '".to_owned().concat(name).concat("' copied from '").concat(
        args.source.as_str(),
    ).concat("'.");
    let ghost before = plan(steps@);
    let steps = then_must(steps, VmAction::Say(done));
    assert(plan(steps@) =~= before + seq![must(VmView::Say(done@))]);
    then_start(steps, args.no_start, name)
}

/// Whether `r` is the record of a copy.
pub open spec fn is_copy_record(
    r: VmMetadata,
    args: CpArgs,
    source: VmMetadata,
    sizes: CopySizes,
    state_dir: Seq<char>,
    pending: VmMetadata,
    kernel_path: Option<Seq<char>>,
    created_at: Seq<char>,
) -> bool {
    &&& r.name@ == args.name@
    &&& is_random_uuid(r.id@)
    &&& r.status == VmStatus::Created
    &&& r.image@ == source.image@
    &&& r.cpus == sizes.cpus
    &&& r.memory_mib == sizes.memory_mib
    &&& r.disk_size_gib == sizes.disk_size_gib
    &&& r.kernel_path@ == (match kernel_path {
        Some(k) => k,
        None => source.kernel_path@,
    })
    &&& r.disk_path@ == pending.disk_path@
    &&& opt_text(r.boot_args) == opt_text(source.boot_args)
    &&& opt_text(r.subnet) == opt_text(first_of(args.network, source.subnet))
    &&& r.network is None
    &&& r.pid is None
    &&& r.api_socket@ == socket_of(state_dir, args.name@)
    &&& r.created_at@ == created_at
    &&& r.ssh == source.ssh
    &&& opt_text(r.parent_vm) == Some(args.source@)
    &&& r.thin_id == pending.thin_id
}

/// The record of a copy. `kernel_path` is the kernel that was asked for and
/// found, if one was.
pub fn copied_metadata(
    args: &CpArgs,
    source: &VmMetadata,
    sizes: CopySizes,
    state_dir: &str,
    pending: &VmMetadata,
    kernel_path: Option<&str>,
    created_at: &str,
) -> (r: VmMetadata)
    ensures
        is_copy_record(
            r,
            *args,
            *source,
            sizes,
            state_dir@,
            *pending,
            opt_str(kernel_path),
            created_at@,
        ),
{
    VmMetadata {
        name: args.name.clone(),
        id: fresh_id(),
        status: VmStatus::Created,
        image: source.image.clone(),
        cpus: sizes.cpus,
        memory_mib: sizes.memory_mib,
        disk_size_gib: sizes.disk_size_gib,
        kernel_path: match kernel_path {
            Some(k) => k.to_owned(),
            None => source.kernel_path.clone(),
        },
        disk_path: pending.disk_path.clone(),
        boot_args: copy_text(&source.boot_args),
        subnet: first_text(&args.network, &source.subnet),
        network: None,
        pid: None,
        api_socket: socket_path(state_dir, args.name.as_str()),
        created_at: created_at.to_owned(),
        ssh: source.ssh.clone(),
        parent_vm: Some(args.source.clone()),
        thin_id: pending.thin_id,
    }
}

/// The disk of a copy is never smaller than that of the machine.
pub proof fn law_copies_do_not_shrink(args: CpArgs, source: VmMetadata)
    ensures
        copy_sizes(args, source) matches Ok(s) ==> s.disk_size_gib >= source.disk_size_gib,
{
}

} // verus!
