//! What the parts of the system hand to each other.

use vstd::prelude::*;
use vstd::string::*;

use crate::config::{DmThinMode, StorageKind, VdoConfig};
use crate::procedure::{
    must, must_or, no_steps, plan, then_must, then_must_or, Step, StepView,
};
use crate::size::ByteSize;
use crate::vm::NetworkInfo;

verus! {

/// A machine that was started.
#[derive(Debug)]
pub struct StartedVm {
    pub pid: u32,
    pub network: NetworkInfo,
}

/// A disk that was made.
#[derive(Debug, PartialEq)]
pub struct VolumeHandle {
    pub disk_path: String,
    /// Its id in a thin pool.
    pub thin_id: Option<u64>,
}

impl VolumeHandle {
    /// A disk that is known by its path alone.
    pub fn from_path(path: String) -> (r: VolumeHandle)
        ensures
            r.disk_path == path,
            r.thin_id is None,
    {
        VolumeHandle { disk_path: path, thin_id: None }
    }
}

/// What a pool is to become.
#[derive(Clone, Copy, Debug, PartialEq, Eq, Structural)]
pub struct GrowRequest {
    pub physical_size: Option<ByteSize>,
    pub logical_size: Option<ByteSize>,
}

/// What storage is set up from.
#[derive(Debug)]
pub struct InitConfig {
    pub storage_backend: StorageKind,
    pub state_dir: String,
    pub instance_id: String,
    pub pool: String,
    pub dataset: String,
    pub device: Option<String>,
    pub storage_path: Option<String>,
    pub btrfs_size: Option<String>,
    pub dm_thin_size: Option<ByteSize>,
    pub dm_thin_metadata_size: Option<ByteSize>,
    pub dm_thin_block_size: Option<u32>,
    pub dm_thin_mode: Option<DmThinMode>,
    pub vdo: Option<VdoConfig>,
}

/// What is known of a snapshot.
#[derive(Debug, PartialEq)]
pub struct SnapshotInfo {
    pub name: String,
    /// The seconds from 1970 to when it was made.
    pub created_at: u64,
    pub size: u64,
}

/// How a machine learns of name servers.
#[derive(Debug, PartialEq)]
pub enum ResolvConfMode {
    /// A link to this file.
    Symlink(String),
    /// A file with this text.
    StaticContent(String),
}

/// The tools that images are unpacked with.
#[derive(Debug, PartialEq)]
pub struct ImageToolConfig {
    pub tar_command: String,
    pub needs_fakeroot: bool,
    /// The operating system to ask a registry for, when it is not the host's.
    pub override_os: Option<String>,
}

/// Something to do to put something into a disk.
#[derive(Debug, PartialEq)]
pub enum InjectAction {
    Mount,
    /// Find the user who gets the key, and put it there.
    InjectKey,
    /// Put a name there.
    InjectHosts(String),
    Unmount,
}

/// An [`InjectAction`], its string taken by its text.
#[verifier::ext_equal]
pub enum InjectView {
    Mount,
    InjectKey,
    InjectHosts(Seq<char>),
    Unmount,
}

impl View for InjectAction {
    type V = InjectView;

    open spec fn view(&self) -> InjectView {
        match self {
            InjectAction::Mount => InjectView::Mount,
            InjectAction::InjectKey => InjectView::InjectKey,
            InjectAction::InjectHosts(n) => InjectView::InjectHosts(n@),
            InjectAction::Unmount => InjectView::Unmount,
        }
    }
}

/// How something is put into a disk: once it is mounted it is unmounted again,
/// whatever happens.
pub open spec fn injecting(what: InjectView) -> Seq<StepView<InjectView>> {
    seq![
        must(InjectView::Mount),
        must_or(what, seq![InjectView::Unmount]),
        must(InjectView::Unmount),
    ]
}

fn inject(what: InjectAction) -> (r: Vec<Step<InjectAction>>)
    ensures
        plan(r@) == injecting(what@),
{
    let steps = then_must(no_steps(), InjectAction::Mount);
    let steps = then_must_or(steps, what, InjectAction::Unmount);
    then_must(steps, InjectAction::Unmount)
}

/// How a key for logging in is put into a disk.
pub fn inject_ssh_key() -> (r: Vec<Step<InjectAction>>)
    ensures
        plan(r@) == injecting(InjectView::InjectKey),
{
    inject(InjectAction::InjectKey)
}

/// How a name is put into a disk.
pub fn inject_hostname(hostname: &str) -> (r: Vec<Step<InjectAction>>)
    ensures
        plan(r@) == injecting(InjectView::InjectHosts(hostname@)),
{
    inject(InjectAction::InjectHosts(hostname.to_owned()))
}

} // verus!
