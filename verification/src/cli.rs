//! The commands: what they check, what they do and what they print.

pub mod cp;
pub mod debug;
pub mod deinit;
pub mod exec;
pub mod fmt;
pub mod image;
pub mod info;
pub mod init;
pub mod kernel;
pub mod lifecycle;
pub mod records;
pub mod shelf;
pub mod snapshot;
pub mod ssh;
pub mod storage;
pub mod vm;
pub mod world;

use crate::cli::cp::CpArgs;
use crate::cli::debug::DebugCommand;
use crate::cli::deinit::DeinitArgs;
use crate::cli::exec::ExecArgs;
use crate::cli::image::ImageCommand;
use crate::cli::init::InitArgs;
use crate::cli::kernel::KernelCommand;
use crate::cli::snapshot::SnapshotCommand;
use crate::cli::ssh::SshArgs;
use crate::cli::storage::StorageCommand;
use crate::cli::vm::VmCommand;
use vstd::prelude::*;

verus! {

/// Where the state of an installation lies, and what to do with it.
#[derive(Debug)]
pub struct Cli {
    pub state_dir: String,
    pub command: Command,
}

/// What to do with an installation.
#[derive(Debug)]
pub enum Command {
    Init(InitArgs),
    Deinit(DeinitArgs),
    Info,
    Vm(VmCommand),
    Image(ImageCommand),
    Snapshot(SnapshotCommand),
    Storage(StorageCommand),
    Kernel(KernelCommand),
    Debug(DebugCommand),
    Exec(ExecArgs),
    Ssh(SshArgs),
    Cp(CpArgs),
    Version,
}

} // verus!
