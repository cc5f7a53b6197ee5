//! Which storage an installation has.

use vstd::prelude::*;

use crate::backend::InitConfig;
use crate::config::{GlobalConfig, StorageKind};
use crate::dm_thin_storage::{made_from, setting_up, DmThinStorage, InitProbe, PoolAction};
use crate::error::{outcome, Error};
use crate::procedure::{plan, Step};
use crate::usage::StorageUsage;
use crate::zfs::storage::{datasets_of, init_plan, LinuxStorage, ZfsAction, ZfsProbe};

verus! {

/// The storage of an installation.
#[derive(Debug)]
pub enum Storage {
    Zfs(LinuxStorage),
    DmThin(DmThinStorage),
}

/// The storage of an installation: a thin pool where the configuration says so,
/// and ZFS everywhere else. A thin pool wants to know what lies at its path.
pub fn create_storage(config: &GlobalConfig, path_is_dir: bool, path_exists: bool) -> (r: Storage)
    ensures
        match r {
            Storage::DmThin(s) => config.storage_backend == StorageKind::DmThin && made_from(
                s,
                *config,
                path_is_dir,
                path_exists,
            ),
            Storage::Zfs(s) => config.storage_backend != StorageKind::DmThin && datasets_of(
                s,
                *config,
            ),
        },
{
    match config.storage_backend {
        StorageKind::DmThin => Storage::DmThin(
            DmThinStorage::new(config, path_is_dir, path_exists),
        ),
        StorageKind::Zfs => Storage::Zfs(LinuxStorage::new(config)),
        StorageKind::Btrfs => Storage::Zfs(LinuxStorage::new(config)),
    }
}

/// What is there where storage is to be set up.
#[derive(Debug)]
pub enum StorageProbe {
    Zfs(ZfsProbe),
    /// What lies at the places of the pool, and what the tool recommends for its
    /// metadata.
    DmThin(InitProbe, Result<u64, Error>),
}

/// How storage is set up.
#[derive(Debug)]
pub enum StorageSetup {
    Zfs(Vec<Step<ZfsAction>>),
    /// With what the user is told in the end.
    DmThin(Vec<Step<PoolAction>>, String),
}

/// How the storage of an installation is set up, or why it cannot be: a thin pool
/// where the configuration says so, and ZFS everywhere else.
pub fn init_storage(config: &InitConfig, there: StorageProbe) -> (r: Result<StorageSetup, Error>)
    requires
        there is DmThin <==> config.storage_backend == StorageKind::DmThin,
    ensures
        match there {
            StorageProbe::Zfs(probe) => match (r, init_plan(*config, probe)) {
                (Ok(s), Ok(p)) => s is Zfs && plan(s->Zfs_0@) == p,
                (Err(e), Err(why)) => e@ == why,
                _ => false,
            },
            StorageProbe::DmThin(probe, recommended) => match (
                r,
                setting_up(*config, probe, outcome(recommended)),
            ) {
                (Ok(s), Ok((p, t))) => s is DmThin && plan(s->DmThin_0@) == p && s->DmThin_1@ == t,
                (Err(e), Err(why)) => e@ == why,
                _ => false,
            },
        },
{
    match there {
        StorageProbe::Zfs(probe) => match LinuxStorage::init(config, &probe) {
            Ok(steps) => Ok(StorageSetup::Zfs(steps)),
            Err(e) => Err(e),
        },
        StorageProbe::DmThin(probe, recommended) => match DmThinStorage::init(
            config,
            &probe,
            recommended,
        ) {
            Ok((steps, text)) => Ok(StorageSetup::DmThin(steps, text)),
            Err(e) => Err(e),
        },
    }
}

/// What is known of the usage, for commands that are about something else: they
/// go on when the storage cannot be asked.
pub fn try_usage(looked_up: Result<StorageUsage, Error>) -> (r: Option<StorageUsage>)
    ensures
        r == (match looked_up {
            Ok(u) => Some(u),
            Err(_) => None,
        }),
{
    match looked_up {
        Ok(u) => Some(u),
        Err(_) => None,
    }
}

} // verus!
