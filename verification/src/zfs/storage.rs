//! The disks of machines and images, as ZFS volumes.

use vstd::prelude::*;
use vstd::string::*;

use super::base_snapshot;
use super::pool::{health_text, PoolHealth};
use super::volume::{device_path, device_path_of};
use crate::backend::{InitConfig, SnapshotInfo};
use crate::command::{Invocation, InvocationView};
use crate::config::GlobalConfig;
use crate::error::{error_text, Error, ErrorView};
use crate::procedure::{
    may, must, must_or, no_steps, plan, then_all, then_may, then_must, then_must_or, Step, StepView,
};
use crate::size::{whole_units, ByteSize};
use crate::text::{
    around, lemma_around, lemma_texts_push, opt_text, same, split_once, texts,
};
use crate::vm::VmMetadata;

verus! {

/// Something to do to ZFS storage.
#[derive(Debug, PartialEq)]
pub enum ZfsAction {
    /// Tell the user.
    Say(String),
    /// Make a pool on a device.
    CreatePool(String, String),
    CreateDataset(String),
    /// Make a volume of so many MiB.
    CreateVolume(String, u64),
    /// Write the image to a volume, and take the snapshot that machines are
    /// cloned from.
    WriteImage(String),
    /// Destroy a volume with its snapshots.
    DestroyVolume(String),
    /// Make a volume, the second, from a snapshot, the first.
    CloneSnapshot(String, String),
    /// Take a snapshot of a volume.
    CreateSnapshot(String, String),
    /// Put a volume back to where it was at a snapshot.
    Rollback(String, String),
    DestroySnapshot(String, String),
    /// Give a volume a size, in GiB.
    SetSize(String, u32),
    /// Wait until a device shows.
    WaitFor(String),
    CheckFilesystem(String),
    GrowFilesystem(String),
}

/// A [`ZfsAction`], its strings taken by their texts.
#[verifier::ext_equal]
pub enum ZfsView {
    Say(Seq<char>),
    CreatePool(Seq<char>, Seq<char>),
    CreateDataset(Seq<char>),
    CreateVolume(Seq<char>, u64),
    WriteImage(Seq<char>),
    DestroyVolume(Seq<char>),
    CloneSnapshot(Seq<char>, Seq<char>),
    CreateSnapshot(Seq<char>, Seq<char>),
    Rollback(Seq<char>, Seq<char>),
    DestroySnapshot(Seq<char>, Seq<char>),
    SetSize(Seq<char>, u32),
    WaitFor(Seq<char>),
    CheckFilesystem(Seq<char>),
    GrowFilesystem(Seq<char>),
}

impl View for ZfsAction {
    type V = ZfsView;

    open spec fn view(&self) -> ZfsView {
        match self {
            ZfsAction::Say(s) => ZfsView::Say(s@),
            ZfsAction::CreatePool(p, d) => ZfsView::CreatePool(p@, d@),
            ZfsAction::CreateDataset(d) => ZfsView::CreateDataset(d@),
            ZfsAction::CreateVolume(v, n) => ZfsView::CreateVolume(v@, *n),
            ZfsAction::WriteImage(v) => ZfsView::WriteImage(v@),
            ZfsAction::DestroyVolume(v) => ZfsView::DestroyVolume(v@),
            ZfsAction::CloneSnapshot(s, v) => ZfsView::CloneSnapshot(s@, v@),
            ZfsAction::CreateSnapshot(v, s) => ZfsView::CreateSnapshot(v@, s@),
            ZfsAction::Rollback(v, s) => ZfsView::Rollback(v@, s@),
            ZfsAction::DestroySnapshot(v, s) => ZfsView::DestroySnapshot(v@, s@),
            ZfsAction::SetSize(v, n) => ZfsView::SetSize(v@, *n),
            ZfsAction::WaitFor(d) => ZfsView::WaitFor(d@),
            ZfsAction::CheckFilesystem(d) => ZfsView::CheckFilesystem(d@),
            ZfsAction::GrowFilesystem(d) => ZfsView::GrowFilesystem(d@),
        }
    }
}

/// How a pool is set up, or why it cannot be. `health` is that of the pool,
/// `None` when there is none yet.
pub open spec fn pool_plan(config: InitConfig, health: Option<Seq<char>>) -> Result<
    Seq<StepView<ZfsView>>,
    ErrorView,
> {
    match (health, config.device) {
        (Some(h), _) => Ok(
            seq![
                must(
                    ZfsView::Say(
                        "Pool '"@ + config.pool@ + "' already exists (health: "@ + h + ")"@,
                    ),
                ),
            ],
        ),
        (None, Some(device)) => Ok(
            seq![
                must(
                    ZfsView::Say(
                        "Creating ZFS pool '"@ + config.pool@ + "' on "@ + device@ + "..."@,
                    ),
                ),
                must(ZfsView::CreatePool(config.pool@, device@)),
                must(ZfsView::Say("Pool '"@ + config.pool@ + "' created."@)),
            ],
        ),
        (None, None) => Err(
            ErrorView::Zfs(
                "pool '"@ + config.pool@ + "' does not exist — provide --device to create it"@,
            ),
        ),
    }
}

/// The word for the health of a pool, where there is a pool.
pub open spec fn health_word(health: Option<&PoolHealth>) -> Option<Seq<char>> {
    match health {
        Some(h) => Some(health_text(h@)),
        None => None,
    }
}

/// How a pool is set up, or why it cannot be. `health` is that of the pool,
/// `None` when there is none yet.
pub fn init_pool(config: &InitConfig, health: Option<&PoolHealth>) -> (r: Result<
    Vec<Step<ZfsAction>>,
    Error,
>)
    ensures
        match r {
            Ok(steps) => pool_plan(*config, health_word(health)) == Ok::<
                Seq<StepView<ZfsView>>,
                ErrorView,
            >(plan(steps@)),
            Err(e) => pool_plan(*config, health_word(health)) == Err::<
                Seq<StepView<ZfsView>>,
                ErrorView,
            >(e@),
        },
{
    let pool = config.pool.as_str();
    match health {
        Some(h) => {
            let word = h.to_string();
            let m = "Pool '".to_owned().concat(pool).concat("' already exists (health: ").concat(
                word.as_str(),
            ).concat(")");
            let steps = then_must(no_steps(), ZfsAction::Say(m));
            assert(plan(steps@) =~= pool_plan(*config, health_word(health))->Ok_0);
            Ok(steps)
        },
        None => match &config.device {
            None => Err(
                Error::Zfs(
                    "pool '".to_owned().concat(pool).concat(
                        "' does not exist — provide --device to create it",
                    ),
                ),
            ),
            Some(device) => {
                let before = "Creating ZFS pool '".to_owned().concat(pool).concat(
                    "' on ",
                ).concat(device.as_str()).concat("...");
                let after = "Pool '".to_owned().concat(pool).concat("' created.");
                let steps = then_must(no_steps(), ZfsAction::Say(before));
                let steps = then_must(
                    steps,
                    ZfsAction::CreatePool(config.pool.clone(), device.clone()),
                );
                let steps = then_must(steps, ZfsAction::Say(after));
                assert(plan(steps@) =~= pool_plan(*config, health_word(health))->Ok_0);
                Ok(steps)
            },
        },
    }
}

/// The datasets of an installation: the one that holds the others, that of the
/// images and that of the machines.
pub open spec fn datasets(pool: Seq<char>, dataset: Seq<char>) -> (Seq<char>, Seq<char>, Seq<char>) {
    let base = pool + "/"@ + dataset;
    (base, base + "/images"@, base + "/vms"@)
}

/// The datasets of an installation.
pub fn dataset_names(config: &InitConfig) -> (r: (String, String, String))
    ensures
        (r.0@, r.1@, r.2@) == datasets(config.pool@, config.dataset@),
{
    let base = config.pool.clone().concat("/").concat(config.dataset.as_str());
    let images = base.clone().concat("/images");
    let vms = base.clone().concat("/vms");
    (base, images, vms)
}

/// How one dataset is set up, given whether it is there.
pub open spec fn dataset_plan(name: Seq<char>, there: bool) -> Seq<StepView<ZfsView>> {
    if there {
        seq![must(ZfsView::Say("Dataset '"@ + name + "' already exists."@))]
    } else {
        seq![
            must(ZfsView::Say("Creating dataset '"@ + name + "'..."@)),
            must(ZfsView::CreateDataset(name)),
        ]
    }
}

/// How one dataset is set up, given whether it is there.
pub fn init_dataset(name: &str, there: bool) -> (r: Vec<Step<ZfsAction>>)
    ensures
        plan(r@) == dataset_plan(name@, there),
{
    if there {
        let m = "Dataset '".to_owned().concat(name).concat("' already exists.");
        then_must(no_steps(), ZfsAction::Say(m))
    } else {
        let m = "Creating dataset '".to_owned().concat(name).concat("'...");
        let steps = then_must(no_steps(), ZfsAction::Say(m));
        then_must(steps, ZfsAction::CreateDataset(name.to_owned()))
    }
}

/// What is there of the storage of an installation.
#[derive(Debug)]
pub struct ZfsProbe {
    /// The health of the pool, where there is one.
    pub health: Option<PoolHealth>,
    /// Whether the dataset is there that holds the others.
    pub base_there: bool,
    pub images_there: bool,
    pub vms_there: bool,
}

/// The word for the health of a pool, where there is a pool.
pub open spec fn health_found(there: ZfsProbe) -> Option<Seq<char>> {
    match there.health {
        Some(h) => Some(health_text(h@)),
        None => None,
    }
}

/// How storage is set up, or why it cannot be: the pool first, then the dataset
/// that holds the others, then that of the images and that of the machines.
pub open spec fn init_plan(config: InitConfig, there: ZfsProbe) -> Result<
    Seq<StepView<ZfsView>>,
    ErrorView,
> {
    let (base, images, vms) = datasets(config.pool@, config.dataset@);
    match pool_plan(config, health_found(there)) {
        Err(e) => Err(e),
        Ok(pool) => Ok(
            pool + dataset_plan(base, there.base_there) + dataset_plan(images, there.images_there)
                + dataset_plan(vms, there.vms_there),
        ),
    }
}

/// A snapshot, as ZFS lists it.
#[derive(Debug, PartialEq)]
pub struct ZfsSnapshot {
    pub short_name: String,
    pub creation: u64,
    pub referenced: u64,
}

/// A snapshot, its name taken by its text.
pub open spec fn listed(s: ZfsSnapshot) -> (Seq<char>, u64, u64) {
    (s.short_name@, s.creation, s.referenced)
}

/// A snapshot, its name taken by its text.
pub open spec fn shown(s: SnapshotInfo) -> (Seq<char>, u64, u64) {
    (s.name@, s.created_at, s.size)
}

/// The snapshots of users: all but the one that machines are cloned from.
pub open spec fn without_base(all: Seq<ZfsSnapshot>) -> Seq<(Seq<char>, u64, u64)>
    decreases all.len(),
{
    if all.len() == 0 {
        seq![]
    } else if all.last().short_name@ == base_snapshot() {
        without_base(all.drop_last())
    } else {
        without_base(all.drop_last()).push(listed(all.last()))
    }
}

/// The names of the machines among the first `n` that were copied from one.
pub open spec fn copies_of(vms: Seq<VmMetadata>, name: Seq<char>, n: int) -> Seq<Seq<char>>
    decreases n,
{
    if n <= 0 {
        seq![]
    } else if opt_text(vms[n - 1].parent_vm) == Some(name) {
        copies_of(vms, name, n - 1).push(vms[n - 1].name@)
    } else {
        copies_of(vms, name, n - 1)
    }
}

/// The volumes of an installation.
#[derive(Debug)]
pub struct LinuxStorage {
    pub images_dataset: String,
    pub vms_dataset: String,
}

/// Whether `s` is where an installation keeps its volumes.
pub open spec fn datasets_of(s: LinuxStorage, config: GlobalConfig) -> bool {
    &&& s.images_dataset@ == config.pool@ + "/"@ + config.dataset@ + "/images"@
    &&& s.vms_dataset@ == config.pool@ + "/"@ + config.dataset@ + "/vms"@
}

/// What destroys the snapshot that a machine was cloned from: nothing when
/// the name is not that of a snapshot.
pub open spec fn origin_ending(fork_origin: Seq<char>) -> Option<ZfsView> {
    match around(fork_origin, '@') {
        None => None,
        Some((dataset, snap)) => Some(ZfsView::DestroySnapshot(dataset, snap)),
    }
}

impl LinuxStorage {
    /// The volumes of an installation.
    pub fn new(config: &GlobalConfig) -> (r: LinuxStorage)
        ensures
            datasets_of(r, *config),
    {
        LinuxStorage { images_dataset: config.images_dataset(), vms_dataset: config.vms_dataset() }
    }

    /// How storage is set up, or why it cannot be.
    pub fn init(config: &InitConfig, there: &ZfsProbe) -> (r: Result<Vec<Step<ZfsAction>>, Error>)
        ensures
            match r {
                Ok(steps) => init_plan(*config, *there) == Ok::<Seq<StepView<ZfsView>>, ErrorView>(
                    plan(steps@),
                ),
                Err(e) => init_plan(*config, *there) == Err::<Seq<StepView<ZfsView>>, ErrorView>(
                    e@,
                ),
            },
    {
        let steps = match init_pool(config, there.health.as_ref()) {
            Ok(steps) => steps,
            Err(e) => {
                return Err(e);
            },
        };
        let (base, images, vms) = dataset_names(config);
        let steps = then_all(steps, init_dataset(base.as_str(), there.base_there));
        let steps = then_all(steps, init_dataset(images.as_str(), there.images_there));
        Ok(then_all(steps, init_dataset(vms.as_str(), there.vms_there)))
    }

    /// The volume of an image.
    pub open spec fn image_volume(self, name: Seq<char>) -> Seq<char> {
        self.images_dataset@ + "/"@ + name
    }

    /// The volume of a machine.
    pub open spec fn vm_volume(self, name: Seq<char>) -> Seq<char> {
        self.vms_dataset@ + "/"@ + name
    }

    /// The volume of an image.
    pub fn image_zvol(&self, name: &str) -> (r: String)
        ensures
            r@ == self.image_volume(name@),
    {
        self.images_dataset.clone().concat("/").concat(name)
    }

    /// The volume of a machine.
    pub fn vm_zvol(&self, vm_name: &str) -> (r: String)
        ensures
            r@ == self.vm_volume(vm_name@),
    {
        self.vms_dataset.clone().concat("/").concat(vm_name)
    }

    /// How the volume of an image is made.
    pub open spec fn image_making(self, name: Seq<char>, size_mib: u64) -> Seq<StepView<ZfsView>> {
        seq![
            must(ZfsView::CreateVolume(self.image_volume(name), size_mib)),
            must_or(
                ZfsView::WriteImage(self.image_volume(name)),
                seq![ZfsView::DestroyVolume(self.image_volume(name))],
            ),
        ]
    }

    /// How the volume of a machine is made from that of an image.
    pub open spec fn machine_cloning(self, image: Seq<char>, vm: Seq<char>) -> Seq<
        StepView<ZfsView>,
    > {
        seq![
            must(
                ZfsView::CloneSnapshot(
                    self.image_volume(image) + "@"@ + base_snapshot(),
                    self.vm_volume(vm),
                ),
            ),
        ]
    }

    /// How the volume of a machine is made from that of another.
    pub open spec fn forking(self, source: Seq<char>, snap: Seq<char>, target: Seq<char>) -> Seq<
        StepView<ZfsView>,
    > {
        seq![
            must(ZfsView::CreateSnapshot(self.vm_volume(source), snap)),
            must_or(
                ZfsView::CloneSnapshot(
                    self.vm_volume(source) + "@"@ + snap,
                    self.vm_volume(target),
                ),
                seq![ZfsView::DestroySnapshot(self.vm_volume(source), snap)],
            ),
        ]
    }

    /// How the disk of a machine is made larger.
    pub open spec fn growing(self, vm: Seq<char>, gib: u32) -> Seq<StepView<ZfsView>> {
        let device = device_path_of(self.vm_volume(vm));
        seq![
            must(ZfsView::SetSize(self.vm_volume(vm), gib)),
            must(ZfsView::WaitFor(device)),
            must(ZfsView::CheckFilesystem(device)),
            must(ZfsView::GrowFilesystem(device)),
        ]
    }

    /// How a snapshot of a machine is taken.
    pub open spec fn taking(self, vm: Seq<char>, snap: Seq<char>) -> ZfsView {
        ZfsView::CreateSnapshot(self.vm_volume(vm), snap)
    }

    /// How a machine is put back to a snapshot.
    pub open spec fn putting_back(self, vm: Seq<char>, snap: Seq<char>) -> ZfsView {
        ZfsView::Rollback(self.vm_volume(vm), snap)
    }

    /// How a snapshot of a machine is deleted.
    pub open spec fn dropping(self, vm: Seq<char>, snap: Seq<char>) -> ZfsView {
        ZfsView::DestroySnapshot(self.vm_volume(vm), snap)
    }

    /// How the volume of a machine is destroyed.
    pub open spec fn machine_ending(self, vm: Seq<char>) -> Seq<StepView<ZfsView>> {
        seq![may(ZfsView::DestroyVolume(self.vm_volume(vm)))]
    }

    /// How the volume of an image is destroyed.
    pub open spec fn image_ending(self, name: Seq<char>) -> Seq<StepView<ZfsView>> {
        seq![must(ZfsView::DestroyVolume(self.image_volume(name)))]
    }

    /// How the volume of an image is made; it is destroyed again when the image
    /// cannot be written to it.
    pub fn create_image_volume(&self, name: &str, size_mib: u64) -> (r: (
        Vec<Step<ZfsAction>>,
        String,
    ))
        ensures
            plan(r.0@) == self.image_making(name@, size_mib),
            r.1@ == self.image_volume(name@),
    {
        let zvol = self.image_zvol(name);
        let steps = then_must(no_steps(), ZfsAction::CreateVolume(zvol.clone(), size_mib));
        let steps = then_must_or(
            steps,
            ZfsAction::WriteImage(zvol.clone()),
            ZfsAction::DestroyVolume(zvol.clone()),
        );
        (steps, zvol)
    }

    /// How the volume of a machine is made from that of an image, and its name;
    /// `snapshot_exists` says whether the image has the snapshot to clone from.
    pub fn clone_for_vm(&self, image_name: &str, vm_name: &str, snapshot_exists: bool) -> (r:
        Result<(Vec<Step<ZfsAction>>, String), Error>)
        ensures
            match r {
                Ok((steps, zvol)) => {
                    &&& snapshot_exists
                    &&& plan(steps@) == self.machine_cloning(image_name@, vm_name@)
                    &&& zvol@ == self.vm_volume(vm_name@)
                },
                Err(e) => !snapshot_exists && e@ == ErrorView::Zfs(
                    "image zvol '"@ + self.image_volume(image_name@) + "' has no @"@
                        + base_snapshot() + " snapshot — the image may be corrupted"@,
                ),
            },
    {
        let image_zvol = self.image_zvol(image_name);
        if !snapshot_exists {
            return Err(
                Error::Zfs(
                    "image zvol '".to_owned().concat(image_zvol.as_str()).concat(
                        "' has no @",
                    ).concat("base").concat(" snapshot — the image may be corrupted"),
                ),
            );
        }
        let snapshot = image_zvol.concat("@").concat("base");
        let vm_zvol = self.vm_zvol(vm_name);
        let steps = then_must(no_steps(), ZfsAction::CloneSnapshot(snapshot, vm_zvol.clone()));
        Ok((steps, vm_zvol))
    }

    /// How a snapshot of a machine is taken.
    pub fn snapshot(&self, vm_name: &str, snap_name: &str) -> (r: ZfsAction)
        ensures
            r@ == self.taking(vm_name@, snap_name@),
    {
        ZfsAction::CreateSnapshot(self.vm_zvol(vm_name), snap_name.to_owned())
    }

    /// How a machine is put back to a snapshot.
    pub fn restore_snapshot(&self, vm_name: &str, snap_name: &str) -> (r: ZfsAction)
        ensures
            r@ == self.putting_back(vm_name@, snap_name@),
    {
        ZfsAction::Rollback(self.vm_zvol(vm_name), snap_name.to_owned())
    }

    /// How a snapshot of a machine is deleted.
    pub fn delete_snapshot(&self, vm_name: &str, snap_name: &str) -> (r: ZfsAction)
        ensures
            r@ == self.dropping(vm_name@, snap_name@),
    {
        ZfsAction::DestroySnapshot(self.vm_zvol(vm_name), snap_name.to_owned())
    }

    /// The snapshots of users among those that ZFS lists.
    pub fn list_snapshots(all: &Vec<ZfsSnapshot>) -> (r: Vec<SnapshotInfo>)
        ensures
            r@.map_values(|s: SnapshotInfo| shown(s)) == without_base(all@),
    {
        let mut r: Vec<SnapshotInfo> = Vec::new();
        let mut i: usize = 0;
        assert(r@.map_values(|s: SnapshotInfo| shown(s)) =~= seq![]);
        while i < all.len()
            invariant
                i <= all.len(),
                r@.map_values(|s: SnapshotInfo| shown(s)) == without_base(all@.take(i as int)),
            decreases all.len() - i,
        {
            assert(all@.take(i + 1).drop_last() =~= all@.take(i as int));
            let s = &all[i];
            if !same(s.short_name.as_str(), "base") {
                let info = SnapshotInfo {
                    name: s.short_name.clone(),
                    created_at: s.creation,
                    size: s.referenced,
                };
                let ghost before = r@;
                r.push(info);
                assert(r@.map_values(|s: SnapshotInfo| shown(s)) =~= before.map_values(
                    |s: SnapshotInfo| shown(s),
                ).push(shown(info)));
            }
            i = i + 1;
        }
        assert(all@.take(i as int) =~= all@);
        r
    }

    /// How the disk of a machine is made larger, with the file system on it.
    pub fn resize(&self, vm_name: &str, new_size: ByteSize) -> (r: Result<
        Vec<Step<ZfsAction>>,
        Error,
    >)
        ensures
            match (r, whole_units(new_size.bytes(), crate::size::GIB, "GiB"@)) {
                (Ok(steps), Ok(gib)) => plan(steps@) == self.growing(vm_name@, gib),
                (Err(e), Err(why)) => e@ == ErrorView::Zfs("invalid resize target: "@ + why),
                _ => false,
            },
    {
        let zvol = self.vm_zvol(vm_name);
        let gib: u32 = match new_size.to_gib() {
            Ok(n) => n,
            Err(why) => {
                return Err(
                    Error::Zfs("invalid resize target: ".to_owned().concat(why.as_str())),
                );
            },
        };
        let steps = then_must(no_steps(), ZfsAction::SetSize(zvol.clone(), gib));
        let steps = then_must(steps, ZfsAction::WaitFor(device_path(zvol.as_str())));
        let steps = then_must(steps, ZfsAction::CheckFilesystem(device_path(zvol.as_str())));
        Ok(then_must(steps, ZfsAction::GrowFilesystem(device_path(zvol.as_str()))))
    }

    /// How the volume of a machine is destroyed. That it cannot be does not
    /// count.
    pub fn destroy_vm_storage(&self, vm_name: &str) -> (r: Vec<Step<ZfsAction>>)
        ensures
            plan(r@) == self.machine_ending(vm_name@),
    {
        then_may(no_steps(), ZfsAction::DestroyVolume(self.vm_zvol(vm_name)))
    }

    /// How the volume of an image is destroyed.
    pub fn destroy_image_storage(&self, name: &str) -> (r: Vec<Step<ZfsAction>>)
        ensures
            plan(r@) == self.image_ending(name@),
    {
        then_must(no_steps(), ZfsAction::DestroyVolume(self.image_zvol(name)))
    }

    /// The machines whose volumes depend on that of another: those that were copied
    /// from it, since a copy shares what the two have in common.
    pub fn storage_dependents(vms: &Vec<VmMetadata>, vm_name: &str) -> (r: Vec<String>)
        ensures
            texts(r@) == copies_of(vms@, vm_name@, vms@.len() as int),
    {
        let mut r: Vec<String> = Vec::new();
        let mut i: usize = 0;
        assert(texts(r@) =~= seq![]);
        while i < vms.len()
            invariant
                i <= vms.len(),
                texts(r@) == copies_of(vms@, vm_name@, i as int),
            decreases vms.len() - i,
        {
            let is_copy = match &vms[i].parent_vm {
                Some(p) => same(p.as_str(), vm_name),
                None => false,
            };
            if is_copy {
                let n = vms[i].name.clone();
                proof {
                    lemma_texts_push(r@, n);
                }
                r.push(n);
            }
            i = i + 1;
        }
        r
    }

    /// Where the disk of a machine shows.
    pub fn disk_device_path(&self, vm_name: &str) -> (r: String)
        ensures
            r@ == device_path_of(self.vm_volume(vm_name@)),
    {
        let zvol = self.vm_zvol(vm_name);
        device_path(zvol.as_str())
    }

    /// How the volume of a machine is made from that of another: a snapshot is
    /// taken and cloned, and destroyed again when it cannot be cloned. The name
    /// of the volume and that of the snapshot come with it.
    pub fn clone_from_snapshot(&self, source_vm: &str, snap_name: &str, target_vm: &str) -> (r: (
        Vec<Step<ZfsAction>>,
        String,
        String,
    ))
        ensures
            ({
                let source = self.vm_volume(source_vm@);
                let target = self.vm_volume(target_vm@);
                let full = source + "@"@ + snap_name@;
                &&& plan(r.0@) == self.forking(source_vm@, snap_name@, target_vm@)
                &&& r.1@ == target
                &&& r.2@ == full
            }),
    {
        let source = self.vm_zvol(source_vm);
        let target = self.vm_zvol(target_vm);
        let full = source.clone().concat("@").concat(snap_name);
        let steps = then_must(
            no_steps(),
            ZfsAction::CreateSnapshot(source.clone(), snap_name.to_owned()),
        );
        let steps = then_must_or(
            steps,
            ZfsAction::CloneSnapshot(full.clone(), target.clone()),
            ZfsAction::DestroySnapshot(source, snap_name.to_owned()),
        );
        (steps, target, full)
    }

    /// What destroys the snapshot that a machine was cloned from: nothing when
    /// the name is not that of a snapshot.
    pub fn destroy_fork_origin(fork_origin: &str) -> (r: Option<ZfsAction>)
        ensures
            match (r, origin_ending(fork_origin@)) {
                (Some(a), Some(x)) => a@ == x,
                (None, None) => true,
                _ => false,
            },
    {
        match split_once(fork_origin, '@') {
            None => None,
            Some((dataset, snap)) => Some(
                ZfsAction::DestroySnapshot(dataset.to_owned(), snap.to_owned()),
            ),
        }
    }

    /// The warning about a snapshot that could not be destroyed.
    pub fn fork_origin_warning(fork_origin: &str, e: &Error) -> (r: String)
        ensures
            r@ == "Warning: failed to clean up fork snapshot '"@ + fork_origin@ + "': "@
                + error_text(e@),
    {
        let cause = e.to_string();
        "Warning: failed to clean up fork snapshot '".to_owned().concat(fork_origin).concat(
            "': ",
        ).concat(cause.as_str())
    }
}

/// The call that checks a file system.
pub open spec fn check_call(device: Seq<char>) -> InvocationView {
    InvocationView {
        program: "e2fsck"@,
        args: seq!["-f"@, "-p"@, device],
        label: "e2fsck"@,
        start_label: "e2fsck"@,
    }
}

/// The call that checks a file system, for [`crate::command::check_fsck`] to
/// judge.
pub fn e2fsck(device: &str) -> (r: Invocation)
    ensures
        r@ == check_call(device@),
{
    Invocation::new("e2fsck", "e2fsck").arg("-f").arg("-p").arg(device)
}

/// The call that makes a file system fill its device.
pub open spec fn grow_call(device: Seq<char>) -> InvocationView {
    InvocationView {
        program: "resize2fs"@,
        args: seq![device],
        label: "resize2fs"@,
        start_label: "resize2fs"@,
    }
}

/// The call that makes a file system fill its device.
pub fn resize2fs(device: &str) -> (r: Invocation)
    ensures
        r@ == grow_call(device@),
{
    Invocation::new("resize2fs", "resize2fs").arg(device)
}

/// The disks of different machines are different volumes.
pub proof fn law_volumes_are_apart(s: LinuxStorage, a: Seq<char>, b: Seq<char>)
    requires
        a != b,
    ensures
        s.vm_volume(a) != s.vm_volume(b),
        s.image_volume(a) != s.image_volume(b),
{
    let v = s.vms_dataset@ + "/"@;
    let i = s.images_dataset@ + "/"@;
    assert((v + a).skip(v.len() as int) =~= a);
    assert((v + b).skip(v.len() as int) =~= b);
    assert((i + a).skip(i.len() as int) =~= a);
    assert((i + b).skip(i.len() as int) =~= b);
}

/// What is kept of the origin of a copy leads back to the snapshot that was taken for it,
/// and to that alone.
pub proof fn law_the_origin_of_a_copy_is_found(
    s: LinuxStorage,
    source: Seq<char>,
    snap: Seq<char>,
    target: Seq<char>,
)
    requires
        !s.vm_volume(source).contains('@'),
    ensures
        ({
            let p = s.forking(source, snap, target);
            let end = origin_ending(s.vm_volume(source) + "@"@ + snap);
            &&& p[0].action == ZfsView::CreateSnapshot(s.vm_volume(source), snap)
            &&& end == Some(ZfsView::DestroySnapshot(s.vm_volume(source), snap))
            &&& p[1].undo == seq![end->0]
        }),
{
    reveal_strlit("@");
    assert("@"@ =~= seq!['@']);
    lemma_around(s.vm_volume(source), '@', snap);
}

/// The snapshots that are shown are those of users: all but the one that machines are
/// cloned from, in their order.
pub proof fn law_the_base_is_not_shown(all: Seq<ZfsSnapshot>)
    ensures
        forall|i: int|
            0 <= i < without_base(all).len() ==> (#[trigger] without_base(all)[i]).0 != "base"@,
        forall|k: int|
            0 <= k < all.len() && (#[trigger] all[k]).short_name@ != "base"@ ==> without_base(
                all,
            ).contains(listed(all[k])),
        without_base(all).len() <= all.len(),
    decreases all.len(),
{
    if all.len() > 0 {
        let before = all.drop_last();
        law_the_base_is_not_shown(before);
        let w = without_base(before);
        assert forall|k: int|
            0 <= k < all.len() && (#[trigger] all[k]).short_name@ != "base"@ implies without_base(
            all,
        ).contains(listed(all[k])) by {
            if k < before.len() {
                assert(before[k] == all[k]);
                assert(w.contains(listed(all[k])));
                let j = choose|j: int| 0 <= j < w.len() && w[j] == listed(all[k]);
                assert(without_base(all)[j] == w[j]);
            } else {
                assert(without_base(all)[w.len() as int] == listed(all[k]));
            }
        }
    }
}

/// The machines that depend on the volume of another are those that say they were copied
/// from it, and no others.
pub proof fn law_copies_depend_on_their_source(vms: Seq<VmMetadata>, name: Seq<char>, n: int)
    requires
        0 <= n <= vms.len(),
    ensures
        forall|i: int|
            0 <= i < n && opt_text((#[trigger] vms[i]).parent_vm) == Some(name) ==> copies_of(
                vms,
                name,
                n,
            ).contains(vms[i].name@),
        forall|j: int|
            0 <= j < copies_of(vms, name, n).len() ==> exists|i: int|
                0 <= i < n && (#[trigger] vms[i]).name@ == (#[trigger] copies_of(vms, name, n)[j])
                    && opt_text(vms[i].parent_vm) == Some(name),
    decreases n,
{
    if n > 0 {
        law_copies_depend_on_their_source(vms, name, n - 1);
        let before = copies_of(vms, name, n - 1);
        let all = copies_of(vms, name, n);
        assert forall|i: int|
            0 <= i < n && opt_text((#[trigger] vms[i]).parent_vm) == Some(
                name,
            ) implies all.contains(vms[i].name@) by {
            if i < n - 1 {
                assert(before.contains(vms[i].name@));
                let j = choose|j: int| 0 <= j < before.len() && before[j] == vms[i].name@;
                assert(all[j] == before[j]);
            } else {
                assert(all[before.len() as int] == vms[i].name@);
            }
        }
        assert forall|j: int| 0 <= j < all.len() implies exists|i: int|
            0 <= i < n && (#[trigger] vms[i]).name@ == (#[trigger] all[j]) && opt_text(
                vms[i].parent_vm,
            ) == Some(name) by {
            if j < before.len() {
                assert(all[j] == before[j]);
                let i = choose|i: int|
                    0 <= i < n - 1 && (#[trigger] vms[i]).name@ == before[j] && opt_text(
                        vms[i].parent_vm,
                    ) == Some(name);
                assert(vms[i].name@ == all[j]);
            } else {
                assert(vms[n - 1].name@ == all[j]);
            }
        }
    }
}

/// A file system is checked before it is grown on the device itself, even where it seems to
/// be in order.
pub proof fn law_filesystem_calls(device: Seq<char>)
    ensures
        check_call(device).program == "e2fsck"@ && check_call(device).args.contains("-f"@),
        check_call(device).args.last() == device,
        grow_call(device).program == "resize2fs"@ && grow_call(device).args == seq![device],
{
    assert(check_call(device).args[0] == "-f"@);
}

} // verus!
