//! What becomes of volumes and of what they hold.

use vstd::prelude::*;
use vstd::string::*;

use super::base_snapshot;
use super::dataset;
use super::pool;
use super::storage::{datasets, init_plan, LinuxStorage, ZfsProbe, ZfsView};
use super::volume::{clone_call, create_call, destroy_call, device_path_of, set_volsize_call};
use crate::backend::InitConfig;
use crate::procedure::StepView;
use crate::text::{around, dec, lemma_around, lemma_dec_parsed, parsed};

verus! {

/// A volume: its size in bytes, what it holds, how much of it the file system fills,
/// whether that was checked since, and what it held when its snapshots were taken.
#[verifier::ext_equal]
pub struct Volume {
    pub bytes: nat,
    pub holds: Seq<u8>,
    pub filled: nat,
    pub checked: bool,
    pub snapshots: Map<Seq<char>, Seq<u8>>,
}

/// The volumes of a pool, and the image that is to be written next.
#[verifier::ext_equal]
pub struct Volumes {
    pub all: Map<Seq<char>, Volume>,
    pub image: Seq<u8>,
}

impl Volumes {
    /// The same, with one volume changed or added.
    pub open spec fn with(self, name: Seq<char>, v: Volume) -> Volumes {
        Volumes { all: self.all.insert(name, v), ..self }
    }
}

/// What one action makes of the volumes; `None` where it cannot be done.
pub open spec fn effect(w: Volumes, a: ZfsView) -> Option<Volumes> {
    match a {
        ZfsView::CreateVolume(v, mib) => if w.all.contains_key(v) {
            None
        } else {
            Some(
                w.with(
                    v,
                    Volume {
                        bytes: (mib * 1048576) as nat,
                        holds: seq![],
                        filled: 0,
                        checked: false,
                        snapshots: Map::empty(),
                    },
                ),
            )
        },
        ZfsView::WriteImage(v) => if w.all.contains_key(v) {
            Some(
                w.with(
                    v,
                    Volume {
                        holds: w.image,
                        filled: w.all[v].bytes,
                        snapshots: w.all[v].snapshots.insert("base"@, w.image),
                        ..w.all[v]
                    },
                ),
            )
        } else {
            None
        },
        ZfsView::DestroyVolume(v) => if w.all.contains_key(v) {
            Some(Volumes { all: w.all.remove(v), ..w })
        } else {
            None
        },
        ZfsView::CloneSnapshot(from, v) => match around(from, '@') {
            Some((source, snap)) => if w.all.contains_key(source)
                && w.all[source].snapshots.contains_key(snap) && !w.all.contains_key(v) {
                Some(
                    w.with(
                        v,
                        Volume {
                            holds: w.all[source].snapshots[snap],
                            checked: false,
                            snapshots: Map::empty(),
                            ..w.all[source]
                        },
                    ),
                )
            } else {
                None
            },
            None => None,
        },
        ZfsView::CreateSnapshot(v, snap) => if w.all.contains_key(v)
            && !w.all[v].snapshots.contains_key(snap) {
            Some(
                w.with(
                    v,
                    Volume {
                        snapshots: w.all[v].snapshots.insert(snap, w.all[v].holds),
                        ..w.all[v]
                    },
                ),
            )
        } else {
            None
        },
        ZfsView::Rollback(v, snap) => if w.all.contains_key(v)
            && w.all[v].snapshots.contains_key(snap) {
            Some(w.with(v, Volume { holds: w.all[v].snapshots[snap], ..w.all[v] }))
        } else {
            None
        },
        ZfsView::DestroySnapshot(v, snap) => if w.all.contains_key(v)
            && w.all[v].snapshots.contains_key(snap) {
            Some(
                w.with(
                    v,
                    Volume { snapshots: w.all[v].snapshots.remove(snap), ..w.all[v] },
                ),
            )
        } else {
            None
        },
        ZfsView::SetSize(v, gib) => if w.all.contains_key(v) {
            Some(w.with(v, Volume { bytes: (gib * 1073741824) as nat, checked: false, ..w.all[v] }))
        } else {
            None
        },
        ZfsView::CheckFilesystem(d) => match shown_at(d) {
            Some(v) if w.all.contains_key(v) => Some(
                w.with(v, Volume { checked: true, ..w.all[v] }),
            ),
            _ => None,
        },
        // A file system is grown only after it was checked.
        ZfsView::GrowFilesystem(d) => match shown_at(d) {
            Some(v) if w.all.contains_key(v) && w.all[v].checked => Some(
                w.with(v, Volume { filled: w.all[v].bytes, ..w.all[v] }),
            ),
            _ => None,
        },
        _ => Some(w),
    }
}

/// The volume that shows at a device.
pub open spec fn shown_at(device: Seq<char>) -> Option<Seq<char>> {
    if device.len() >= 10 && device.take(10) == "/dev/zvol/"@ {
        Some(device.skip(10))
    } else {
        None
    }
}

proof fn lemma_snapshot_of(v: Seq<char>, snap: Seq<char>)
    requires
        !v.contains('@'),
    ensures
        around(v + "@"@ + snap, '@') == Some((v, snap)),
{
    reveal_strlit("@");
    lemma_around(v, '@', snap);
    assert("@"@ =~= seq!['@']);
}

proof fn lemma_shown(v: Seq<char>)
    ensures
        shown_at(device_path_of(v)) == Some(v),
{
    reveal_strlit("/dev/zvol/");
    let d = device_path_of(v);
    assert(d.take(10) =~= "/dev/zvol/"@);
    assert(d.skip(10) =~= v);
}

/// What the disk of a new machine holds is what the image holds that was written for it;
/// the image stays as it is.
pub proof fn law_a_new_disk_holds_the_image(
    s: LinuxStorage,
    image: Seq<char>,
    size_mib: u64,
    vm: Seq<char>,
    w: Volumes,
)
    requires
        !w.all.contains_key(s.image_volume(image)),
        !w.all.contains_key(s.vm_volume(vm)),
        s.image_volume(image) != s.vm_volume(vm),
        !s.image_volume(image).contains('@'),
    ensures
        ({
            let make = s.image_making(image, size_mib);
            let clone = s.machine_cloning(image, vm);
            let w1 = effect(w, make[0].action);
            let w2 = effect(w1->0, make[1].action);
            let w3 = effect(w2->0, clone[0].action);
            &&& make.len() == 2 && clone.len() == 1
            &&& w1 is Some && w2 is Some && w3 is Some
            &&& w3->0.all[s.vm_volume(vm)].holds == w.image
            &&& w3->0.all[s.vm_volume(vm)].bytes == size_mib * 1048576
            &&& w3->0.all.remove(s.vm_volume(vm)) == w2->0.all
            &&& w2->0.all[s.image_volume(image)].holds == w.image
            &&& w2->0.all.remove(s.image_volume(image)) == w.all
            // What cannot be written leaves nothing.
            &&& make[1].undo.len() == 1
            &&& effect(w1->0, make[1].undo[0]) == Some(w)
        }),
{
    lemma_snapshot_of(s.image_volume(image), base_snapshot());
    let make = s.image_making(image, size_mib);
    let w1 = effect(w, make[0].action)->0;
    let w2 = effect(w1, make[1].action)->0;
    let w3 = effect(w2, s.machine_cloning(image, vm)[0].action)->0;
    assert(w3.all.remove(s.vm_volume(vm)) =~= w2.all);
    assert(w2.all.remove(s.image_volume(image)) =~= w.all);
    assert(effect(w1, make[1].undo[0])->0.all =~= w.all);
}

/// The disk of a copy holds what the disk of its source holds, and the source goes on as
/// it is. When the copy could not be made, nothing is left of it.
pub proof fn law_a_fork_holds_what_its_source_holds(
    s: LinuxStorage,
    source: Seq<char>,
    snap: Seq<char>,
    target: Seq<char>,
    w: Volumes,
)
    requires
        w.all.contains_key(s.vm_volume(source)),
        !w.all.contains_key(s.vm_volume(target)),
        !w.all[s.vm_volume(source)].snapshots.contains_key(snap),
        !s.vm_volume(source).contains('@'),
    ensures
        ({
            let p = s.forking(source, snap, target);
            let w1 = effect(w, p[0].action);
            let w2 = effect(w1->0, p[1].action);
            &&& p.len() == 2
            &&& w1 is Some && w2 is Some
            &&& w2->0.all[s.vm_volume(target)].holds == w.all[s.vm_volume(source)].holds
            &&& w2->0.all[s.vm_volume(target)].bytes == w.all[s.vm_volume(source)].bytes
            &&& w2->0.all[s.vm_volume(source)].holds == w.all[s.vm_volume(source)].holds
            &&& w2->0.all[s.vm_volume(source)].snapshots.remove(snap)
                == w.all[s.vm_volume(source)].snapshots
            &&& p[1].undo.len() == 1
            &&& effect(w1->0, p[1].undo[0]) == Some(w)
        }),
{
    let v = s.vm_volume(source);
    lemma_snapshot_of(v, snap);
    let p = s.forking(source, snap, target);
    let w1 = effect(w, p[0].action)->0;
    let back = effect(w1, p[1].undo[0])->0;
    assert(back.all[v].snapshots =~= w.all[v].snapshots);
    assert(back.all[v] =~= w.all[v]);
    assert(back.all =~= w.all);
    let w2 = effect(w1, p[1].action)->0;
    assert(w2.all[v].snapshots.remove(snap) =~= w.all[v].snapshots);
}

/// A machine that is put back to a snapshot holds what it held when the snapshot was
/// taken, whatever it has held since.
pub proof fn law_restoring_gives_back_what_was_held(
    s: LinuxStorage,
    vm: Seq<char>,
    snap: Seq<char>,
    w: Volumes,
    since: Seq<u8>,
)
    requires
        w.all.contains_key(s.vm_volume(vm)),
        !w.all[s.vm_volume(vm)].snapshots.contains_key(snap),
    ensures
        ({
            let v = s.vm_volume(vm);
            let taken = effect(w, s.taking(vm, snap));
            let later = taken->0.with(v, Volume { holds: since, ..taken->0.all[v] });
            let back = effect(later, s.putting_back(vm, snap));
            let dropped = effect(taken->0, s.dropping(vm, snap));
            &&& taken is Some
            &&& taken->0.all[v].holds == w.all[v].holds
            &&& back is Some
            &&& back->0.all[v].holds == w.all[v].holds
            &&& back->0.all.remove(v) == w.all.remove(v)
            &&& dropped == Some(w)
        }),
{
    let v = s.vm_volume(vm);
    let taken = effect(w, s.taking(vm, snap))->0;
    let later = taken.with(v, Volume { holds: since, ..taken.all[v] });
    let back = effect(later, s.putting_back(vm, snap))->0;
    assert(back.all.remove(v) =~= w.all.remove(v));
    let dropped = effect(taken, s.dropping(vm, snap))->0;
    assert(dropped.all[v].snapshots =~= w.all[v].snapshots);
    assert(dropped.all[v] =~= w.all[v]);
    assert(dropped.all =~= w.all);
}

/// A disk that is made larger has the size that was asked for, its file system fills it,
/// and it holds what it held. The device has to show before it is looked at.
pub proof fn law_a_larger_disk_is_filled(s: LinuxStorage, vm: Seq<char>, gib: u32, w: Volumes)
    requires
        w.all.contains_key(s.vm_volume(vm)),
    ensures
        ({
            let v = s.vm_volume(vm);
            let p = s.growing(vm, gib);
            let w1 = effect(w, p[0].action);
            let w2 = effect(w1->0, p[2].action);
            let w3 = effect(w2->0, p[3].action);
            &&& p.len() == 4
            &&& w1 is Some && w2 is Some && w3 is Some
            &&& p[1].action == ZfsView::WaitFor("/dev/zvol/"@ + v)
            &&& w3->0.all[v].bytes == gib * 1073741824
            &&& w3->0.all[v].filled == gib * 1073741824
            &&& w3->0.all[v].holds == w.all[v].holds
            &&& w3->0.all.remove(v) == w.all.remove(v)
            &&& forall|i: int| 0 <= i < 4 ==> !(#[trigger] p[i]).tolerate
        }),
{
    let v = s.vm_volume(vm);
    lemma_shown(v);
    let p = s.growing(vm, gib);
    let w1 = effect(w, p[0].action)->0;
    let w2 = effect(w1, p[2].action)->0;
    let w3 = effect(w2, p[3].action)->0;
    assert(w3.all.remove(v) =~= w.all.remove(v));
}

/// The disk of a machine or of an image that is destroyed is gone, and no other. That the
/// disk of a machine cannot be destroyed does not stop the rest.
pub proof fn law_a_destroyed_volume_is_gone(
    s: LinuxStorage,
    name: Seq<char>,
    w: Volumes,
)
    ensures
        ({
            let m = s.machine_ending(name);
            let i = s.image_ending(name);
            &&& m.len() == 1 && m[0].tolerate
            &&& i.len() == 1 && !i[0].tolerate
            &&& w.all.contains_key(s.vm_volume(name)) ==> effect(w, m[0].action) == Some(
                Volumes { all: w.all.remove(s.vm_volume(name)), ..w },
            )
            &&& w.all.contains_key(s.image_volume(name)) ==> effect(w, i[0].action) == Some(
                Volumes { all: w.all.remove(s.image_volume(name)), ..w },
            )
        }),
{
}

// ---------------------------------------------------------------------
// Calls
// ---------------------------------------------------------------------

/// The bytes that a size in the words of the tool stands for.
pub open spec fn size_read(t: Seq<char>) -> Option<nat> {
    if t.len() == 0 {
        None
    } else {
        match parsed(t.drop_last(), u64::MAX as nat) {
            Some(n) => if t.last() == 'M' {
                Some(n * 1048576)
            } else if t.last() == 'G' {
                Some(n * 1073741824)
            } else {
                None
            },
            None => None,
        }
    }
}

proof fn lemma_size_read(n: nat)
    requires
        n <= u64::MAX,
    ensures
        size_read(dec(n) + "M"@) == Some(n * 1048576),
        size_read(dec(n) + "G"@) == Some(n * 1073741824),
{
    reveal_strlit("M");
    reveal_strlit("G");
    lemma_dec_parsed(n, u64::MAX as nat);
    assert((dec(n) + "M"@).drop_last() =~= dec(n));
    assert((dec(n) + "G"@).drop_last() =~= dec(n));
}

/// The calls for volumes ask for what the plans speak of: one makes a volume of so many
/// MiB, one a volume from a snapshot, one gives a volume so many GiB, and one destroys a
/// volume, with all that hangs on it where that is wanted.
pub proof fn law_calls_do_what_is_planned(
    v: Seq<char>,
    mib: u64,
    gib: u32,
    snapshot: Seq<char>,
    recursive: bool,
)
    ensures
        ({
            let a = create_call(v, mib).args;
            &&& create_call(v, mib).program == "zfs"@
            &&& a.len() == 5 && a[0] == "create"@ && a.contains("-p"@)
            &&& a[2] == "-V"@ && size_read(a[3]) == Some((mib * 1048576) as nat)
            &&& a.last() == v
        }),
        ({
            let a = clone_call(snapshot, v).args;
            &&& clone_call(snapshot, v).program == "zfs"@
            &&& a.len() == 4 && a[0] == "clone"@ && a[1] == "-p"@ && a[2] == snapshot && a[3] == v
        }),
        ({
            let a = set_volsize_call(v, gib).args;
            &&& set_volsize_call(v, gib).program == "zfs"@
            &&& a.len() == 3 && a[0] == "set"@ && a[2] == v
            &&& a[1].len() > 8 && a[1].take(8) == "volsize="@ && size_read(a[1].skip(8)) == Some(
                (gib * 1073741824) as nat,
            )
        }),
        ({
            let a = destroy_call(v, recursive).args;
            &&& destroy_call(v, recursive).program == "zfs"@
            &&& a[0] == "destroy"@ && a.last() == v
            &&& a.len() == (if recursive {
                3int
            } else {
                2int
            })
            &&& recursive ==> a[1] == "-r"@
        }),
{
    lemma_size_read(mib as nat);
    lemma_size_read(gib as nat);
    reveal_strlit("volsize=");
    let a = create_call(v, mib).args;
    assert(a[1] == "-p"@);
    let b = set_volsize_call(v, gib).args[1];
    assert(b.take(8) =~= "volsize="@);
    assert(b.skip(8) =~= dec(gib as nat) + "G"@);
    crate::text::lemma_dec_value(gib as nat);
}

/// The calls that set storage up make a pool on the device and datasets that are mounted
/// nowhere.
pub proof fn law_setup_calls(p: Seq<char>, device: Seq<char>, d: Seq<char>)
    ensures
        ({
            let a = pool::create_call(p, device).args;
            &&& pool::create_call(p, device).program == "zpool"@
            &&& a[0] == "create"@ && a[a.len() - 2] == p && a.last() == device
            &&& a.contains("mountpoint=none"@) && a.contains("ashift=12"@)
        }),
        ({
            let a = dataset::create_call(d).args;
            &&& dataset::create_call(d).program == "zfs"@
            &&& a.len() == 5 && a[0] == "create"@ && a.last() == d
            &&& a[1] == "-p"@ && a[2] == "-o"@ && a[3] == "mountpoint=none"@
        }),
{
    let a = pool::create_call(p, device).args;
    assert(a[3] == "ashift=12"@);
    assert(a[5] == "mountpoint=none"@);
}

/// Whether a step of a plan makes this dataset.
pub open spec fn makes(p: Seq<StepView<ZfsView>>, d: Seq<char>) -> bool {
    exists|i: int| 0 <= i < p.len() && (#[trigger] p[i]).action == ZfsView::CreateDataset(d)
}

/// Storage that is set up has a pool and three datasets: whatever is not there is made,
/// what is there is left alone, and what holds others is made before them. A pool that is
/// not there needs a device.
pub proof fn law_setting_up_storage(config: InitConfig, there: ZfsProbe)
    ensures
        ({
            let base = config.pool@ + "/"@ + config.dataset@;
            match init_plan(config, there) {
                Err(_) => there.health is None && config.device is None,
                Ok(p) => {
                    &&& there.health is Some || config.device is Some
                    &&& (exists|i: int|
                        0 <= i < p.len() && (#[trigger] p[i]).action is CreatePool)
                        <==> there.health is None
                    &&& forall|i: int|
                        0 <= i < p.len() && (#[trigger] p[i]).action is CreatePool ==> p[i].action
                            == ZfsView::CreatePool(config.pool@, config.device->0@)
                    &&& !there.base_there ==> makes(p, base)
                    &&& !there.images_there ==> makes(p, base + "/images"@)
                    &&& !there.vms_there ==> makes(p, base + "/vms"@)
                    &&& forall|i: int, j: int|
                        0 <= i < p.len() && 0 <= j < p.len() && (#[trigger] p[i]).action
                            is CreatePool && (#[trigger] p[j]).action is CreateDataset ==> i < j
                    &&& forall|i: int|
                        0 <= i < p.len() ==> !(#[trigger] p[i]).tolerate && p[i].undo.len() == 0
                }
            }
        }),
{
    let (base, images, vms) = datasets(config.pool@, config.dataset@);
    match init_plan(config, there) {
        Err(_) => {},
        Ok(p) => {
            let k: int = if there.health is Some {
                1
            } else {
                3
            };
            let a: int = if there.base_there {
                1
            } else {
                2
            };
            let b: int = if there.images_there {
                1
            } else {
                2
            };
            if there.health is None {
                assert(p[1].action is CreatePool);
            }
            if !there.base_there {
                assert(p[k + 1].action == ZfsView::CreateDataset(base));
            }
            if !there.images_there {
                assert(p[k + a + 1].action == ZfsView::CreateDataset(images));
            }
            if !there.vms_there {
                assert(p[k + a + b + 1].action == ZfsView::CreateDataset(vms));
            }
        },
    }
}

} // verus!
