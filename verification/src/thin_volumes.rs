//! What becomes of the volumes of a pool.
//!
//! The procedures themselves are in [`dm_thin_storage`](crate::dm_thin_storage). Here
//! stands what each of their actions does to the volumes of a pool and to the devices
//! that show them, and what the procedures come to.

use vstd::prelude::*;
use vstd::string::*;

use crate::dm::{device_path_of, SECTOR_SIZE};
use crate::dm_thin_storage::{disk_sectors, DmThinStorage, PoolActionView};
use crate::image::ImageEntry;
use crate::procedure::StepView;
use crate::vm::VmMetadata;

verus! {

/// A volume: what it holds, how many sectors its file system fills, and whether that
/// was checked.
pub struct Volume {
    pub holds: Seq<u8>,
    pub filled: nat,
    pub checked: bool,
}

/// A device that shows the first sectors of a volume.
pub struct Shown {
    pub id: nat,
    pub sectors: nat,
    pub suspended: bool,
}

/// A pool: whether it is up and takes data, its volumes by their ids, the devices that
/// show them by their names, the ids that will be drawn next, the volume that was made
/// last and the one for an image that is to be written, and that image.
pub struct Pool {
    pub up: bool,
    pub healthy: bool,
    pub writable: bool,
    pub volumes: Map<nat, Volume>,
    pub devices: Map<Seq<char>, Shown>,
    pub ids: Seq<nat>,
    pub last: Option<nat>,
    pub staging: Option<nat>,
    pub image: Seq<u8>,
}

impl Pool {
    /// Whether every device shows a volume that is there.
    pub open spec fn sound(self) -> bool {
        forall|n: Seq<char>|
            #[trigger] self.devices.contains_key(n) ==> self.volumes.contains_key(
                self.devices[n].id,
            )
    }

    /// Whether a device shows this volume.
    pub open spec fn shows(self, id: nat) -> bool {
        exists|n: Seq<char>| #[trigger] self.devices.contains_key(n) && self.devices[n].id == id
    }

    /// Whether a device shows this volume and goes on doing so.
    pub open spec fn runs(self, id: nat) -> bool {
        exists|n: Seq<char>| #[trigger]
            self.devices.contains_key(n) && self.devices[n].id == id && !self.devices[n].suspended
    }

    /// Whether the next id can be drawn.
    pub open spec fn can_draw(self) -> bool {
        self.up && self.ids.len() > 0 && !self.volumes.contains_key(self.ids[0])
    }

    /// The pool with a new volume.
    pub open spec fn drawn(self, v: Volume) -> Pool {
        Pool {
            volumes: self.volumes.insert(self.ids[0], v),
            last: Some(self.ids[0]),
            ids: self.ids.skip(1),
            ..self
        }
    }

    /// The pool with a device changed or added.
    pub open spec fn with(self, name: Seq<char>, d: Shown) -> Pool {
        Pool { devices: self.devices.insert(name, d), ..self }
    }

    /// The pool without a volume; `None` where it is not there or a device shows it.
    pub open spec fn without(self, id: nat) -> Option<Pool> {
        if self.up && self.volumes.contains_key(id) && !self.shows(id) {
            Some(Pool { volumes: self.volumes.remove(id), ..self })
        } else {
            None
        }
    }
}

/// A volume that nothing was written to.
pub open spec fn blank() -> Volume {
    Volume { holds: seq![], filled: 0, checked: false }
}

/// The device at a path.
pub open spec fn device_at(path: Seq<char>) -> Option<Seq<char>> {
    if path.len() >= 12 && path.take(12) == "/dev/mapper/"@ {
        Some(path.skip(12))
    } else {
        None
    }
}

/// What one action makes of a pool; `None` where it cannot be done.
#[verifier::opaque]
pub open spec fn effect(w: Pool, a: PoolActionView) -> Option<Pool> {
    match a {
        PoolActionView::EnsurePool => Some(Pool { up: true, ..w }),
        PoolActionView::AssertHealthy => if w.healthy {
            Some(w)
        } else {
            None
        },
        PoolActionView::AssertReadWrite => if w.writable {
            Some(w)
        } else {
            None
        },
        PoolActionView::Refuse(_) => None,
        PoolActionView::AllocateStaging => if w.can_draw() {
            Some(Pool { staging: Some(w.ids[0]), ..w.drawn(blank()) })
        } else {
            None
        },
        PoolActionView::ActivateNew(n, sectors) => match w.last {
            Some(id) => if w.up && w.volumes.contains_key(id) && !w.devices.contains_key(n) {
                Some(w.with(n, Shown { id, sectors: sectors as nat, suspended: false }))
            } else {
                None
            },
            None => None,
        },
        PoolActionView::EnsureActive(n, id, sectors) => if w.devices.contains_key(n) {
            Some(w)
        } else if w.up && w.volumes.contains_key(id as nat) {
            Some(
                w.with(n, Shown { id: id as nat, sectors: sectors as nat, suspended: false }),
            )
        } else {
            None
        },
        PoolActionView::WriteImage(n) => if w.devices.contains_key(n) && !w.devices[n].suspended {
            Some(
                Pool {
                    volumes: w.volumes.insert(
                        w.devices[n].id,
                        Volume { holds: w.image, filled: w.devices[n].sectors, checked: false },
                    ),
                    ..w
                },
            )
        } else {
            None
        },
        PoolActionView::Suspend(n) => if w.devices.contains_key(n) {
            Some(w.with(n, Shown { suspended: true, ..w.devices[n] }))
        } else {
            None
        },
        PoolActionView::Resume(n) => if w.devices.contains_key(n) {
            Some(w.with(n, Shown { suspended: false, ..w.devices[n] }))
        } else {
            None
        },
        // A snapshot of a volume that is written to meanwhile holds half of it.
        PoolActionView::SnapshotStaging => match w.staging {
            Some(id) => if w.can_draw() && w.volumes.contains_key(id) && !w.runs(id) {
                Some(w.drawn(w.volumes[id]))
            } else {
                None
            },
            None => None,
        },
        PoolActionView::SnapshotOf(id) => if w.can_draw() && w.volumes.contains_key(id as nat) {
            Some(w.drawn(w.volumes[id as nat]))
        } else {
            None
        },
        PoolActionView::DeleteStaging => match w.staging {
            Some(id) => w.without(id),
            None => None,
        },
        PoolActionView::DeleteNew => match w.last {
            Some(id) => w.without(id),
            None => None,
        },
        PoolActionView::Delete(id) => w.without(id as nat),
        PoolActionView::Deactivate(n) => if w.devices.contains_key(n) {
            Some(Pool { devices: w.devices.remove(n), ..w })
        } else {
            None
        },
        PoolActionView::DeactivateIfThere(n) => Some(
            Pool { devices: w.devices.remove(n), ..w },
        ),
        PoolActionView::ReloadSize(n, id, sectors) => if w.devices.contains_key(n)
            && w.devices[n].id == id {
            Some(
                w.with(n, Shown { id: id as nat, sectors: sectors as nat, suspended: false }),
            )
        } else {
            None
        },
        PoolActionView::CheckFilesystem(path) => match device_at(path) {
            Some(n) if w.devices.contains_key(n) => Some(
                Pool {
                    volumes: w.volumes.insert(
                        w.devices[n].id,
                        Volume { checked: true, ..w.volumes[w.devices[n].id] },
                    ),
                    ..w
                },
            ),
            _ => None,
        },
        PoolActionView::GrowFilesystem(path) => match device_at(path) {
            Some(n) if w.devices.contains_key(n) && w.volumes[w.devices[n].id].checked => Some(
                Pool {
                    volumes: w.volumes.insert(
                        w.devices[n].id,
                        Volume {
                            filled: w.devices[n].sectors,
                            ..w.volumes[w.devices[n].id]
                        },
                    ),
                    ..w
                },
            ),
            _ => None,
        },
        PoolActionView::RenameIfThere(from, to) => if !w.devices.contains_key(from) {
            Some(w)
        } else if w.devices.contains_key(to) {
            None
        } else {
            Some(
                Pool {
                    devices: w.devices.remove(from).insert(to, w.devices[from]),
                    ..w
                },
            )
        },
        _ => Some(w),
    }
}

/// What the steps of a procedure come to when each of them succeeds.
pub open spec fn run(w: Pool, p: Seq<StepView<PoolActionView>>) -> Option<Pool>
    decreases p.len(),
{
    if p.len() == 0 {
        Some(w)
    } else {
        match run(w, p.drop_last()) {
            Some(x) => effect(x, p.last().action),
            None => None,
        }
    }
}

/// What actions come to when those that cannot be done are passed over.
pub open spec fn run_anyway(w: Pool, actions: Seq<PoolActionView>) -> Pool
    decreases actions.len(),
{
    if actions.len() == 0 {
        w
    } else {
        let x = run_anyway(w, actions.drop_last());
        match effect(x, actions.last()) {
            Some(y) => y,
            None => x,
        }
    }
}

/// What is left when the step at `i` fails: what the steps before it came to, with what
/// is done in its place.
pub open spec fn left_over(w: Pool, p: Seq<StepView<PoolActionView>>, i: int) -> Pool {
    run_anyway(run(w, p.take(i))->0, p[i].undo)
}

proof fn lemma_step(w: Pool, p: Seq<StepView<PoolActionView>>, i: int)
    requires
        0 <= i < p.len(),
    ensures
        run(w, p.take(0)) == Some(w),
        run(w, p.take(i + 1)) == (match run(w, p.take(i)) {
            Some(x) => effect(x, p[i].action),
            None => None,
        }),
        p.take(p.len() as int) == p,
{
    assert(p.take(i + 1).drop_last() =~= p.take(i));
    assert(p.take(p.len() as int) =~= p);
}

proof fn lemma_anyway(w: Pool, actions: Seq<PoolActionView>)
    ensures
        actions.len() == 0 ==> run_anyway(w, actions) == w,
        actions.len() == 1 ==> run_anyway(w, actions) == (match effect(w, actions[0]) {
            Some(x) => x,
            None => w,
        }),
        actions.len() == 2 ==> run_anyway(w, actions) == ({
            let x = match effect(w, actions[0]) {
                Some(x) => x,
                None => w,
            };
            match effect(x, actions[1]) {
                Some(y) => y,
                None => x,
            }
        }),
        actions.len() == 3 ==> run_anyway(w, actions) == ({
            let x = match effect(w, actions[0]) {
                Some(x) => x,
                None => w,
            };
            let y = match effect(x, actions[1]) {
                Some(y) => y,
                None => x,
            };
            match effect(y, actions[2]) {
                Some(z) => z,
                None => y,
            }
        }),
{
    reveal_with_fuel(run_anyway, 4);
    if actions.len() == 3 {
        assert(actions.drop_last().drop_last().last() == actions[0]);
        assert(actions.drop_last().last() == actions[1]);
    }
    if actions.len() == 2 {
        assert(actions.drop_last().last() == actions[0]);
    }
}

/// The name of the device that an image is written to.
pub open spec fn staging_device(s: DmThinStorage, name: Seq<char>) -> Seq<char> {
    s.image_device(name) + "-staging"@
}

/// Whether a pool can take an image: it takes data, and two ids that are free come next.
pub open spec fn ready_for_image(w: Pool) -> bool {
    &&& w.sound() && w.healthy
    &&& w.ids.len() >= 2 && w.ids[0] != w.ids[1]
    &&& !w.volumes.contains_key(w.ids[0]) && !w.volumes.contains_key(w.ids[1])
}

proof fn lemma_image_steps(
    s: DmThinStorage,
    name: Seq<char>,
    size_mib: u64,
    w: Pool,
) -> (states: Seq<Pool>)
    requires
        ready_for_image(w),
        size_mib * 0x10_0000 <= u64::MAX,
    ensures
        ({
            let p = s.image_making(name, size_mib);
            let st = staging_device(s, name);
            let a = w.ids[0];
            let b = w.ids[1];
            let v = Volume { holds: w.image, filled: (size_mib * 2048) as nat, checked: false };
            let running = Shown { id: a, sectors: (size_mib * 2048) as nat, suspended: false };
            &&& p.len() == 11 && states.len() == 12
            &&& forall|i: int| 0 <= i <= 11 ==> run(w, p.take(i)) == Some(#[trigger] states[i])
            &&& states[0] == w
            &&& states[1] == (Pool { up: true, ..w })
            &&& states[2] == states[1]
            &&& states[3] == (Pool { devices: w.devices.remove(st), ..states[1] })
            &&& states[4] == (Pool { staging: Some(a), ..states[3].drawn(blank()) })
            &&& states[5] == states[4].with(st, running)
            &&& states[6] == (Pool { volumes: states[5].volumes.insert(a, v), ..states[5] })
            &&& states[7] == states[6].with(st, (Shown { suspended: true, ..running }))
            &&& states[8] == states[7].drawn(v)
            &&& states[9] == states[8].with(st, running)
            &&& states[10] == (Pool { devices: states[9].devices.remove(st), ..states[9] })
            &&& states[11] == (Pool { volumes: states[10].volumes.remove(a), ..states[10] })
        }),
{
    let p = s.image_making(name, size_mib);
    let st = staging_device(s, name);
    let a = w.ids[0];
    let v = Volume { holds: w.image, filled: (size_mib * 2048) as nat, checked: false };
    let running = Shown { id: a, sectors: (size_mib * 2048) as nat, suspended: false };
    let w1 = Pool { up: true, ..w };
    let w3 = Pool { devices: w.devices.remove(st), ..w1 };
    let w4 = Pool { staging: Some(a), ..w3.drawn(blank()) };
    let w5 = w4.with(st, running);
    let w6 = Pool { volumes: w5.volumes.insert(a, v), ..w5 };
    let w7 = w6.with(st, Shown { suspended: true, ..running });
    let w8 = w7.drawn(v);
    let w9 = w8.with(st, running);
    let w10 = Pool { devices: w9.devices.remove(st), ..w9 };
    let w11 = Pool { volumes: w10.volumes.remove(a), ..w10 };
    let states = seq![w, w1, w1, w3, w4, w5, w6, w7, w8, w9, w10, w11];
    assert(effect(w, p[0].action) == Some(w1)) by {
        reveal(effect);
    }
    assert(effect(w1, p[1].action) == Some(w1)) by {
        reveal(effect);
    }
    assert(effect(w1, p[2].action) == Some(w3)) by {
        reveal(effect);
    }
    assert(effect(w3, p[3].action) == Some(w4)) by {
        reveal(effect);
    }
    assert(effect(w4, p[4].action) == Some(w5)) by {
        reveal(effect);
    }
    assert(effect(w5, p[5].action) == Some(w6)) by {
        reveal(effect);
    }
    assert(effect(w6, p[6].action) == Some(w7)) by {
        reveal(effect);
    }
    assert(effect(w7, p[7].action) == Some(w8)) by {
        reveal(effect);
        assert(w7.ids[0] == w.ids[1]);
        assert(!w7.runs(a));
    }
    assert(effect(w8, p[8].action) == Some(w9)) by {
        reveal(effect);
    }
    assert(effect(w9, p[9].action) == Some(w10)) by {
        reveal(effect);
    }
    assert(effect(w10, p[10].action) == Some(w11)) by {
        reveal(effect);
        assert(!w10.shows(a));
        assert(w10.volumes.contains_key(a));
    }
    lemma_step(w, p, 0);
    lemma_step(w, p, 1);
    lemma_step(w, p, 2);
    lemma_step(w, p, 3);
    lemma_step(w, p, 4);
    lemma_step(w, p, 5);
    lemma_step(w, p, 6);
    lemma_step(w, p, 7);
    lemma_step(w, p, 8);
    lemma_step(w, p, 9);
    lemma_step(w, p, 10);
    states
}

/// An image that was written is kept in one new volume, which is the one that was made
/// last; beside it nothing changes, and the device it was written through is gone.
pub proof fn law_an_image_is_kept(s: DmThinStorage, name: Seq<char>, size_mib: u64, w: Pool)
    requires
        ready_for_image(w),
        size_mib * 0x10_0000 <= u64::MAX,
    ensures
        ({
            let done = run(w, s.image_making(name, size_mib));
            let id = w.ids[1];
            &&& done is Some
            &&& done->0.last == Some(id)
            &&& done->0.volumes.contains_key(id)
            &&& done->0.volumes[id].holds == w.image
            &&& done->0.volumes[id].filled == size_mib * 2048
            &&& done->0.volumes.remove(id) == w.volumes
            &&& done->0.devices == w.devices.remove(staging_device(s, name))
        }),
{
    let states = lemma_image_steps(s, name, size_mib, w);
    let p = s.image_making(name, size_mib);
    lemma_step(w, p, 10);
    let done = states[11];
    let st = staging_device(s, name);
    assert(run(w, p) == Some(done));
    assert(done.volumes.remove(w.ids[1]) =~= w.volumes);
    assert(done.devices =~= w.devices.remove(st));
}

spec fn staging_gone(x: Pool, a: nat) -> Pool {
    Pool { volumes: x.volumes.remove(a), ..x }
}

proof fn lemma_staging_goes(w: Pool, x: Pool, a: nat, st: Seq<char>)
    requires
        w.sound(),
        !w.volumes.contains_key(a),
        x.up,
        x.staging == Some(a),
        x.volumes.contains_key(a),
        x.volumes.remove(a) =~= w.volumes,
        x.devices =~= w.devices.remove(st),
    ensures
        effect(x, PoolActionView::DeleteStaging) == Some(staging_gone(x, a)),
        staging_gone(x, a).volumes == w.volumes,
        staging_gone(x, a).devices == w.devices.remove(st),
{
    reveal(effect);
    assert(!x.shows(a));
}

/// When a step fails without which the image cannot be kept, the volumes are as they
/// were, and the device it was to be written through is gone. The steps behind those
/// may fail.
pub proof fn law_a_failed_image_leaves_nothing(
    s: DmThinStorage,
    name: Seq<char>,
    size_mib: u64,
    w: Pool,
    i: int,
)
    requires
        ready_for_image(w),
        size_mib * 0x10_0000 <= u64::MAX,
        0 <= i < 11,
    ensures
        ({
            let p = s.image_making(name, size_mib);
            let st = staging_device(s, name);
            if p[i].tolerate {
                i == 2 || (run(w, p.take(i)) is Some && run(w, p.take(i))->0.last == Some(w.ids[1]))
            } else {
                &&& left_over(w, p, i).volumes == w.volumes
                &&& left_over(w, p, i).devices.remove(st) == w.devices.remove(st)
                &&& i > 2 ==> !left_over(w, p, i).devices.contains_key(st)
            }
        }),
{
    let states = lemma_image_steps(s, name, size_mib, w);
    let p = s.image_making(name, size_mib);
    let st = staging_device(s, name);
    let a = w.ids[0];
    let x = states[i];
    assert(run(w, p.take(i)) == Some(x));
    lemma_anyway(x, p[i].undo);
    let running = Shown { id: a, sectors: (size_mib * 2048) as nat, suspended: false };
    if i == 4 {
        lemma_staging_goes(w, x, a, st);
        assert(left_over(w, p, i) == staging_gone(x, a));
    } else if i == 5 || i == 6 {
        let y = Pool { devices: x.devices.remove(st), ..x };
        assert(effect(x, PoolActionView::Deactivate(st)) == Some(y)) by {
            reveal(effect);
        }
        lemma_staging_goes(w, y, a, st);
        assert(left_over(w, p, i) == staging_gone(y, a));
    } else if i == 7 {
        let y = x.with(st, running);
        let z = Pool { devices: y.devices.remove(st), ..y };
        assert(effect(x, PoolActionView::Resume(st)) == Some(y)) by {
            reveal(effect);
        }
        assert(effect(y, PoolActionView::Deactivate(st)) == Some(z)) by {
            reveal(effect);
        }
        lemma_staging_goes(w, z, a, st);
        assert(left_over(w, p, i) == staging_gone(z, a));
    }
}

/// Whether a plan stops before anything is made of it, on a pool that takes no data.
pub open spec fn stops_when_full(p: Seq<StepView<PoolActionView>>, w: Pool) -> bool {
    !w.healthy ==> exists|i: int|
        #![trigger p[i]]
        0 <= i < p.len() && !p[i].tolerate && p[i].undo.len() == 0 && run(w, p.take(i)) is Some
            && run(w, p.take(i))->0.volumes == w.volumes && run(w, p.take(i))->0.devices
            == w.devices && effect(run(w, p.take(i))->0, p[i].action) is None
}

proof fn lemma_stops(p: Seq<StepView<PoolActionView>>, w: Pool)
    requires
        p.len() >= 2,
        p[0].action == PoolActionView::EnsurePool,
        p[1].action == PoolActionView::AssertHealthy,
        !p[1].tolerate,
        p[1].undo.len() == 0,
    ensures
        stops_when_full(p, w),
{
    reveal(effect);
    lemma_step(w, p, 0);
    lemma_step(w, p, 1);
    assert(run(w, p.take(1)) is Some);
    assert(!p[1].tolerate);
}

/// Nothing is written to a pool that takes no data: neither an image nor the disk of a
/// machine is begun, and none is made larger.
pub proof fn law_a_full_pool_is_left_alone(
    s: DmThinStorage,
    name: Seq<char>,
    size_mib: u64,
    image: ImageEntry,
    vm: VmMetadata,
    bytes: u64,
    w: Pool,
)
    ensures
        stops_when_full(s.image_making(name, size_mib), w),
        stops_when_full(s.image_cloning(image, name), w),
        stops_when_full(s.machine_copying(vm, name), w),
        stops_when_full(s.growing(vm, bytes), w),
{
    lemma_stops(s.image_making(name, size_mib), w);
    lemma_stops(s.image_cloning(image, name), w);
    lemma_stops(s.machine_copying(vm, name), w);
    lemma_stops(s.growing(vm, bytes), w);
}

/// Whether a procedure gives a volume with this id a copy, which shows under this name
/// with so many sectors and is the one that was made last; and leaves nothing of it
/// behind when the copy cannot be shown.
pub open spec fn copies(
    p: Seq<StepView<PoolActionView>>,
    id: nat,
    dm: Seq<char>,
    sectors: nat,
    w: Pool,
) -> bool {
    let done = run(w, p);
    let new = w.ids[0];
    &&& done is Some
    &&& done->0.last == Some(new)
    &&& done->0.volumes[new].holds == w.volumes[id].holds
    &&& done->0.volumes.contains_key(new)
    &&& done->0.volumes.remove(new) == w.volumes
    &&& done->0.devices.contains_key(dm)
    &&& done->0.devices[dm] == (Shown { id: new, sectors, suspended: false })
    &&& done->0.devices.remove(dm) == w.devices
    &&& forall|i: int|
        0 <= i < p.len() ==> !(#[trigger] p[i]).tolerate && left_over(w, p, i).volumes == w.volumes
            && left_over(w, p, i).devices == w.devices
}

proof fn lemma_copies(s: DmThinStorage, id: u64, dm: Seq<char>, sectors: u64, w: Pool)
    requires
        w.sound(),
        w.healthy,
        w.ids.len() > 0,
        !w.volumes.contains_key(w.ids[0]),
        w.volumes.contains_key(id as nat),
        !w.devices.contains_key(dm),
    ensures
        copies(s.clone_plan(Ok(id), dm, sectors), id as nat, dm, sectors as nat, w),
{
    let p = s.clone_plan(Ok(id), dm, sectors);
    let new = w.ids[0];
    let w1 = Pool { up: true, ..w };
    let w3 = w1.drawn(w.volumes[id as nat]);
    let w4 = w3.with(dm, Shown { id: new, sectors: sectors as nat, suspended: false });
    assert(effect(w, p[0].action) == Some(w1)) by {
        reveal(effect);
    }
    assert(effect(w1, p[1].action) == Some(w1)) by {
        reveal(effect);
    }
    assert(effect(w1, p[2].action) == Some(w3)) by {
        reveal(effect);
    }
    assert(effect(w3, p[3].action) == Some(w4)) by {
        reveal(effect);
    }
    lemma_step(w, p, 0);
    lemma_step(w, p, 1);
    lemma_step(w, p, 2);
    lemma_step(w, p, 3);
    assert(w4.volumes.remove(new) =~= w.volumes);
    assert(w4.devices.remove(dm) =~= w.devices);
    assert forall|i: int| 0 <= i < p.len() implies !(#[trigger] p[i]).tolerate && left_over(
        w,
        p,
        i,
    ).volumes == w.volumes && left_over(w, p, i).devices == w.devices by {
        lemma_anyway(run(w, p.take(i))->0, p[i].undo);
        if i == 3 {
            reveal(effect);
            assert(!w3.shows(new));
            assert(w3.volumes.remove(new) =~= w.volumes);
        }
    }
}

/// The disk of a machine that is made from an image holds what the image holds and has
/// its size; the disk of a machine that is made from that of another holds what that one
/// holds and has the size that is recorded of it. A machine or an image without a volume
/// gives none.
pub proof fn law_a_disk_is_a_copy(
    s: DmThinStorage,
    image: ImageEntry,
    source: VmMetadata,
    name: Seq<char>,
    w: Pool,
)
    requires
        w.sound(),
        w.healthy,
        w.ids.len() > 0,
        !w.volumes.contains_key(w.ids[0]),
        !w.devices.contains_key(s.machine_device(name)),
        image.size_mib * 0x10_0000 <= u64::MAX,
    ensures
        image.thin_id matches Some(id) ==> w.volumes.contains_key(id as nat) ==> copies(
            s.image_cloning(image, name),
            id as nat,
            s.machine_device(name),
            (image.size_mib * 2048) as nat,
            w,
        ),
        image.thin_id is None ==> run(w, s.image_cloning(image, name)) is None,
        source.thin_id matches Some(id) ==> w.volumes.contains_key(id as nat) ==> copies(
            s.machine_copying(source, name),
            id as nat,
            s.machine_device(name),
            (source.disk_size_gib * 2097152) as nat,
            w,
        ),
        source.thin_id is None ==> run(w, s.machine_copying(source, name)) is None,
{
    let dm = s.machine_device(name);
    if image.thin_id is None {
        lemma_refused(s.image_cloning(image, name), w);
    } else if w.volumes.contains_key(image.thin_id->0 as nat) {
        lemma_copies(s, image.thin_id->0, dm, (image.size_mib * 2048) as u64, w);
    }
    if source.thin_id is None {
        lemma_refused(s.machine_copying(source, name), w);
    } else if w.volumes.contains_key(source.thin_id->0 as nat) {
        lemma_copies(s, source.thin_id->0, dm, disk_sectors(source.disk_size_gib) as u64, w);
    }
}

proof fn lemma_refused(p: Seq<StepView<PoolActionView>>, w: Pool)
    requires
        p.len() > 0,
        p.last().action is Refuse,
    ensures
        run(w, p) is None,
{
    reveal(effect);
}

proof fn lemma_device_at(n: Seq<char>)
    ensures
        device_at(device_path_of(n)) == Some(n),
{
    reveal_strlit("/dev/mapper/");
    let d = device_path_of(n);
    assert(d.take(12) =~= "/dev/mapper/"@);
    assert(d.skip(12) =~= n);
}

/// The disk of a machine that is made larger shows with the new size, its file system
/// fills it, and it holds what it held; no other volume or device changes. It is
/// activated where it was not.
pub proof fn law_a_larger_disk_is_filled(s: DmThinStorage, vm: VmMetadata, bytes: u64, w: Pool)
    requires
        w.sound(),
        w.healthy,
        vm.thin_id is Some,
        w.volumes.contains_key(vm.thin_id->0 as nat),
        w.devices.contains_key(s.machine_device(vm.name@)) ==> w.devices[s.machine_device(
            vm.name@,
        )].id == vm.thin_id->0,
    ensures
        ({
            let done = run(w, s.growing(vm, bytes));
            let dm = s.machine_device(vm.name@);
            let id = vm.thin_id->0 as nat;
            &&& done is Some
            &&& done->0.devices.contains_key(dm)
            &&& done->0.devices[dm] == (Shown {
                id,
                sectors: (bytes / 512) as nat,
                suspended: false,
            })
            &&& done->0.devices.remove(dm) == w.devices.remove(dm)
            &&& done->0.volumes[id].holds == w.volumes[id].holds
            &&& done->0.volumes[id].filled == bytes / 512
            &&& done->0.volumes.remove(id) == w.volumes.remove(id)
        }),
{
    let p = s.growing(vm, bytes);
    let dm = s.machine_device(vm.name@);
    let id = vm.thin_id->0 as nat;
    lemma_device_at(dm);
    let w1 = Pool { up: true, ..w };
    let w3 = if w.devices.contains_key(dm) {
        w1
    } else {
        w1.with(dm, Shown { id, sectors: disk_sectors(vm.disk_size_gib), suspended: false })
    };
    let w4 = w3.with(dm, Shown { id, sectors: (bytes / SECTOR_SIZE) as nat, suspended: false });
    let w6 = Pool {
        volumes: w4.volumes.insert(id, Volume { checked: true, ..w.volumes[id] }),
        ..w4
    };
    let w7 = Pool {
        volumes: w6.volumes.insert(
            id,
            Volume { filled: (bytes / SECTOR_SIZE) as nat, ..w6.volumes[id] },
        ),
        ..w6
    };
    assert(p.len() == 7);
    assert(effect(w, p[0].action) == Some(w1)) by {
        reveal(effect);
    }
    assert(effect(w1, p[1].action) == Some(w1)) by {
        reveal(effect);
    }
    assert(effect(w1, p[2].action) == Some(w3)) by {
        reveal(effect);
    }
    assert(effect(w3, p[3].action) == Some(w4)) by {
        reveal(effect);
    }
    assert(effect(w4, p[4].action) == Some(w4)) by {
        reveal(effect);
    }
    assert(effect(w4, p[5].action) == Some(w6)) by {
        reveal(effect);
    }
    assert(effect(w6, p[6].action) == Some(w7)) by {
        reveal(effect);
    }
    lemma_step(w, p, 0);
    lemma_step(w, p, 1);
    lemma_step(w, p, 2);
    lemma_step(w, p, 3);
    lemma_step(w, p, 4);
    lemma_step(w, p, 5);
    lemma_step(w, p, 6);
    assert(w7.devices.remove(dm) =~= w.devices.remove(dm));
    assert(w7.volumes.remove(id) =~= w.volumes.remove(id));
}

/// The disk of a machine that is brought up shows under the name of the machine, with
/// the volume and the size that are recorded of it; what is up already stays. Over a
/// compression layer that takes no writes it is not brought up.
pub proof fn law_a_disk_that_is_up_shows_its_volume(s: DmThinStorage, vm: VmMetadata, w: Pool)
    requires
        vm.thin_id is Some,
        w.volumes.contains_key(vm.thin_id->0 as nat),
    ensures
        ({
            let done = run(w, s.showing(vm));
            let dm = s.machine_device(vm.name@);
            &&& done is Some <==> (s.vdo is Some ==> w.writable)
            &&& done is Some ==> done->0.volumes == w.volumes && done->0.devices == (
            if w.devices.contains_key(dm) {
                w.devices
            } else {
                w.devices.insert(
                    dm,
                    Shown {
                        id: vm.thin_id->0 as nat,
                        sectors: (vm.disk_size_gib * 2097152) as nat,
                        suspended: false,
                    },
                )
            })
        }),
{
    let p = s.showing(vm);
    let w1 = Pool { up: true, ..w };
    reveal(effect);
    lemma_step(w, p, 0);
    lemma_step(w, p, 1);
    assert(effect(w, p[0].action) == Some(w1));
    if s.vdo is Some {
        lemma_step(w, p, 2);
        assert(p.len() == 3);
    } else {
        assert(p.len() == 2);
    }
}

/// The disk of a machine or of an image that is destroyed is gone with its device, and
/// nothing else is; whatever of it fails, the rest is done.
pub proof fn law_a_destroyed_disk_is_gone(
    s: DmThinStorage,
    dm: Seq<char>,
    thin_id: Option<u64>,
    w: Pool,
)
    requires
        thin_id matches Some(id) ==> w.volumes.contains_key(id as nat) && forall|n: Seq<char>|
            #[trigger] w.devices.contains_key(n) && n != dm ==> w.devices[n].id != id,
    ensures
        ({
            let p = s.destroy_plan(dm, thin_id);
            let done = run(w, p);
            &&& done is Some
            &&& done->0.devices == w.devices.remove(dm)
            &&& done->0.volumes == (match thin_id {
                Some(id) => w.volumes.remove(id as nat),
                None => w.volumes,
            })
            &&& forall|i: int| 0 <= i < p.len() ==> (#[trigger] p[i]).tolerate
        }),
{
    let p = s.destroy_plan(dm, thin_id);
    let w1 = Pool { up: true, ..w };
    let w2 = Pool { devices: w1.devices.remove(dm), ..w1 };
    assert(effect(w, p[0].action) == Some(w1)) by {
        reveal(effect);
    }
    assert(effect(w1, p[1].action) == Some(w2)) by {
        reveal(effect);
    }
    lemma_step(w, p, 0);
    lemma_step(w, p, 1);
    if thin_id is Some {
        let id = thin_id->0 as nat;
        assert(effect(w2, p[2].action) == Some(Pool { volumes: w.volumes.remove(id), ..w2 })) by {
            reveal(effect);
            assert(!w2.shows(id));
        }
        lemma_step(w, p, 2);
    }
}

/// A device that gets another name shows the same volume under it, and the old name is
/// free; one that is not there changes nothing.
pub proof fn law_a_renamed_device_shows_the_same(
    s: DmThinStorage,
    from: Seq<char>,
    to: Seq<char>,
    w: Pool,
)
    requires
        !w.devices.contains_key(to),
    ensures
        ({
            let done = run(w, s.renaming(from, to));
            &&& done is Some
            &&& done->0.volumes == w.volumes
            &&& if w.devices.contains_key(from) {
                &&& !done->0.devices.contains_key(from)
                &&& done->0.devices.contains_key(to)
                &&& done->0.devices[to] == w.devices[from]
                &&& done->0.devices.remove(to) == w.devices.remove(from)
            } else {
                done->0.devices == w.devices
            }
        }),
{
    let p = s.renaming(from, to);
    reveal(effect);
    lemma_step(w, p, 0);
    lemma_step(w, p, 1);
    let done = run(w, p)->0;
    if w.devices.contains_key(from) {
        assert(done.devices.remove(to) =~= w.devices.remove(from));
    }
}

} // verus!
