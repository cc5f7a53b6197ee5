//! What becomes of images.
//!
//! The procedures themselves are in [`image`](super::image). Here stands what each of
//! their actions does to what was unpacked, to volumes and to records, and what the
//! procedures come to.

use vstd::prelude::*;

use super::image::{
    build_plan, ending, entry_plan, key_plan, pull_plan, source_is_there, store_built_plan,
    store_pulled_plan, storing, users_plan, vm_plan, volume_of, BuildArgs, ImageView, KeyProbe,
    VmProbe,
};
use crate::config::GlobalConfig;
use crate::image::{EntryView, ImageEntry};
use crate::procedure::{may, must, StepView};
use crate::vm::VmMetadata;

verus! {

/// What an image was unpacked to: the key that was put into it, and whether it knows
/// where to ask for names and what to start.
pub struct Tree {
    pub key: Option<Seq<char>>,
    pub names: bool,
    pub inittab: bool,
}

/// A volume: its size in MiB, and what was written to it.
pub struct Held {
    pub mib: nat,
    pub tree: Option<Tree>,
}

/// What there is of images and of the machines that were made from them: what was
/// unpacked, the file system that was made from it, the volumes, the records of images
/// by their names, the processes, sockets, volumes and records of machines, and
/// whether the user was told that it went wrong.
pub struct Shelf {
    pub unpacked: Option<Tree>,
    pub filesystem: Option<(nat, Tree)>,
    pub volumes: Map<Seq<char>, Held>,
    pub entries: Map<Seq<char>, EntryView>,
    pub processes: Set<u32>,
    pub sockets: Set<Seq<char>>,
    pub vm_volumes: Set<Seq<char>>,
    pub records: Set<Seq<char>>,
}

/// What one action makes of it; `None` where it cannot be done.
#[verifier::opaque]
pub open spec fn effect(w: Shelf, a: ImageView) -> Option<Shelf> {
    match a {
        ImageView::PullLayers | ImageView::BuildLayers => Some(
            Shelf { unpacked: Some(Tree { key: None, names: false, inittab: false }), ..w },
        ),
        ImageView::InjectKey(k) => match w.unpacked {
            Some(t) => Some(Shelf { unpacked: Some(Tree { key: Some(k), ..t }), ..w }),
            None => None,
        },
        ImageView::InjectResolvConf => match w.unpacked {
            Some(t) => Some(Shelf { unpacked: Some(Tree { names: true, ..t }), ..w }),
            None => None,
        },
        ImageView::InjectInittab => match w.unpacked {
            Some(t) => Some(Shelf { unpacked: Some(Tree { inittab: true, ..t }), ..w }),
            None => None,
        },
        ImageView::CreateFilesystem(mib) => match w.unpacked {
            Some(t) => Some(Shelf { filesystem: Some((mib as nat, t)), ..w }),
            None => None,
        },
        ImageView::CreateVolume(v, mib) => if w.volumes.contains_key(v) {
            None
        } else {
            Some(Shelf { volumes: w.volumes.insert(v, Held { mib: mib as nat, tree: None }), ..w })
        },
        // A file system fits a volume of its size.
        ImageView::WriteVolume(v) => match w.filesystem {
            Some((mib, t)) => if w.volumes.contains_key(v) && w.volumes[v].mib == mib {
                Some(Shelf { volumes: w.volumes.insert(v, Held { mib, tree: Some(t) }), ..w })
            } else {
                None
            },
            None => None,
        },
        ImageView::DestroyVolume(v) => if w.volumes.contains_key(v) {
            Some(Shelf { volumes: w.volumes.remove(v), ..w })
        } else {
            None
        },
        ImageView::SaveEntry(e) => Some(Shelf { entries: w.entries.insert(e.local_name, e), ..w }),
        ImageView::RemoveEntry(n) => if w.entries.contains_key(n) {
            Some(Shelf { entries: w.entries.remove(n), ..w })
        } else {
            None
        },
        ImageView::Kill(pid) => Some(Shelf { processes: w.processes.remove(pid), ..w }),
        ImageView::RemoveSocket(p) => Some(Shelf { sockets: w.sockets.remove(p), ..w }),
        ImageView::DestroyVmVolume(v) => Some(Shelf { vm_volumes: w.vm_volumes.remove(v), ..w }),
        ImageView::DeleteRecord(n) => Some(Shelf { records: w.records.remove(n), ..w }),
        ImageView::Refuse(_) => None,
        _ => Some(w),
    }
}

/// What the steps of a procedure come to when each of them succeeds.
pub open spec fn run(w: Shelf, p: Seq<StepView<ImageView>>) -> Option<Shelf>
    decreases p.len(),
{
    if p.len() == 0 {
        Some(w)
    } else {
        match run(w, p.drop_last()) {
            Some(x) => effect(x, p.last().action),
            None => None,
        }
    }
}

/// What actions come to when those that cannot be done are passed over.
pub open spec fn run_anyway(w: Shelf, actions: Seq<ImageView>) -> Shelf
    decreases actions.len(),
{
    if actions.len() == 0 {
        w
    } else {
        let x = run_anyway(w, actions.drop_last());
        match effect(x, actions.last()) {
            Some(y) => y,
            None => x,
        }
    }
}

proof fn lemma_append(w: Shelf, p: Seq<StepView<ImageView>>, q: Seq<StepView<ImageView>>)
    ensures
        run(w, p + q) == (match run(w, p) {
            Some(x) => run(x, q),
            None => None,
        }),
    decreases q.len(),
{
    if q.len() == 0 {
        assert(p + q =~= p);
    } else {
        lemma_append(w, p, q.drop_last());
        assert((p + q).drop_last() =~= p + q.drop_last());
    }
}

proof fn lemma_take(w: Shelf, p: Seq<StepView<ImageView>>)
    ensures
        run(w, p.take(0)) == Some(w),
        p.take(p.len() as int) == p,
        forall|i: int|
            0 < i <= p.len() ==> run(w, #[trigger] p.take(i)) == (match run(w, p.take(i - 1)) {
                Some(x) => effect(x, p[i - 1].action),
                None => None,
            }),
{
    assert(p.take(p.len() as int) =~= p);
    assert forall|i: int| 0 < i <= p.len() implies run(w, #[trigger] p.take(i)) == (match run(
        w,
        p.take(i - 1),
    ) {
        Some(x) => effect(x, p[i - 1].action),
        None => None,
    }) by {
        assert(p.take(i).drop_last() =~= p.take(i - 1));
    }
}

/// The key that goes into an image.
pub open spec fn key_in(key: Option<KeyProbe>) -> Option<Seq<char>> {
    match key {
        Some(k) if k.there => Some(k.path@),
        _ => None,
    }
}

proof fn lemma_key(w: Shelf, key: Option<KeyProbe>)
    requires
        w.unpacked is Some,
        w.unpacked->0.key is None,
    ensures
        run(w, key_plan(key)) == Some(
            Shelf { unpacked: Some(Tree { key: key_in(key), ..w.unpacked->0 }), ..w },
        ),
{
    let p = key_plan(key);
    reveal(effect);
    lemma_take(w, p);
    if key is Some && key->0.there {
        assert(run(w, p.take(1)) == Some(w));
        assert(run(w, p.take(2)) is Some);
    } else if key is Some {
        assert(run(w, p.take(1)) == Some(w));
    }
}

/// What was pulled is unpacked, with the key that was found, and knows where to ask for
/// names and what to start.
proof fn lemma_pulled(
    w: Shelf,
    reference: Seq<char>,
    local_name: Seq<char>,
    key: Option<KeyProbe>,
)
    ensures
        run(w, pull_plan(false, reference, local_name, key)) == Some(
            Shelf {
                unpacked: Some(Tree { key: key_in(key), names: true, inittab: true }),
                ..w
            },
        ),
{
    let p = pull_plan(false, reference, local_name, key);
    let a = p.take(3);
    let c = p.skip(p.len() - 2);
    let k = key_plan(key);
    assert(p =~= a + k + c);
    let w1 = Shelf { unpacked: Some(Tree { key: None, names: false, inittab: false }), ..w };
    assert(run(w, a) == Some(w1)) by {
        reveal(effect);
        lemma_take(w, a);
        assert(run(w, a.take(1)) == Some(w));
        assert(run(w, a.take(2)) == Some(w));
        assert(run(w, a.take(3)) == Some(w1));
    }
    lemma_key(w1, key);
    let w2 = Shelf { unpacked: Some(Tree { key: key_in(key), ..w1.unpacked->0 }), ..w1 };
    let w3 = Shelf { unpacked: Some(Tree { names: true, ..w2.unpacked->0 }), ..w2 };
    let w4 = Shelf { unpacked: Some(Tree { inittab: true, ..w3.unpacked->0 }), ..w3 };
    assert(run(w2, c) == Some(w4)) by {
        reveal(effect);
        lemma_take(w2, c);
        assert(c[0].action is InjectResolvConf);
        assert(c[1].action is InjectInittab);
        assert(run(w2, c.take(1)) == Some(w3));
        assert(run(w2, c.take(2)) == Some(w4));
    }
    lemma_append(w, a, k);
    lemma_append(w, a + k, c);
}

proof fn lemma_built(
    w: Shelf,
    args: BuildArgs,
    local_name: Seq<char>,
    there: bool,
    key: Option<KeyProbe>,
)
    requires
        source_is_there(args, there),
    ensures
        run(w, build_plan(false, args, local_name, there, key)) == Some(
            Shelf {
                unpacked: Some(Tree { key: key_in(key), names: true, inittab: false }),
                ..w
            },
        ),
{
    let p = build_plan(false, args, local_name, there, key);
    let a = p.take(3);
    let c = p.skip(p.len() - 1);
    let k = key_plan(key);
    assert(p =~= a + k + c);
    let w1 = Shelf { unpacked: Some(Tree { key: None, names: false, inittab: false }), ..w };
    assert(run(w, a) == Some(w1)) by {
        reveal(effect);
        lemma_take(w, a);
        assert(run(w, a.take(1)) == Some(w));
        assert(run(w, a.take(2)) == Some(w));
        assert(run(w, a.take(3)) == Some(w1));
    }
    lemma_key(w1, key);
    let w2 = Shelf { unpacked: Some(Tree { key: key_in(key), ..w1.unpacked->0 }), ..w1 };
    let w3 = Shelf { unpacked: Some(Tree { names: true, ..w2.unpacked->0 }), ..w2 };
    assert(run(w2, c) == Some(w3)) by {
        reveal(effect);
        lemma_take(w2, c);
        assert(c[0].action is InjectResolvConf);
        assert(run(w2, c.take(1)) == Some(w3));
    }
    lemma_append(w, a, k);
    lemma_append(w, a + k, c);
}

proof fn lemma_stored(w: Shelf, v: Seq<char>, mib: u64, e: EntryView, done: Seq<char>)
    requires
        w.unpacked is Some,
        !w.volumes.contains_key(v),
    ensures
        ({
            let p = storing(v, mib, e, done);
            let made = w.volumes.insert(v, Held { mib: mib as nat, tree: None });
            let written = w.volumes.insert(v, Held { mib: mib as nat, tree: w.unpacked });
            let fs = Some((mib as nat, w.unpacked->0));
            &&& p.len() == 8
            &&& run(w, p) == Some(
                Shelf {
                    filesystem: fs,
                    volumes: written,
                    entries: w.entries.insert(e.local_name, e),
                    ..w
                },
            )
            &&& forall|i: int| 0 <= i < 4 ==> run(w, #[trigger] p.take(i)) is Some && run(
                w,
                p.take(i),
            )->0.volumes == w.volumes && run(w, p.take(i))->0.entries == w.entries
            &&& forall|i: int| 4 <= i < 7 ==> run(w, #[trigger] p.take(i)) is Some && run(
                w,
                p.take(i),
            )->0.volumes.remove(v) == w.volumes && run(w, p.take(i))->0.volumes.contains_key(v)
                && run(w, p.take(i))->0.entries == w.entries
        }),
{
    let p = storing(v, mib, e, done);
    lemma_take(w, p);
    let w1 = Shelf { filesystem: Some((mib as nat, w.unpacked->0)), ..w };
    let w2 = Shelf { volumes: w.volumes.insert(v, Held { mib: mib as nat, tree: None }), ..w1 };
    let w3 = Shelf {
        volumes: w2.volumes.insert(v, Held { mib: mib as nat, tree: w.unpacked }),
        ..w2
    };
    let w4 = Shelf { entries: w.entries.insert(e.local_name, e), ..w3 };
    assert(effect(w, p[0].action) == Some(w)) by {
        reveal(effect);
    }
    assert(effect(w, p[1].action) == Some(w1)) by {
        reveal(effect);
    }
    assert(effect(w1, p[2].action) == Some(w1)) by {
        reveal(effect);
    }
    assert(effect(w1, p[3].action) == Some(w2)) by {
        reveal(effect);
    }
    assert(effect(w2, p[4].action) == Some(w2)) by {
        reveal(effect);
    }
    assert(effect(w2, p[5].action) == Some(w3)) by {
        reveal(effect);
    }
    assert(effect(w3, p[6].action) == Some(w4)) by {
        reveal(effect);
    }
    assert(effect(w4, p[7].action) == Some(w4)) by {
        reveal(effect);
    }
    assert(run(w, p.take(1)) == Some(w));
    assert(run(w, p.take(2)) == Some(w1));
    assert(run(w, p.take(3)) == Some(w1));
    assert(run(w, p.take(4)) == Some(w2));
    assert(run(w, p.take(5)) == Some(w2));
    assert(run(w, p.take(6)) == Some(w3));
    assert(run(w, p.take(7)) == Some(w4));
    assert(run(w, p.take(8)) == Some(w4));
    assert(w3.volumes =~= w.volumes.insert(v, Held { mib: mib as nat, tree: w.unpacked }));
    assert(w2.volumes.remove(v) =~= w.volumes);
    assert(w3.volumes.remove(v) =~= w.volumes);
}

/// Whether an image is on the shelf: it is recorded under its name with the reference,
/// the size and the time that it came with, and the volume that the record names holds
/// this, in this size.
pub open spec fn on_the_shelf(
    w: Shelf,
    reference: Seq<char>,
    local_name: Seq<char>,
    mib: u64,
    now: Seq<char>,
    tree: Tree,
) -> bool {
    &&& w.entries.contains_key(local_name)
    &&& w.entries[local_name].reference == reference
    &&& w.entries[local_name].local_name == local_name
    &&& w.entries[local_name].size_mib == mib
    &&& w.entries[local_name].pulled_at == now
    &&& w.volumes.contains_key(w.entries[local_name].disk_path)
    &&& w.volumes[w.entries[local_name].disk_path] == (Held {
        mib: mib as nat,
        tree: Some(tree),
    })
}

/// An image that was pulled and stored is on the shelf, with the key that was found for
/// it; what was there before stays. One that is there is not pulled again.
pub proof fn law_a_pulled_image_is_on_the_shelf(
    config: GlobalConfig,
    reference: Seq<char>,
    local_name: Seq<char>,
    key: Option<KeyProbe>,
    mib: u64,
    now: Seq<char>,
    w: Shelf,
)
    requires
        !w.volumes.contains_key(volume_of(config, local_name)),
    ensures
        ({
            let unpacked = run(w, pull_plan(false, reference, local_name, key));
            let done = run(
                unpacked->0,
                store_pulled_plan(config, reference, local_name, mib, now),
            );
            &&& unpacked is Some && done is Some
            &&& on_the_shelf(
                done->0,
                reference,
                local_name,
                mib,
                now,
                Tree { key: key_in(key), names: true, inittab: true },
            )
            &&& done->0.entries.remove(local_name) == w.entries.remove(local_name)
            &&& done->0.volumes.remove(volume_of(config, local_name)) == w.volumes
            &&& run(w, pull_plan(true, reference, local_name, key)) == Some(w)
        }),
{
    lemma_pulled(w, reference, local_name, key);
    let x = run(w, pull_plan(false, reference, local_name, key))->0;
    let v = volume_of(config, local_name);
    let p = store_pulled_plan(config, reference, local_name, mib, now);
    lemma_stored(x, v, mib, p[6].action->SaveEntry_0, p[7].action->Say_0);
    let done = run(x, p)->0;
    assert(done.entries.remove(local_name) =~= w.entries.remove(local_name));
    assert(done.volumes.remove(v) =~= w.volumes);
    let q = pull_plan(true, reference, local_name, key);
    lemma_take(w, q);
    reveal(effect);
    assert(run(w, q.take(1)) == Some(w));
}

/// An image that was built and stored is on the shelf, with the key that was found for
/// it; what was there before stays. One that is there is not built again, and nothing is
/// built from what is not there.
pub proof fn law_a_built_image_is_on_the_shelf(
    config: GlobalConfig,
    args: BuildArgs,
    local_name: Seq<char>,
    source_there: bool,
    key: Option<KeyProbe>,
    mib: u64,
    now: Seq<char>,
    w: Shelf,
)
    requires
        !w.volumes.contains_key(volume_of(config, local_name)),
    ensures
        run(w, build_plan(true, args, local_name, source_there, key)) == Some(w),
        args.dockerfile is Some && !source_there ==> run(
            w,
            build_plan(false, args, local_name, source_there, key),
        ) is None,
        args.dockerfile is None || source_there ==> ({
            let unpacked = run(w, build_plan(false, args, local_name, source_there, key));
            let done = run(
                unpacked->0,
                store_built_plan(config, args.name@, local_name, mib, now),
            );
            &&& unpacked is Some && done is Some
            &&& on_the_shelf(
                done->0,
                args.name@,
                local_name,
                mib,
                now,
                Tree { key: key_in(key), names: true, inittab: false },
            )
            &&& done->0.entries.remove(local_name) == w.entries.remove(local_name)
            &&& done->0.volumes.remove(volume_of(config, local_name)) == w.volumes
        }),
{
    if args.dockerfile is None || source_there {
        lemma_built(w, args, local_name, source_there, key);
        let x = run(w, build_plan(false, args, local_name, source_there, key))->0;
        let v = volume_of(config, local_name);
        let p = store_built_plan(config, args.name@, local_name, mib, now);
        lemma_stored(x, v, mib, p[6].action->SaveEntry_0, p[7].action->Say_0);
        let done = run(x, p)->0;
        assert(done.entries.remove(local_name) =~= w.entries.remove(local_name));
        assert(done.volumes.remove(v) =~= w.volumes);
    } else {
        let q = build_plan(false, args, local_name, source_there, key);
        assert(q.last().action is Refuse);
        reveal(effect);
    }
    let q = build_plan(true, args, local_name, source_there, key);
    lemma_take(w, q);
    reveal(effect);
    assert(run(w, q.take(1)) == Some(w));
}

/// An image that could not be stored leaves neither a volume nor a record: whichever step
/// before the last fails, both are as they were.
pub proof fn law_an_image_that_fails_leaves_nothing(
    v: Seq<char>,
    mib: u64,
    e: EntryView,
    done: Seq<char>,
    w: Shelf,
    i: int,
)
    requires
        w.unpacked is Some,
        !w.volumes.contains_key(v),
        0 <= i < 7,
    ensures
        ({
            let p = storing(v, mib, e, done);
            let left = run_anyway(run(w, p.take(i))->0, p[i].undo);
            &&& !p[i].tolerate
            &&& left.volumes == w.volumes
            &&& left.entries == w.entries
        }),
{
    lemma_stored(w, v, mib, e, done);
    let p = storing(v, mib, e, done);
    let x = run(w, p.take(i))->0;
    if i >= 4 {
        let u = p[i].undo;
        reveal_with_fuel(run_anyway, 4);
        reveal(effect);
        assert(u.drop_last().drop_last().drop_last().len() == 0);
        assert(run_anyway(x, u.drop_last()) == x);
    } else {
        assert(p[i].undo.len() == 0);
    }
}

/// An image that is deleted is gone with its volume, where it had one, and nothing else
/// of images is.
pub proof fn law_a_deleted_image_is_gone(entry: ImageEntry, volume_there: bool, w: Shelf)
    requires
        w.entries.contains_key(entry.local_name@),
        w.volumes.contains_key(entry.disk_path@) == volume_there,
    ensures
        ({
            let done = run(w, entry_plan(entry, volume_there));
            &&& done is Some
            &&& done->0.volumes == w.volumes.remove(entry.disk_path@)
            &&& done->0.entries == w.entries.remove(entry.local_name@)
        }),
{
    let p = entry_plan(entry, volume_there);
    lemma_take(w, p);
    let k: int = if volume_there {
        2
    } else {
        0
    };
    let w1 = Shelf { volumes: w.volumes.remove(entry.disk_path@), ..w };
    let w2 = Shelf { entries: w.entries.remove(entry.local_name@), ..w1 };
    if volume_there {
        assert(effect(w, p[0].action) == Some(w)) by {
            reveal(effect);
        }
        assert(effect(w, p[1].action) == Some(w1)) by {
            reveal(effect);
        }
        assert(run(w, p.take(1)) == Some(w));
        assert(run(w, p.take(2)) == Some(w1));
    } else {
        assert(w1.volumes =~= w.volumes);
    }
    assert(run(w, p.take(k)) == Some(w1));
    assert(p.len() == k + 2);
    assert(effect(w1, p[k].action) == Some(w2)) by {
        reveal(effect);
    }
    assert(effect(w2, p[k + 1].action) == Some(w2)) by {
        reveal(effect);
    }
    assert(run(w, p.take(k + 1)) == Some(w2));
    assert(run(w, p.take(k + 2)) == Some(w2));
}

/// What is left when a machine is deleted.
pub open spec fn without_machine(w: Shelf, m: VmMetadata, there: VmProbe) -> Shelf {
    let active = m.status.spec_is_active();
    Shelf {
        processes: if active && m.pid is Some && there.alive {
            w.processes.remove(m.pid->0)
        } else {
            w.processes
        },
        sockets: if active && there.socket_there {
            w.sockets.remove(m.api_socket@)
        } else {
            w.sockets
        },
        vm_volumes: if there.volume_there {
            w.vm_volumes.remove(m.disk_path@)
        } else {
            w.vm_volumes
        },
        records: w.records.remove(m.name@),
        ..w
    }
}

proof fn lemma_machine_goes(m: VmMetadata, there: VmProbe, w: Shelf)
    ensures
        run(w, vm_plan(m, there)) == Some(without_machine(w, m, there)),
{
    let active = m.status.spec_is_active();
    let a = seq![
        must(ImageView::Say("Deleting dependent VM '"@ + m.name@ + "'..."@)),
    ];
    let b = ending(m, there.alive, there.socket_there);
    let c = seq![may(ImageView::Settle)];
    let d: Seq<StepView<ImageView>> = if there.volume_there {
        seq![
            must(ImageView::Say("  Destroying zvol '"@ + m.disk_path@ + "'..."@)),
            may(ImageView::DestroyVmVolume(m.disk_path@)),
        ]
    } else {
        seq![]
    };
    let e = seq![
        must(ImageView::DeleteRecord(m.name@)),
        must(ImageView::Say("  VM '"@ + m.name@ + "' deleted."@)),
    ];
    assert(vm_plan(m, there) =~= a + b + c + d + e);
    assert(run(w, a) == Some(w)) by {
        reveal(effect);
        lemma_take(w, a);
        assert(run(w, a.take(1)) == Some(w));
    }
    let x = Shelf {
        processes: if active && m.pid is Some && there.alive {
            w.processes.remove(m.pid->0)
        } else {
            w.processes
        },
        ..w
    };
    let y = Shelf {
        sockets: if active && there.socket_there {
            w.sockets.remove(m.api_socket@)
        } else {
            w.sockets
        },
        ..x
    };
    assert(run(w, b) == Some(y)) by {
        if active {
            lemma_take(w, b);
            let k: int = if m.pid is Some && there.alive {
                3
            } else {
                0
            };
            if m.pid is Some && there.alive {
                assert(effect(w, b[0].action) == Some(w)) by {
                    reveal(effect);
                }
                assert(effect(w, b[1].action) == Some(x)) by {
                    reveal(effect);
                }
                assert(effect(x, b[2].action) == Some(x)) by {
                    reveal(effect);
                }
                assert(run(w, b.take(1)) == Some(w));
                assert(run(w, b.take(2)) == Some(x));
                assert(run(w, b.take(3)) == Some(x));
            }
            assert(run(w, b.take(k)) == Some(x));
            if there.socket_there {
                assert(effect(x, b[k].action) == Some(y)) by {
                    reveal(effect);
                }
                assert(run(w, b.take(k + 1)) == Some(y));
                assert(b.len() == k + 1);
            } else {
                assert(b.len() == k);
            }
        }
    }
    assert(run(y, c) == Some(y)) by {
        reveal(effect);
        lemma_take(y, c);
        assert(run(y, c.take(1)) == Some(y));
    }
    let z = Shelf {
        vm_volumes: if there.volume_there {
            w.vm_volumes.remove(m.disk_path@)
        } else {
            w.vm_volumes
        },
        ..y
    };
    assert(run(y, d) == Some(z)) by {
        if there.volume_there {
            reveal(effect);
            lemma_take(y, d);
            assert(run(y, d.take(1)) == Some(y));
            assert(run(y, d.take(2)) == Some(z));
        }
    }
    let f = Shelf { records: w.records.remove(m.name@), ..z };
    assert(run(z, e) == Some(f)) by {
        reveal(effect);
        lemma_take(z, e);
        assert(run(z, e.take(1)) == Some(f));
        assert(run(z, e.take(2)) == Some(f));
    }
    lemma_append(w, a, b);
    lemma_append(w, a + b, c);
    lemma_append(w, a + b + c, d);
    lemma_append(w, a + b + c + d, e);
}

/// A machine that goes with its image is gone: its record in any case, its volume where it
/// had one, and when it was running its process and its socket.
pub proof fn law_a_machine_goes_with_its_image(m: VmMetadata, there: VmProbe, w: Shelf)
    ensures
        ({
            let done = run(w, vm_plan(m, there));
            &&& done is Some
            &&& !done->0.records.contains(m.name@)
            &&& there.volume_there ==> !done->0.vm_volumes.contains(m.disk_path@)
            &&& m.status.spec_is_active() && there.alive && m.pid is Some
                ==> !done->0.processes.contains(m.pid->0)
            &&& m.status.spec_is_active() && there.socket_there ==> !done->0.sockets.contains(
                m.api_socket@,
            )
            &&& done->0.records.insert(m.name@) == w.records.insert(m.name@)
            &&& done->0.entries == w.entries && done->0.volumes == w.volumes
        }),
{
    lemma_machine_goes(m, there, w);
    let done = without_machine(w, m, there);
    assert(done.records.insert(m.name@) =~= w.records.insert(m.name@));
}

/// With an image go all machines that were made from it, and the records of no others.
pub proof fn law_all_machines_of_an_image_go(
    vms: Seq<VmMetadata>,
    there: Seq<VmProbe>,
    reference: Seq<char>,
    n: int,
    w: Shelf,
)
    requires
        0 <= n <= vms.len(),
        there.len() == vms.len(),
    ensures
        ({
            let done = run(w, users_plan(vms, there, reference, n));
            &&& done is Some
            &&& done->0.entries == w.entries && done->0.volumes == w.volumes
            &&& forall|i: int|
                0 <= i < n && (#[trigger] vms[i]).image@ == reference
                    ==> !done->0.records.contains(vms[i].name@)
            &&& forall|r: Seq<char>| #[trigger]
                w.records.contains(r) && !done->0.records.contains(r) ==> exists|i: int|
                    0 <= i < n && (#[trigger] vms[i]).image@ == reference && vms[i].name@ == r
            &&& forall|r: Seq<char>| #[trigger] done->0.records.contains(r) ==> w.records.contains(
                r,
            )
        }),
    decreases n,
{
    if n > 0 {
        law_all_machines_of_an_image_go(vms, there, reference, n - 1, w);
        let before = run(w, users_plan(vms, there, reference, n - 1))->0;
        if vms[n - 1].image@ == reference {
            lemma_append(
                w,
                users_plan(vms, there, reference, n - 1),
                vm_plan(vms[n - 1], there[n - 1]),
            );
            lemma_machine_goes(vms[n - 1], there[n - 1], before);
        }
    }
}

} // verus!
