//! What becomes of the devices that a pool lies on.
//!
//! The procedures themselves are in [`dm_thin_storage`](crate::dm_thin_storage). Here
//! stands what each of their actions does to the files and devices below a pool, what
//! it needs to be there, and what the procedures come to.

use vstd::prelude::*;
use vstd::string::*;

use crate::backend::{GrowRequest, InitConfig};
use crate::config::VdoConfig;
use crate::dm::SECTOR_SIZE;
use crate::dm_thin_storage::{
    block_sectors, deactivations, file_steps, grow_plan, init_paths, init_plan, layer,
    pool_name_of, purge_plan, stack_steps, teardown_plan, unwinding, DeinitProbe,
    DmThinStorage, GrowContext, InitProbe, InitSizes, PoolActionView,
};
use crate::procedure::{may, must, StepView};
use crate::text::texts;
use crate::vdo;
use crate::vdo::{name_of, IndexMemory, Params};

verus! {

/// What the parts of a pool are called.
pub struct Names {
    pub metadata: Seq<char>,
    pub data: Seq<char>,
    pub layer: Seq<char>,
    pub pool: Seq<char>,
    pub dir: Seq<char>,
}

impl Names {
    /// Whether no two of them are the same.
    pub open spec fn apart(self) -> bool {
        self.metadata != self.data && self.layer != self.pool
    }
}

/// A file or device: whether it is there, how many bytes it has, whether it is attached
/// as a device, and how many bytes that device shows.
pub struct Backing {
    pub there: bool,
    pub bytes: nat,
    pub attached: bool,
    pub seen: nat,
}

/// What lies below a pool, and the pool: its backing; whether the metadata is blank or
/// was checked; what the data device was formatted for; the compression layer, and
/// whether its device shows; the sizes that are recorded of it; the sectors of a block
/// of the pool, and those it was told to use; the devices of its volumes; the files
/// whose directory was made; and the directory of them all.
pub struct Stack {
    pub metadata: Backing,
    pub blank: bool,
    pub checked: bool,
    pub data: Backing,
    pub formatted: Option<(u64, IndexMemory)>,
    pub layer: Option<Params>,
    pub layer_shows: bool,
    pub recorded: Option<VdoConfig>,
    pub pool: Option<u32>,
    pub pool_sectors: Option<nat>,
    pub volumes: Set<Seq<char>>,
    pub made_room: Set<Seq<char>>,
    pub dir: bool,
}

/// A file that was made, and is not attached yet.
pub open spec fn new_file(bytes: nat) -> Backing {
    Backing { there: true, bytes, attached: false, seen: 0 }
}

/// What is attached.
pub open spec fn attached(b: Backing) -> Backing {
    Backing { attached: true, seen: b.bytes, ..b }
}

/// What is attached no longer.
pub open spec fn detached(b: Backing) -> Backing {
    Backing { attached: false, ..b }
}

/// What one action makes of a pool and of what it lies on; `None` where it cannot be
/// done.
#[verifier::opaque]
pub open spec fn effect(n: Names, s: Stack, a: PoolActionView) -> Option<Stack> {
    match a {
        PoolActionView::AssertReadWrite => if s.layer is Some {
            Some(s)
        } else {
            None
        },
        PoolActionView::CheckMetadata(p) => if p == n.metadata && s.metadata.attached
            && s.pool is None {
            Some(Stack { checked: true, ..s })
        } else {
            None
        },
        PoolActionView::MakeParent(p) => Some(Stack { made_room: s.made_room.insert(p), ..s }),
        PoolActionView::SparseFile(p, bytes) => if p == n.metadata && s.made_room.contains(p)
            && !s.metadata.there {
            Some(Stack { metadata: new_file(bytes as nat), ..s })
        } else if p == n.data && s.data.there {
            Some(Stack { data: Backing { bytes: bytes as nat, ..s.data }, ..s })
        } else if p == n.data && s.made_room.contains(p) {
            Some(Stack { data: new_file(bytes as nat), ..s })
        } else {
            None
        },
        PoolActionView::ZeroHead(p) => if p == n.metadata && s.metadata.there
            && !s.metadata.attached {
            Some(Stack { blank: true, ..s })
        } else {
            None
        },
        PoolActionView::AttachMetadata(p) => if p == n.metadata && s.metadata.there {
            Some(Stack { metadata: attached(s.metadata), ..s })
        } else {
            None
        },
        PoolActionView::AttachData(p) => if p == n.data && s.data.there {
            Some(Stack { data: attached(s.data), ..s })
        } else {
            None
        },
        PoolActionView::FormatLayer(logical, index) => if s.data.attached && s.layer is None
            && s.pool is None {
            Some(Stack { formatted: Some((logical, index)), ..s })
        } else {
            None
        },
        PoolActionView::ActivateLayer(name, params) => if name == n.layer && s.data.attached
            && s.formatted is Some && s.layer is None {
            Some(Stack { layer: Some(params), layer_shows: false, ..s })
        } else {
            None
        },
        PoolActionView::WaitFor(path) => if path == "/dev/mapper/"@ + n.layer && s.layer is Some {
            Some(Stack { layer_shows: true, ..s })
        } else {
            None
        },
        // What a pool was never on is blank; what it was on has to be checked.
        PoolActionView::CreatePool(name, block) => if name == n.pool && s.pool is None
            && s.metadata.attached && s.data.attached && (s.blank || s.checked) && (
        s.formatted is Some ==> s.layer is Some && s.layer_shows) {
            Some(Stack { pool: Some(block), blank: false, ..s })
        } else {
            None
        },
        PoolActionView::RefreshLoop(p) => if p == n.data && s.data.attached {
            Some(Stack { data: attached(s.data), ..s })
        } else {
            None
        },
        PoolActionView::ReloadLayer(name, params) => if name == n.layer && s.layer is Some
            && params.physical_size <= s.data.seen {
            Some(Stack { layer: Some(params), ..s })
        } else {
            None
        },
        PoolActionView::RecordLayer(v) => match s.layer {
            Some(l) if l.physical_size == v.physical_size && l.logical_size == v.logical_size
                => Some(Stack { recorded: Some(v), ..s }),
            _ => None,
        },
        PoolActionView::ReloadPool(name, sectors) => match (sectors, s.layer) {
            (Some(k), None) => if name == n.pool && s.pool is Some && k * 512 <= s.data.seen {
                Some(Stack { pool_sectors: Some(k as nat), ..s })
            } else {
                None
            },
            (None, Some(l)) => if name == n.pool && s.pool is Some {
                Some(Stack { pool_sectors: Some((l.logical_size / 512) as nat), ..s })
            } else {
                None
            },
            _ => None,
        },
        PoolActionView::RemoveDevice(name) => if name == n.pool && s.pool is Some && s.volumes
            == Set::<Seq<char>>::empty() {
            Some(Stack { pool: None, ..s })
        } else if name == n.layer && s.layer is Some && s.pool is None {
            Some(Stack { layer: None, layer_shows: false, ..s })
        } else {
            None
        },
        PoolActionView::RemoveDeviceIfThere(name) => if name == n.layer && s.pool is None {
            Some(Stack { layer: None, layer_shows: false, ..s })
        } else {
            None
        },
        PoolActionView::Detach(p) => if p == n.metadata && s.pool is None && s.metadata.attached {
            Some(Stack { metadata: detached(s.metadata), ..s })
        } else if p == n.data && s.pool is None && s.layer is None && s.data.attached {
            Some(Stack { data: detached(s.data), ..s })
        } else {
            None
        },
        PoolActionView::RemoveFile(p) => if p == n.metadata && s.metadata.there
            && !s.metadata.attached {
            Some(Stack { metadata: Backing { there: false, ..s.metadata }, ..s })
        } else if p == n.data && s.data.there && !s.data.attached {
            Some(Stack { data: Backing { there: false, ..s.data }, ..s })
        } else {
            None
        },
        PoolActionView::RemoveDir(p) => if p == n.dir && s.dir {
            Some(Stack { dir: false, ..s })
        } else {
            None
        },
        PoolActionView::Deactivate(d) => if s.volumes.contains(d) {
            Some(Stack { volumes: s.volumes.remove(d), ..s })
        } else {
            None
        },
        _ => Some(s),
    }
}

/// What the steps of a procedure come to when each of them succeeds.
pub open spec fn run(n: Names, s: Stack, p: Seq<StepView<PoolActionView>>) -> Option<Stack>
    decreases p.len(),
{
    if p.len() == 0 {
        Some(s)
    } else {
        match run(n, s, p.drop_last()) {
            Some(x) => effect(n, x, p.last().action),
            None => None,
        }
    }
}

/// What actions come to when those that cannot be done are passed over.
pub open spec fn run_anyway(n: Names, s: Stack, actions: Seq<PoolActionView>) -> Stack
    decreases actions.len(),
{
    if actions.len() == 0 {
        s
    } else {
        let x = run_anyway(n, s, actions.drop_last());
        match effect(n, x, actions.last()) {
            Some(y) => y,
            None => x,
        }
    }
}

proof fn lemma_append(
    n: Names,
    s: Stack,
    p: Seq<StepView<PoolActionView>>,
    q: Seq<StepView<PoolActionView>>,
)
    ensures
        run(n, s, p + q) == (match run(n, s, p) {
            Some(x) => run(n, x, q),
            None => None,
        }),
    decreases q.len(),
{
    if q.len() == 0 {
        assert(p + q =~= p);
    } else {
        lemma_append(n, s, p, q.drop_last());
        assert((p + q).drop_last() =~= p + q.drop_last());
    }
}

proof fn lemma_none(n: Names, s: Stack, p: Seq<StepView<PoolActionView>>)
    requires
        p.len() == 0,
    ensures
        run(n, s, p) == Some(s),
{
}

proof fn lemma_first(n: Names, s: Stack, p: Seq<StepView<PoolActionView>>)
    requires
        p.len() > 0,
    ensures
        run(n, s, p) == (match effect(n, s, p[0].action) {
            Some(x) => run(n, x, p.skip(1)),
            None => None,
        }),
{
    let one = p.take(1);
    lemma_append(n, s, one, p.skip(1));
    assert(one + p.skip(1) =~= p);
    assert(one.drop_last().len() == 0);
    assert(run(n, s, one.drop_last()) == Some(s));
}

// ---------------------------------------------------------------------
// Setting up
// ---------------------------------------------------------------------

/// Whether nothing of a pool is up yet, and what it is to lie on is there as was found.
pub open spec fn untouched(s: Stack, probe: InitProbe) -> bool {
    &&& s.metadata.there == probe.metadata_exists && !s.metadata.attached
    &&& s.data.there == probe.data_exists && !s.data.attached
    &&& s.formatted is None && s.layer is None && s.pool is None
}

/// What lies below a pool once its files are made.
pub open spec fn filed(
    n: Names,
    s: Stack,
    probe: InitProbe,
    pool_bytes: u64,
    metadata_bytes: u64,
) -> Stack {
    let m = if probe.metadata_exists {
        s.metadata
    } else {
        new_file(metadata_bytes as nat)
    };
    let rooms = if probe.metadata_exists {
        s.made_room
    } else {
        s.made_room.insert(n.metadata)
    };
    Stack {
        metadata: attached(m),
        blank: true,
        data: if probe.data_exists {
            s.data
        } else {
            new_file(pool_bytes as nat)
        },
        made_room: if probe.data_is_file || !probe.data_exists {
            rooms.insert(n.data)
        } else {
            rooms
        },
        ..s
    }
}

proof fn lemma_files(
    n: Names,
    s: Stack,
    probe: InitProbe,
    pool_bytes: u64,
    metadata_bytes: u64,
)
    requires
        n.apart(),
        untouched(s, probe),
    ensures
        run(n, s, file_steps(n.metadata, n.data, probe, pool_bytes, metadata_bytes)) == Some(
            filed(n, s, probe, pool_bytes, metadata_bytes),
        ),
{
    let a: Seq<StepView<PoolActionView>> = if probe.metadata_exists {
        seq![]
    } else {
        seq![
            must(PoolActionView::MakeParent(n.metadata)),
            must(PoolActionView::SparseFile(n.metadata, metadata_bytes)),
        ]
    };
    let b: Seq<StepView<PoolActionView>> = if probe.data_is_file || !probe.data_exists {
        seq![must(PoolActionView::MakeParent(n.data))] + (if probe.data_exists {
            seq![]
        } else {
            seq![must(PoolActionView::SparseFile(n.data, pool_bytes))]
        })
    } else {
        seq![]
    };
    let c = seq![
        must(PoolActionView::ZeroHead(n.metadata)),
        must(PoolActionView::AttachMetadata(n.metadata)),
    ];
    assert(file_steps(n.metadata, n.data, probe, pool_bytes, metadata_bytes) =~= a + b + c);
    let s1 = if probe.metadata_exists {
        s
    } else {
        Stack {
            metadata: new_file(metadata_bytes as nat),
            made_room: s.made_room.insert(n.metadata),
            ..s
        }
    };
    assert(run(n, s, a) == Some(s1)) by {
        if probe.metadata_exists {
            lemma_none(n, s, a);
        } else {
            reveal(effect);
            lemma_first(n, s, a);
            let x = Stack { made_room: s.made_room.insert(n.metadata), ..s };
            lemma_first(n, x, a.skip(1));
            lemma_none(n, s1, a.skip(1).skip(1));
        }
    }
    let s2 = Stack {
        data: if probe.data_exists {
            s1.data
        } else {
            new_file(pool_bytes as nat)
        },
        made_room: if probe.data_is_file || !probe.data_exists {
            s1.made_room.insert(n.data)
        } else {
            s1.made_room
        },
        ..s1
    };
    assert(run(n, s1, b) == Some(s2)) by {
        if probe.data_is_file || !probe.data_exists {
            reveal(effect);
            lemma_first(n, s1, b);
            let x = Stack { made_room: s1.made_room.insert(n.data), ..s1 };
            if probe.data_exists {
                lemma_none(n, x, b.skip(1));
            } else {
                lemma_first(n, x, b.skip(1));
                lemma_none(n, s2, b.skip(1).skip(1));
            }
        } else {
            lemma_none(n, s1, b);
        }
    }
    let s3 = Stack { blank: true, ..s2 };
    let s4 = Stack { metadata: attached(s2.metadata), ..s3 };
    assert(run(n, s2, c) == Some(s4)) by {
        reveal(effect);
        lemma_first(n, s2, c);
        lemma_first(n, s3, c.skip(1));
        lemma_none(n, s4, c.skip(1).skip(1));
    }
    lemma_append(n, s, a, b);
    lemma_append(n, s, a + b, c);
}

/// What lies below a pool once it is put together.
pub open spec fn stacked(s: Stack, config: Option<VdoConfig>, block: u32) -> Stack {
    Stack {
        data: attached(s.data),
        formatted: match config {
            Some(v) => Some(
                (
                    v.logical_size,
                    IndexMemory(vdo::index_quarters(v.physical_size as nat) as u32),
                ),
            ),
            None => s.formatted,
        },
        layer: match config {
            Some(v) => Some(layer(v, block)),
            None => s.layer,
        },
        layer_shows: if config is Some {
            true
        } else {
            s.layer_shows
        },
        pool: Some(block),
        blank: false,
        ..s
    }
}

/// Whether everything is down again that was put together: the pool and the layer are
/// gone, a file is attached no longer, one that was made for the data is gone, and one
/// that was there is there.
pub open spec fn taken_down(s: Stack, data_is_file: bool, created: bool) -> bool {
    &&& s.pool is None && s.layer is None && !s.metadata.attached
    &&& data_is_file ==> !s.data.attached && s.data.there == !created
    &&& !data_is_file ==> s.data.there
}

proof fn lemma_unwound(n: Names, s: Stack, data_is_file: bool, created: bool)
    requires
        n.apart(),
        s.pool is None,
        s.metadata.attached,
        s.data.there,
    ensures
        taken_down(
            run_anyway(
                n,
                s,
                unwinding(n.layer, n.metadata, n.data, data_is_file, created),
            ),
            data_is_file,
            created,
        ),
{
    let u = unwinding(n.layer, n.metadata, n.data, data_is_file, created);
    let s1 = Stack { layer: None, layer_shows: false, ..s };
    let s2 = if data_is_file && s.data.attached {
        Stack { data: detached(s.data), ..s1 }
    } else {
        s1
    };
    let s3 = if data_is_file && created {
        Stack { data: Backing { there: false, ..s2.data }, ..s2 }
    } else {
        s2
    };
    let s4 = Stack { metadata: detached(s.metadata), ..s3 };
    let u1 = u.take(1);
    let u2 = u.take(2);
    reveal_with_fuel(run_anyway, 2);
    assert(u1.drop_last().len() == 0);
    assert(run_anyway(n, s, u1) == s1) by {
        reveal(effect);
    }
    if data_is_file {
        assert(u2.drop_last() =~= u1);
        assert(run_anyway(n, s, u2) == s2) by {
            reveal(effect);
        }
        if created {
            let u3 = u.take(3);
            assert(u3.drop_last() =~= u2);
            assert(run_anyway(n, s, u3) == s3) by {
                reveal(effect);
            }
            assert(u.drop_last() =~= u3);
        } else {
            assert(u.drop_last() =~= u2);
        }
    } else {
        assert(u.drop_last() =~= u1);
    }
    assert(run_anyway(n, s, u) == s4) by {
        reveal(effect);
    }
}

proof fn lemma_stack(
    n: Names,
    s: Stack,
    config: Option<VdoConfig>,
    block: u32,
    undo: Seq<PoolActionView>,
)
    requires
        n.apart(),
        s.metadata.attached,
        s.blank,
        s.data.there,
        s.formatted is None,
        s.layer is None,
        s.pool is None,
    ensures
        ({
            let p = stack_steps(n.pool, n.layer, n.data, config, block, undo);
            &&& run(n, s, p) == Some(stacked(s, config, block))
            &&& forall|i: int|
                0 <= i < p.len() ==> (#[trigger] p[i]).undo == undo && !p[i].tolerate
            &&& forall|i: int|
                0 <= i < p.len() ==> ({
                    let x = run(n, s, #[trigger] p.take(i));
                    x is Some && x->0.pool is None && x->0.metadata.attached && x->0.data.there
                })
        }),
{
    let p = stack_steps(n.pool, n.layer, n.data, config, block, undo);
    let s1 = Stack { data: attached(s.data), ..s };
    assert(effect(n, s, p[0].action) == Some(s1)) by {
        reveal(effect);
    }
    lemma_take(n, s, p);
    match config {
        None => {
            let s2 = stacked(s, config, block);
            assert(p.len() == 2);
            assert(effect(n, s1, p[1].action) == Some(s2)) by {
                reveal(effect);
            }
            assert(run(n, s, p.take(1)) == Some(s1));
        },
        Some(v) => {
            let index = IndexMemory(vdo::index_quarters(v.physical_size as nat) as u32);
            let s2 = Stack { formatted: Some((v.logical_size, index)), ..s1 };
            let s3 = Stack { layer: Some(layer(v, block)), layer_shows: false, ..s2 };
            let s4 = Stack { layer_shows: true, ..s3 };
            let s5 = stacked(s, config, block);
            assert(p.len() == 5);
            assert(effect(n, s1, p[1].action) == Some(s2)) by {
                reveal(effect);
            }
            assert(effect(n, s2, p[2].action) == Some(s3)) by {
                reveal(effect);
            }
            assert(effect(n, s3, p[3].action) == Some(s4)) by {
                reveal(effect);
            }
            assert(effect(n, s4, p[4].action) == Some(s5)) by {
                reveal(effect);
            }
            assert(run(n, s, p.take(1)) == Some(s1));
            assert(run(n, s, p.take(2)) == Some(s2));
            assert(run(n, s, p.take(3)) == Some(s3));
            assert(run(n, s, p.take(4)) == Some(s4));
            assert(run(n, s, p.take(5)) == Some(s5));
        },
    }
}

proof fn lemma_take(n: Names, s: Stack, p: Seq<StepView<PoolActionView>>)
    ensures
        run(n, s, p.take(0)) == Some(s),
        p.take(p.len() as int) == p,
        forall|i: int|
            0 < i <= p.len() ==> run(n, s, #[trigger] p.take(i)) == (match run(
                n,
                s,
                p.take(i - 1),
            ) {
                Some(x) => effect(n, x, p[i - 1].action),
                None => None,
            }),
{
    assert(p.take(p.len() as int) =~= p);
    assert forall|i: int| 0 < i <= p.len() implies run(n, s, #[trigger] p.take(i)) == (match run(
        n,
        s,
        p.take(i - 1),
    ) {
        Some(x) => effect(n, x, p[i - 1].action),
        None => None,
    }) by {
        assert(p.take(i).drop_last() =~= p.take(i - 1));
    }
}

/// What the parts of a pool that is to be set up are called.
pub open spec fn names_of(config: InitConfig) -> Names {
    let paths = init_paths(config.storage_path->0@, config.state_dir@, config.dm_thin_mode->0);
    Names {
        metadata: paths.0,
        data: paths.1,
        layer: name_of(Some(config.instance_id@)),
        pool: pool_name_of(Some(config.instance_id@)),
        dir: config.storage_path->0@,
    }
}

/// A pool that was set up is up, on metadata that was wiped and on its data. A file that
/// was not there has the size it was to have, what was there keeps its own. With a
/// compression layer the pool lies on that, which was formatted and shows. When it cannot
/// be put together on its devices, what was put together is taken down again, and no data
/// is lost that was there.
pub proof fn law_setting_up_a_pool(
    config: InitConfig,
    probe: InitProbe,
    sizes: InitSizes,
    metadata_bytes: u64,
    s: Stack,
)
    requires
        names_of(config).apart(),
        untouched(s, probe),
    ensures
        ({
            let n = names_of(config);
            let p = init_plan(config, probe, sizes, metadata_bytes);
            let done = run(n, s, p);
            let is_file = probe.data_is_file || !probe.data_exists;
            &&& done is Some
            &&& done->0.pool == Some(block_sectors(config.dm_thin_block_size))
            &&& done->0.metadata.there && done->0.metadata.attached
            &&& done->0.data.there && done->0.data.attached
            &&& done->0.metadata.bytes == if probe.metadata_exists {
                s.metadata.bytes
            } else {
                metadata_bytes as nat
            }
            &&& done->0.data.bytes == if probe.data_exists {
                s.data.bytes
            } else {
                sizes.pool_size as nat
            }
            &&& done->0.layer is Some <==> config.vdo is Some
            &&& config.vdo matches Some(v) ==> {
                &&& done->0.layer_shows
                &&& done->0.layer->0.logical_size == v.logical_size
                &&& done->0.layer->0.physical_size == v.physical_size
                &&& done->0.layer->0.deduplication == v.deduplication
                &&& done->0.formatted matches Some((logical, _)) && logical == v.logical_size
            }
            &&& forall|i: int|
                0 <= i < p.len() && (#[trigger] p[i]).undo.len() > 0 ==> taken_down(
                    run_anyway(n, run(n, s, p.take(i))->0, p[i].undo),
                    is_file,
                    !probe.data_exists,
                )
            &&& forall|i: int|
                0 <= i < p.len() && (#[trigger] p[i]).undo.len() == 0 ==> ({
                    let x = run(n, s, p.take(i))->0;
                    x.pool is None && x.layer is None && !x.data.attached
                })
        }),
{
    let n = names_of(config);
    let is_file = probe.data_is_file || !probe.data_exists;
    let block = block_sectors(config.dm_thin_block_size);
    let u = unwinding(n.layer, n.metadata, n.data, is_file, !probe.data_exists);
    let f = file_steps(n.metadata, n.data, probe, sizes.pool_size, metadata_bytes);
    let q = stack_steps(n.pool, n.layer, n.data, config.vdo, block, u);
    let p = init_plan(config, probe, sizes, metadata_bytes);
    assert(p =~= f + q);
    let s1 = filed(n, s, probe, sizes.pool_size, metadata_bytes);
    lemma_files(n, s, probe, sizes.pool_size, metadata_bytes);
    lemma_stack(n, s1, config.vdo, block, u);
    lemma_append(n, s, f, q);
    assert forall|i: int| 0 <= i < p.len() && (#[trigger] p[i]).undo.len() > 0 implies taken_down(
        run_anyway(n, run(n, s, p.take(i))->0, p[i].undo),
        is_file,
        !probe.data_exists,
    ) by {
        if i < f.len() {
            assert(p[i] == f[i]);
            assert(f[i].undo.len() == 0);
        } else {
            let k = i - f.len();
            assert(p[i] == q[k]);
            assert(p.take(i) =~= f + q.take(k));
            lemma_append(n, s, f, q.take(k));
            let x = run(n, s1, q.take(k))->0;
            lemma_unwound(n, x, is_file, !probe.data_exists);
        }
    }
    assert forall|i: int| 0 <= i < p.len() && (#[trigger] p[i]).undo.len() == 0 implies ({
        let x = run(n, s, p.take(i))->0;
        x.pool is None && x.layer is None && !x.data.attached
    }) by {
        if i < f.len() {
            assert(p.take(i) =~= f.take(i));
            lemma_files_only(n, s, f, i);
        } else {
            assert(p[i] == q[i - f.len()]);
            assert(u.len() > 0);
        }
    }
}

spec fn only_files(a: PoolActionView) -> bool {
    a is MakeParent || a is SparseFile || a is ZeroHead || a is AttachMetadata
}

proof fn lemma_files_only(n: Names, s: Stack, f: Seq<StepView<PoolActionView>>, i: int)
    requires
        n.apart(),
        s.pool is None,
        s.layer is None,
        !s.data.attached,
        0 <= i <= f.len(),
        forall|k: int| 0 <= k < f.len() ==> only_files((#[trigger] f[k]).action),
        run(n, s, f) is Some,
    ensures
        run(n, s, f.take(i)) is Some,
        run(n, s, f.take(i))->0.pool is None,
        run(n, s, f.take(i))->0.layer is None,
        !run(n, s, f.take(i))->0.data.attached,
    decreases i,
{
    lemma_take(n, s, f);
    lemma_append(n, s, f.take(i), f.skip(i));
    assert(f.take(i) + f.skip(i) =~= f);
    if i > 0 {
        lemma_files_only(n, s, f, i - 1);
        let x = run(n, s, f.take(i - 1))->0;
        assert(run(n, s, f.take(i)) == effect(n, x, f[i - 1].action));
        assert(only_files(f[i - 1].action));
        reveal(effect);
    }
}

// ---------------------------------------------------------------------
// Activating
// ---------------------------------------------------------------------

impl DmThinStorage {
    /// What the parts of the pool are called.
    pub open spec fn names(self) -> Names {
        let paths = init_paths(self.storage_path@, self.state_dir@, self.mode);
        Names {
            metadata: paths.0,
            data: paths.1,
            layer: self.vdo_name@,
            pool: self.pool_name@,
            dir: self.storage_path@,
        }
    }
}

/// A pool that is activated is up on the metadata and the data that it had: the metadata
/// was checked, nothing is wiped or formatted, and the compression layer below it is the
/// one that is recorded. One that is up is left alone.
pub proof fn law_activating_a_pool(d: DmThinStorage, layer_active: bool, s: Stack)
    requires
        d.names().apart(),
        s.metadata.there,
        s.data.there,
        s.pool is None,
        s.formatted is Some <==> d.vdo is Some,
        s.layer is Some <==> layer_active && d.vdo is Some,
        layer_active ==> s.data.attached,
    ensures
        d.activation(true, layer_active).len() == 0,
        ({
            let done = run(d.names(), s, d.activation(false, layer_active));
            &&& done is Some
            &&& done->0.pool == Some(d.block_size_sectors)
            &&& done->0.checked
            &&& done->0.formatted == s.formatted
            &&& done->0.metadata.bytes == s.metadata.bytes
            &&& done->0.data.bytes == s.data.bytes
            &&& done->0.layer == (if layer_active {
                s.layer
            } else {
                match d.vdo {
                    Some(v) => Some(layer(v, d.block_size_sectors)),
                    None => None,
                }
            })
            &&& d.vdo is Some ==> done->0.layer_shows
        }),
{
    let n = d.names();
    let p = d.activation(false, layer_active);
    lemma_take(n, s, p);
    let s2 = Stack { metadata: attached(s.metadata), ..s };
    let s3 = Stack { data: attached(s.data), ..s2 };
    assert(effect(n, s, p[0].action) == Some(s)) by {
        reveal(effect);
    }
    assert(effect(n, s, p[1].action) == Some(s2)) by {
        reveal(effect);
    }
    assert(effect(n, s2, p[2].action) == Some(s3)) by {
        reveal(effect);
    }
    assert(run(n, s, p.take(1)) == Some(s));
    assert(run(n, s, p.take(2)) == Some(s2));
    assert(run(n, s, p.take(3)) == Some(s3));
    match d.vdo {
        None => {
            let s4 = Stack { checked: true, ..s3 };
            let s5 = Stack { pool: Some(d.block_size_sectors), blank: false, ..s4 };
            assert(p.len() == 5);
            assert(effect(n, s3, p[3].action) == Some(s4)) by {
                reveal(effect);
            }
            assert(effect(n, s4, p[4].action) == Some(s5)) by {
                reveal(effect);
            }
            assert(run(n, s, p.take(4)) == Some(s4));
            assert(run(n, s, p.take(5)) == Some(s5));
        },
        Some(v) => {
            let k: int = if layer_active {
                3
            } else {
                5
            };
            let t = if layer_active {
                s3
            } else {
                Stack {
                    layer: Some(layer(v, d.block_size_sectors)),
                    layer_shows: false,
                    ..s3
                }
            };
            if !layer_active {
                assert(effect(n, s3, p[3].action) == Some(s3)) by {
                    reveal(effect);
                }
                assert(effect(n, s3, p[4].action) == Some(t)) by {
                    reveal(effect);
                }
                assert(run(n, s, p.take(4)) == Some(s3));
                assert(run(n, s, p.take(5)) == Some(t));
            }
            assert(run(n, s, p.take(k)) == Some(t));
            assert(p.len() == k + 4);
            let t1 = Stack { layer_shows: true, ..t };
            let t3 = Stack { checked: true, ..t1 };
            let t4 = Stack { pool: Some(d.block_size_sectors), blank: false, ..t3 };
            assert(effect(n, t, p[k].action) == Some(t1)) by {
                reveal(effect);
            }
            assert(effect(n, t1, p[k + 1].action) == Some(t1)) by {
                reveal(effect);
            }
            assert(effect(n, t1, p[k + 2].action) == Some(t3)) by {
                reveal(effect);
            }
            assert(effect(n, t3, p[k + 3].action) == Some(t4)) by {
                reveal(effect);
            }
            assert(run(n, s, p.take(k + 1)) == Some(t1));
            assert(run(n, s, p.take(k + 2)) == Some(t1));
            assert(run(n, s, p.take(k + 3)) == Some(t3));
            assert(run(n, s, p.take(k + 4)) == Some(t4));
        },
    }
}

// ---------------------------------------------------------------------
// Growing
// ---------------------------------------------------------------------

/// A pool that grows as asked is told of all its new space: the file below it becomes
/// longer where it has to, and the loop device knows; a compression layer gets its new
/// sizes, which are recorded. Each part fits into the one below it.
pub proof fn law_growing_a_pool(
    d: DmThinStorage,
    request: GrowRequest,
    ctx: GrowContext,
    s: Stack,
)
    requires
        d.names().apart(),
        grow_plan(request, ctx) is Ok,
        ctx.vdo == d.vdo,
        ctx.backing_size == s.data.bytes,
        s.data.bytes == s.data.seen,
        s.data.there && s.data.attached,
        s.pool is Some,
        s.layer is Some <==> d.vdo is Some,
        // A layer or a pool is not larger than what it lies on.
        d.vdo matches Some(v) ==> v.physical_size <= s.data.seen,
        ctx.pool_capacity <= s.data.seen,
    ensures
        ({
            let g = grow_plan(request, ctx)->Ok_0;
            let done = run(d.names(), s, d.growth_plan(g));
            &&& done is Some
            &&& done->0.data.bytes == (if g.physical_size > ctx.backing_size {
                g.physical_size as nat
            } else {
                s.data.bytes
            })
            &&& done->0.data.seen == done->0.data.bytes
            &&& match d.vdo {
                None => done->0.pool_sectors == Some((g.physical_size / 512) as nat),
                Some(v) => {
                    &&& done->0.recorded == g.vdo && g.vdo is Some
                    &&& done->0.layer->0.logical_size == g.vdo->0.logical_size
                    &&& done->0.layer->0.physical_size == g.physical_size
                    &&& done->0.layer->0.deduplication == v.deduplication
                    &&& done->0.pool_sectors == Some((g.vdo->0.logical_size / 512) as nat)
                },
            }
        }),
{
    let n = d.names();
    let g = grow_plan(request, ctx)->Ok_0;
    let p = d.growth_plan(g);
    lemma_take(n, s, p);
    crate::dm_thin_storage::law_plan_only_grows(request, ctx);
    let x = if g.resize_backing {
        Stack { data: Backing { bytes: g.physical_size as nat, ..s.data }, ..s }
    } else {
        s
    };
    let y = if g.resize_backing {
        Stack { data: attached(x.data), ..x }
    } else {
        s
    };
    let k: int = if g.resize_backing {
        2
    } else {
        0
    };
    if g.resize_backing {
        assert(effect(n, s, p[0].action) == Some(x)) by {
            reveal(effect);
        }
        assert(effect(n, x, p[1].action) == Some(y)) by {
            reveal(effect);
        }
        assert(run(n, s, p.take(1)) == Some(x));
        assert(run(n, s, p.take(2)) == Some(y));
    }
    assert(run(n, s, p.take(k)) == Some(y));
    assert(g.physical_size <= y.data.seen);
    match g.vdo {
        None => {
            let z = Stack { pool_sectors: Some((g.physical_size / SECTOR_SIZE) as nat), ..y };
            assert(p.len() == k + 1);
            assert(effect(n, y, p[k].action) == Some(z)) by {
                reveal(effect);
            }
            assert(run(n, s, p.take(k + 1)) == Some(z));
        },
        Some(v) => {
            let z1 = Stack { layer: Some(layer(v, d.block_size_sectors)), ..y };
            let z2 = Stack { recorded: Some(v), ..z1 };
            let z3 = Stack { pool_sectors: Some((v.logical_size / 512) as nat), ..z2 };
            assert(p.len() == k + 3);
            assert(effect(n, y, p[k].action) == Some(z1)) by {
                reveal(effect);
            }
            assert(effect(n, z1, p[k + 1].action) == Some(z2)) by {
                reveal(effect);
            }
            assert(effect(n, z2, p[k + 2].action) == Some(z3)) by {
                reveal(effect);
            }
            assert(run(n, s, p.take(k + 1)) == Some(z1));
            assert(run(n, s, p.take(k + 2)) == Some(z2));
            assert(run(n, s, p.take(k + 3)) == Some(z3));
        },
    }
}

// ---------------------------------------------------------------------
// Taking down
// ---------------------------------------------------------------------

proof fn lemma_deactivated(n: Names, s: Stack, names: Seq<Seq<char>>)
    requires
        names.no_duplicates(),
        forall|i: int| 0 <= i < names.len() ==> s.volumes.contains(#[trigger] names[i]),
    ensures
        run(n, s, deactivations(names)) == Some(
            Stack { volumes: s.volumes.difference(names.to_set()), ..s },
        ),
    decreases names.len(),
{
    let p = deactivations(names);
    if names.len() == 0 {
        assert(s.volumes.difference(names.to_set()) =~= s.volumes);
    } else {
        let rest = names.drop_last();
        lemma_deactivated(n, s, rest);
        assert(p.drop_last() =~= deactivations(rest));
        let x = Stack { volumes: s.volumes.difference(rest.to_set()), ..s };
        let last = names.last();
        assert(!rest.contains(last)) by {
            if rest.contains(last) {
                let j = choose|j: int| 0 <= j < rest.len() && rest[j] == last;
                assert(names[j] == names[names.len() - 1]);
            }
        }
        assert(s.volumes.contains(names[names.len() - 1]));
        assert(x.volumes.remove(last) =~= s.volumes.difference(names.to_set())) by {
            assert forall|e: Seq<char>| names.contains(e) <==> rest.contains(e) || e == last by {
                if names.contains(e) {
                    let j = choose|j: int| 0 <= j < names.len() && names[j] == e;
                    if j < names.len() - 1 {
                        assert(rest[j] == e);
                    }
                }
                if rest.contains(e) {
                    let j = choose|j: int| 0 <= j < rest.len() && rest[j] == e;
                    assert(names[j] == e);
                }
                if e == last {
                    assert(names[names.len() - 1] == e);
                }
            }
        }
        reveal(effect);
    }
}

/// Whether a pool is as it was found: the devices of its volumes are those of images and
/// those of machines, each once.
pub open spec fn found(s: Stack, probe: DeinitProbe) -> bool {
    let images = texts(probe.image_devices@);
    let vms = texts(probe.vm_devices@);
    &&& (images + vms).no_duplicates()
    &&& s.volumes == (images + vms).to_set()
    &&& s.pool is Some <==> probe.pool_exists
    &&& s.layer is Some <==> probe.layer_exists
    &&& s.metadata.attached == probe.metadata_attached
    &&& s.data.attached == probe.data_attached
    &&& s.metadata.there == probe.metadata_is_file
    &&& probe.data_is_file ==> s.data.there
    &&& s.dir == probe.storage_is_dir
}

spec fn down_from(s: Stack, probe: DeinitProbe) -> Stack {
    Stack {
        volumes: Set::<Seq<char>>::empty(),
        pool: None,
        layer: None,
        layer_shows: if probe.layer_exists {
            false
        } else {
            s.layer_shows
        },
        metadata: detached(s.metadata),
        data: detached(s.data),
        ..s
    }
}

spec fn gone_from(s: Stack, probe: DeinitProbe) -> Stack {
    Stack {
        metadata: Backing { there: false, ..s.metadata },
        data: Backing { there: s.data.there && !probe.data_is_file, ..s.data },
        dir: false,
        ..s
    }
}

proof fn lemma_down(d: DmThinStorage, probe: DeinitProbe, s: Stack)
    requires
        d.names().apart(),
        found(s, probe),
    ensures
        run(d.names(), s, teardown_plan(d, probe)) == Some(down_from(s, probe)),
{
    let n = d.names();
    let images = texts(probe.image_devices@);
    let vms = texts(probe.vm_devices@);
    let i0 = deactivations(images);
    let v0 = deactivations(vms);
    lemma_volumes_go(n, s, images, vms);
    let s2 = Stack { volumes: Set::<Seq<char>>::empty(), ..s };
    let s3 = Stack { pool: None, ..s2 };
    let s4 = Stack {
        layer: None,
        layer_shows: if probe.layer_exists {
            false
        } else {
            s.layer_shows
        },
        ..s3
    };
    let s5 = Stack { metadata: detached(s.metadata), ..s4 };
    let s6 = Stack { data: detached(s.data), ..s5 };
    let a = must(PoolActionView::RemoveDevice(n.pool));
    let b = must(PoolActionView::RemoveDevice(n.layer));
    let c = may(PoolActionView::Detach(n.metadata));
    let e = may(PoolActionView::Detach(n.data));
    if probe.pool_exists {
        assert(effect(n, s2, a.action) == Some(s3)) by {
            reveal(effect);
        }
    }
    if probe.layer_exists {
        assert(effect(n, s3, b.action) == Some(s4)) by {
            reveal(effect);
        }
    }
    if probe.metadata_attached {
        assert(effect(n, s4, c.action) == Some(s5)) by {
            reveal(effect);
        }
    }
    if probe.data_attached {
        assert(effect(n, s5, e.action) == Some(s6)) by {
            reveal(effect);
        }
    }
    let p0 = i0 + v0;
    lemma_when(n, s, p0, s2, probe.pool_exists, a, s3);
    let p1 = p0 + crate::dm_thin_storage::when(probe.pool_exists, a);
    lemma_when(n, s, p1, s3, probe.layer_exists, b, s4);
    let p2 = p1 + crate::dm_thin_storage::when(probe.layer_exists, b);
    lemma_when(n, s, p2, s4, probe.metadata_attached, c, s5);
    let p3 = p2 + crate::dm_thin_storage::when(probe.metadata_attached, c);
    lemma_when(n, s, p3, s5, probe.data_attached, e, s6);
}

proof fn lemma_purged(d: DmThinStorage, probe: DeinitProbe, s: Stack)
    requires
        d.names().apart(),
        !s.metadata.attached,
        !s.data.attached,
        s.metadata.there == probe.metadata_is_file,
        probe.data_is_file ==> s.data.there,
        s.dir == probe.storage_is_dir,
    ensures
        run(d.names(), s, purge_plan(d, probe)) == Some(gone_from(s, probe)),
{
    let n = d.names();
    let t1 = Stack { metadata: Backing { there: false, ..s.metadata }, ..s };
    let t2 = Stack {
        data: Backing { there: s.data.there && !probe.data_is_file, ..t1.data },
        ..t1
    };
    let t3 = Stack { dir: false, ..t2 };
    let f = may(PoolActionView::RemoveFile(n.metadata));
    let g = may(PoolActionView::RemoveFile(n.data));
    let h = may(PoolActionView::RemoveDir(n.dir));
    if probe.metadata_is_file {
        assert(effect(n, s, f.action) == Some(t1)) by {
            reveal(effect);
        }
    }
    if probe.data_is_file {
        assert(effect(n, t1, g.action) == Some(t2)) by {
            reveal(effect);
        }
    }
    if probe.storage_is_dir {
        assert(effect(n, t2, h.action) == Some(t3)) by {
            reveal(effect);
        }
    }
    let q0: Seq<StepView<PoolActionView>> = seq![];
    lemma_none(n, s, q0);
    lemma_when(n, s, q0, s, probe.metadata_is_file, f, t1);
    let q1 = crate::dm_thin_storage::when(probe.metadata_is_file, f);
    assert(q0 + q1 =~= q1);
    lemma_when(n, s, q1, t1, probe.data_is_file, g, t2);
    let q2 = q1 + crate::dm_thin_storage::when(probe.data_is_file, g);
    lemma_when(n, s, q2, t2, probe.storage_is_dir, h, t3);
}

/// A pool that is taken down is gone with the devices of its volumes and all that it lay
/// on, each before what it lies on. Its files stay, and what they hold; those are removed
/// only where that is asked for, and a block device never is.
pub proof fn law_taking_down_a_pool(d: DmThinStorage, probe: DeinitProbe, s: Stack)
    requires
        d.names().apart(),
        found(s, probe),
    ensures
        ({
            let n = d.names();
            let down = run(n, s, teardown_plan(d, probe));
            let gone = run(n, down->0, purge_plan(d, probe));
            &&& down is Some
            &&& down->0.volumes == Set::<Seq<char>>::empty()
            &&& down->0.pool is None && down->0.layer is None
            &&& !down->0.metadata.attached && !down->0.data.attached
            &&& down->0.metadata.there == s.metadata.there
            &&& down->0.data.there == s.data.there
            &&& down->0.formatted == s.formatted && down->0.blank == s.blank
            &&& gone is Some
            &&& !gone->0.metadata.there && !gone->0.dir
            &&& gone->0.data.there == (s.data.there && !probe.data_is_file)
        }),
{
    lemma_down(d, probe, s);
    lemma_purged(d, probe, down_from(s, probe));
}

proof fn lemma_volumes_go(n: Names, s: Stack, images: Seq<Seq<char>>, vms: Seq<Seq<char>>)
    requires
        (images + vms).no_duplicates(),
        s.volumes == (images + vms).to_set(),
    ensures
        run(n, s, deactivations(images) + deactivations(vms)) == Some(
            Stack { volumes: Set::<Seq<char>>::empty(), ..s },
        ),
{
    let both = images + vms;
    assert(images.no_duplicates()) by {
        assert forall|i: int, j: int|
            0 <= i < images.len() && 0 <= j < images.len() && i != j implies images[i]
            != images[j] by {
            assert(both[i] == images[i] && both[j] == images[j]);
        }
    }
    assert(vms.no_duplicates()) by {
        assert forall|i: int, j: int|
            0 <= i < vms.len() && 0 <= j < vms.len() && i != j implies vms[i] != vms[j] by {
            assert(both[i + images.len()] == vms[i] && both[j + images.len()] == vms[j]);
        }
    }
    assert forall|i: int| 0 <= i < images.len() implies s.volumes.contains(
        #[trigger] images[i],
    ) by {
        assert(both[i] == images[i]);
    }
    lemma_deactivated(n, s, images);
    let s1 = Stack { volumes: s.volumes.difference(images.to_set()), ..s };
    assert forall|i: int| 0 <= i < vms.len() implies s1.volumes.contains(#[trigger] vms[i]) by {
        assert(both[i + images.len()] == vms[i]);
        if images.contains(vms[i]) {
            let j = choose|j: int| 0 <= j < images.len() && images[j] == vms[i];
            assert(both[j] == vms[i]);
        }
    }
    lemma_deactivated(n, s1, vms);
    let s2 = Stack { volumes: s1.volumes.difference(vms.to_set()), ..s1 };
    assert(s2.volumes =~= Set::<Seq<char>>::empty()) by {
        assert forall|e: Seq<char>| !s2.volumes.contains(e) by {
            if both.contains(e) {
                let j = choose|j: int| 0 <= j < both.len() && both[j] == e;
                if j < images.len() {
                    assert(images[j] == e);
                } else {
                    assert(vms[j - images.len()] == e);
                }
            }
        }
    }
    lemma_append(n, s, deactivations(images), deactivations(vms));
}

proof fn lemma_when(
    n: Names,
    s0: Stack,
    p: Seq<StepView<PoolActionView>>,
    s: Stack,
    wanted: bool,
    step: StepView<PoolActionView>,
    t: Stack,
)
    requires
        run(n, s0, p) == Some(s),
        wanted ==> effect(n, s, step.action) == Some(t),
        !wanted ==> s == t,
    ensures
        run(n, s0, p + crate::dm_thin_storage::when(wanted, step)) == Some(t),
{
    let q = crate::dm_thin_storage::when(wanted, step);
    lemma_append(n, s0, p, q);
    if wanted {
        lemma_first(n, s, q);
        lemma_none(n, t, q.skip(1));
    }
}

} // verus!
