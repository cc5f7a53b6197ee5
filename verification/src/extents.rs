//! How much of a disk a set of files takes, when files share blocks.
//!
//! A file lies on runs of bytes of the device, its extents. Files that were
//! cloned from each other lie on the same runs until one of them is written
//! to. What a file holds alone, and what all of them take together, can only be
//! told by looking at every byte once.

use vstd::prelude::*;

verus! {

/// A run of bytes of the device.
#[derive(Clone, Copy, Debug, PartialEq, Eq, Structural)]
pub struct Extent {
    pub start: u64,
    pub len: u64,
}

/// What a set of files takes.
#[derive(Debug, PartialEq, Eq)]
pub struct Occupancy {
    /// For each file, the bytes that no other file lies on.
    pub exclusive: Vec<u64>,
    /// The bytes that any of the files lies on.
    pub union: u64,
}

impl Extent {
    /// Where the run ends: the first byte after it, no further than the last
    /// address.
    pub open spec fn end(self) -> int {
        if self.start + self.len > u64::MAX {
            u64::MAX as int
        } else {
            self.start + self.len
        }
    }

    /// Whether the byte `x` belongs to the run.
    pub open spec fn holds(self, x: int) -> bool {
        self.start <= x < self.end()
    }
}

/// Whether a file lies on the byte `x`.
pub open spec fn lies_on(file: Seq<Extent>, x: int) -> bool {
    exists|k: int| 0 <= k < file.len() && (#[trigger] file[k]).holds(x)
}

/// Whether any of the files lies on the byte `x`.
pub open spec fn covered(files: Seq<Vec<Extent>>, x: int) -> bool {
    exists|f: int| 0 <= f < files.len() && lies_on((#[trigger] files[f])@, x)
}

/// Whether the file `f`, and no other, lies on the byte `x`.
pub open spec fn alone(files: Seq<Vec<Extent>>, f: int, x: int) -> bool {
    &&& lies_on(files[f]@, x)
    &&& forall|g: int| 0 <= g < files.len() && g != f ==> !lies_on((#[trigger] files[g])@, x)
}

/// How many numbers from 0 up to, but not with, `n` have the property `p`.
pub open spec fn count(p: spec_fn(int) -> bool, n: int) -> nat
    decreases n,
{
    if n <= 0 {
        0
    } else {
        count(p, n - 1) + if p(n - 1) {
            1nat
        } else {
            0nat
        }
    }
}

/// The number of bytes that any of the files lies on.
pub open spec fn union_bytes(files: Seq<Vec<Extent>>) -> nat {
    count(|x: int| covered(files, x), u64::MAX as int)
}

/// The number of bytes that the file `f`, and no other, lies on.
pub open spec fn exclusive_bytes(files: Seq<Vec<Extent>>, f: int) -> nat {
    count(|x: int| alone(files, f, x), u64::MAX as int)
}

/// Where a run starts or ends.
#[derive(Clone, Copy, Debug)]
struct Event {
    pos: u64,
    opens: bool,
    file: usize,
}

/// What an event adds to the number of runs of the file `f` that are open.
spec fn change(e: Event, f: int) -> int {
    if e.file != f {
        0
    } else if e.opens {
        1
    } else {
        -1
    }
}

/// What an event adds to that number when only events up to `x` count.
spec fn change_to(e: Event, f: int, x: int) -> int {
    if e.pos <= x {
        change(e, f)
    } else {
        0
    }
}

/// The sum of `w` over a list of events.
spec fn sum(s: Seq<Event>, w: spec_fn(Event) -> int) -> int
    decreases s.len(),
{
    if s.len() == 0 {
        0
    } else {
        sum(s.drop_last(), w) + w(s.last())
    }
}

/// The number of runs of `f` that are open after the events `s`.
spec fn total(s: Seq<Event>, f: int) -> int {
    sum(s, |e: Event| change(e, f))
}

/// The number of runs of `f` that are open at `x`.
spec fn balance(s: Seq<Event>, f: int, x: int) -> int {
    sum(s, |e: Event| change_to(e, f, x))
}

spec fn sorted(s: Seq<Event>) -> bool {
    forall|i: int, j: int| 0 <= i <= j < s.len() ==> (#[trigger] s[i]).pos <= (#[trigger] s[j]).pos
}

/// Whether the events are on files below `n`.
spec fn on_files(s: Seq<Event>, n: int) -> bool {
    forall|i: int| 0 <= i < s.len() ==> (#[trigger] s[i]).file < n
}

proof fn lemma_sum_push(s: Seq<Event>, e: Event, w: spec_fn(Event) -> int)
    ensures
        sum(s.push(e), w) == sum(s, w) + w(e),
{
    assert(s.push(e).drop_last() =~= s);
}

proof fn lemma_sum_add(a: Seq<Event>, b: Seq<Event>, w: spec_fn(Event) -> int)
    ensures
        sum(a + b, w) == sum(a, w) + sum(b, w),
    decreases b.len(),
{
    if b.len() == 0 {
        assert(a + b =~= a);
    } else {
        assert((a + b).drop_last() =~= a + b.drop_last());
        lemma_sum_add(a, b.drop_last(), w);
    }
}

/// Merges two sorted lists into one.
fn merge(a: &Vec<Event>, b: &Vec<Event>, n: usize) -> (r: Vec<Event>)
    requires
        sorted(a@),
        sorted(b@),
        on_files(a@, n as int),
        on_files(b@, n as int),
    ensures
        sorted(r@),
        on_files(r@, n as int),
        forall|w: spec_fn(Event) -> int| #[trigger] sum(r@, w) == sum(a@, w) + sum(b@, w),
{
    let mut r: Vec<Event> = Vec::new();
    let mut i: usize = 0;
    let mut j: usize = 0;
    while i < a.len() || j < b.len()
        invariant
            sorted(a@),
            sorted(b@),
            on_files(a@, n as int),
            on_files(b@, n as int),
            i <= a.len(),
            j <= b.len(),
            sorted(r@),
            on_files(r@, n as int),
            forall|k: int, l: int|
                0 <= k < r@.len() && i <= l < a@.len() ==> (#[trigger] r@[k]).pos <= (
                #[trigger] a@[l]).pos,
            forall|k: int, l: int|
                0 <= k < r@.len() && j <= l < b@.len() ==> (#[trigger] r@[k]).pos <= (
                #[trigger] b@[l]).pos,
            forall|w: spec_fn(Event) -> int| #[trigger]
                sum(r@, w) == sum(a@.take(i as int), w) + sum(b@.take(j as int), w),
        decreases a.len() - i + (b.len() - j),
    {
        let ghost before = r@;
        let from_a = j >= b.len() || (i < a.len() && a[i].pos <= b[j].pos);
        if from_a {
            r.push(a[i]);
            assert(a@.take(i + 1).drop_last() =~= a@.take(i as int));
            i = i + 1;
        } else {
            r.push(b[j]);
            assert(b@.take(j + 1).drop_last() =~= b@.take(j as int));
            j = j + 1;
        }
        assert forall|w: spec_fn(Event) -> int| #[trigger]
            sum(r@, w) == sum(a@.take(i as int), w) + sum(b@.take(j as int), w) by {
            lemma_sum_push(before, r@.last(), w);
            assert(before.push(r@.last()) =~= r@);
            assert(sum(before, w) == sum(before, w));
        }
    }
    assert(a@.take(i as int) =~= a@);
    assert(b@.take(j as int) =~= b@);
    r
}

/// The events from `lo` up to, but not with, `hi`, sorted by position.
fn sort(v: &Vec<Event>, lo: usize, hi: usize, n: usize) -> (r: Vec<Event>)
    requires
        lo <= hi <= v.len(),
        on_files(v@, n as int),
    ensures
        sorted(r@),
        on_files(r@, n as int),
        forall|w: spec_fn(Event) -> int| #[trigger]
            sum(r@, w) == sum(v@.subrange(lo as int, hi as int), w),
    decreases hi - lo,
{
    if hi - lo <= 1 {
        let mut r: Vec<Event> = Vec::new();
        if lo < hi {
            r.push(v[lo]);
        }
        assert(r@ =~= v@.subrange(lo as int, hi as int));
        r
    } else {
        let mid: usize = lo + (hi - lo) / 2;
        let a = sort(v, lo, mid, n);
        let b = sort(v, mid, hi, n);
        let r = merge(&a, &b, n);
        assert forall|w: spec_fn(Event) -> int| #[trigger]
            sum(r@, w) == sum(v@.subrange(lo as int, hi as int), w) by {
            let x = v@.subrange(lo as int, mid as int);
            let y = v@.subrange(mid as int, hi as int);
            lemma_sum_add(x, y, w);
            assert(x + y =~= v@.subrange(lo as int, hi as int));
            assert(sum(a@, w) == sum(x, w));
            assert(sum(b@, w) == sum(y, w));
        }
        r
    }
}

/// How many runs of a file hold the byte `x`.
spec fn active(file: Seq<Extent>, x: int) -> int
    decreases file.len(),
{
    if file.len() == 0 {
        0
    } else {
        active(file.drop_last(), x) + if file.last().holds(x) {
            1int
        } else {
            0int
        }
    }
}

proof fn lemma_active(file: Seq<Extent>, x: int)
    ensures
        active(file, x) >= 0,
        active(file, x) > 0 <==> lies_on(file, x),
    decreases file.len(),
{
    if file.len() > 0 {
        let front = file.drop_last();
        lemma_active(front, x);
        if lies_on(front, x) {
            let k = choose|k: int| 0 <= k < front.len() && (#[trigger] front[k]).holds(x);
            assert(file[k].holds(x));
        }
        if file.last().holds(x) {
            assert(file[file.len() - 1].holds(x));
        }
        if lies_on(file, x) && !file.last().holds(x) {
            let k = choose|k: int| 0 <= k < file.len() && (#[trigger] file[k]).holds(x);
            assert(front[k].holds(x));
        }
    }
}

/// What the events say when the files before `idx` and the first `k` extents
/// of `idx` have been entered.
spec fn entered(ev: Seq<Event>, files: Seq<Vec<Extent>>, idx: int, k: int) -> bool {
    &&& forall|f: int, x: int|
        0 <= f < files.len() ==> #[trigger] balance(ev, f, x) == (if f < idx {
            active(files[f]@, x)
        } else if f == idx {
            active(files[f]@.take(k), x)
        } else {
            0
        })
    &&& forall|f: int| 0 <= f < files.len() ==> #[trigger] total(ev, f) == 0
}

proof fn lemma_enter(
    ev: Seq<Event>,
    after: Seq<Event>,
    files: Seq<Vec<Extent>>,
    idx: int,
    k: int,
    e: Extent,
)
    requires
        0 <= idx < files.len() <= usize::MAX,
        0 <= k < files[idx]@.len(),
        e == files[idx]@[k],
        entered(ev, files, idx, k),
        e.len == 0 ==> after == ev,
        e.len > 0 ==> after == ev.push(
            Event { pos: e.start, opens: true, file: idx as usize },
        ).push(Event { pos: e.end() as u64, opens: false, file: idx as usize }),
    ensures
        entered(after, files, idx, k + 1),
{
    let file = files[idx]@;
    assert(file.take(k + 1).drop_last() =~= file.take(k));
    let a = Event { pos: e.start, opens: true, file: idx as usize };
    let b = Event { pos: e.end() as u64, opens: false, file: idx as usize };
    assert forall|f: int, x: int| 0 <= f < files.len() implies #[trigger] balance(after, f, x) == (
    if f < idx {
        active(files[f]@, x)
    } else if f == idx {
        active(files[f]@.take(k + 1), x)
    } else {
        0
    }) by {
        let w = |e: Event| change_to(e, f, x);
        assert(balance(ev, f, x) == sum(ev, w));
        if e.len > 0 {
            lemma_sum_push(ev, a, w);
            lemma_sum_push(ev.push(a), b, w);
        }
        assert(balance(after, f, x) == sum(after, w));
    }
    assert forall|f: int| 0 <= f < files.len() implies #[trigger] total(after, f) == 0 by {
        let w = |e: Event| change(e, f);
        assert(total(ev, f) == sum(ev, w));
        if e.len > 0 {
            lemma_sum_push(ev, a, w);
            lemma_sum_push(ev.push(a), b, w);
        }
        assert(total(after, f) == sum(after, w));
    }
}

/// Where the runs of the files start and end.
fn events_of(files: &[Vec<Extent>]) -> (r: Vec<Event>)
    ensures
        on_files(r@, files@.len() as int),
        forall|f: int, x: int|
            0 <= f < files@.len() ==> #[trigger] balance(r@, f, x) == active(files@[f]@, x),
        forall|f: int| 0 <= f < files@.len() ==> #[trigger] total(r@, f) == 0,
{
    let mut ev: Vec<Event> = Vec::new();
    let mut idx: usize = 0;
    proof {
        if files@.len() > 0 {
            assert(files@[0]@.take(0) =~= seq![]);
        }
    }
    while idx < files.len()
        invariant
            idx <= files.len(),
            on_files(ev@, files@.len() as int),
            entered(ev@, files@, idx as int, 0),
        decreases files.len() - idx,
    {
        let mut k: usize = 0;
        while k < files[idx].len()
            invariant
                idx < files.len(),
                k <= files@[idx as int]@.len(),
                on_files(ev@, files@.len() as int),
                entered(ev@, files@, idx as int, k as int),
            decreases files[idx as int].len() - k,
        {
            let e = files[idx][k];
            let ghost before = ev@;
            if e.len != 0 {
                ev.push(Event { pos: e.start, opens: true, file: idx });
                ev.push(Event { pos: e.start.saturating_add(e.len), opens: false, file: idx });
            }
            proof {
                lemma_enter(before, ev@, files@, idx as int, k as int, e);
            }
            k = k + 1;
        }
        proof {
            assert(files@[idx as int]@.take(k as int) =~= files@[idx as int]@);
            if idx + 1 < files@.len() {
                assert(files@[idx + 1]@.take(0) =~= seq![]);
            }
            assert forall|f: int, x: int| 0 <= f < files@.len() implies #[trigger] balance(
                ev@,
                f,
                x,
            ) == (if f < idx + 1 {
                active(files@[f]@, x)
            } else if f == idx + 1 {
                active(files@[f]@.take(0), x)
            } else {
                0
            }) by {
                assert(active(Seq::<Extent>::empty(), x) == 0);
            }
        }
        idx = idx + 1;
    }
    ev
}

/// In a sorted list the events up to a place where `x` lies between two
/// neighbours are those that count at `x`.
proof fn lemma_balance_at(s: Seq<Event>, i: int, f: int, x: int)
    requires
        0 <= i <= s.len(),
        forall|k: int| 0 <= k < i ==> (#[trigger] s[k]).pos <= x,
        forall|k: int| i <= k < s.len() ==> (#[trigger] s[k]).pos > x,
    ensures
        balance(s, f, x) == total(s.take(i), f),
    decreases s.len(),
{
    let wb = |e: Event| change_to(e, f, x);
    let wt = |e: Event| change(e, f);
    if s.len() > i {
        let front = s.drop_last();
        assert forall|k: int| 0 <= k < front.len() implies (#[trigger] front[k]) == s[k] by {}
        lemma_balance_at(front, i, f, x);
        assert(front.take(i) =~= s.take(i));
        assert(s.last() == s[s.len() - 1]);
        assert(balance(front, f, x) == sum(front, wb));
        assert(balance(s, f, x) == sum(s, wb));
    } else {
        assert(s.take(i) =~= s);
        lemma_sum_same(s, wb, wt);
    }
}

proof fn lemma_sum_same(s: Seq<Event>, v: spec_fn(Event) -> int, w: spec_fn(Event) -> int)
    requires
        forall|k: int| 0 <= k < s.len() ==> v(#[trigger] s[k]) == w(s[k]),
    ensures
        sum(s, v) == sum(s, w),
    decreases s.len(),
{
    if s.len() > 0 {
        let front = s.drop_last();
        assert forall|k: int| 0 <= k < front.len() implies v(#[trigger] front[k]) == w(front[k]) by {
            assert(front[k] == s[k]);
        }
        lemma_sum_same(front, v, w);
        assert(s.last() == s[s.len() - 1]);
    }
}

/// How many files have a run open.
spec fn open_files(depth: Seq<i128>) -> int
    decreases depth.len(),
{
    if depth.len() == 0 {
        0
    } else {
        open_files(depth.drop_last()) + if depth.last() > 0 {
            1int
        } else {
            0int
        }
    }
}

/// The sum of the numbers of the files that have a run open.
spec fn open_sum(depth: Seq<i128>) -> int
    decreases depth.len(),
{
    if depth.len() == 0 {
        0
    } else {
        open_sum(depth.drop_last()) + if depth.last() > 0 {
            depth.len() - 1
        } else {
            0
        }
    }
}

proof fn lemma_open_update(depth: Seq<i128>, f: int, v: i128)
    requires
        0 <= f < depth.len(),
    ensures
        open_files(depth.update(f, v)) == open_files(depth) - (if depth[f] > 0 {
            1int
        } else {
            0int
        }) + (if v > 0 {
            1int
        } else {
            0int
        }),
        open_sum(depth.update(f, v)) == open_sum(depth) - (if depth[f] > 0 {
            f
        } else {
            0
        }) + (if v > 0 {
            f
        } else {
            0
        }),
    decreases depth.len(),
{
    let u = depth.update(f, v);
    if f == depth.len() - 1 {
        assert(u.drop_last() =~= depth.drop_last());
    } else {
        assert(u.drop_last() =~= depth.drop_last().update(f, v));
        lemma_open_update(depth.drop_last(), f, v);
    }
}

proof fn lemma_open(depth: Seq<i128>)
    ensures
        0 <= open_files(depth) <= depth.len(),
        0 <= open_sum(depth) <= depth.len() * depth.len(),
        open_files(depth) == 0 <==> forall|f: int| 0 <= f < depth.len() ==> #[trigger] depth[f] <= 0,
        open_files(depth) == 0 ==> open_sum(depth) == 0,
        open_files(depth) == 1 ==> 0 <= open_sum(depth) < depth.len() && depth[open_sum(depth)] > 0
            && forall|f: int|
            0 <= f < depth.len() && f != open_sum(depth) ==> #[trigger] depth[f] <= 0,
        open_files(depth) > 1 ==> exists|f: int, g: int|
            0 <= f < g < depth.len() && #[trigger] depth[f] > 0 && #[trigger] depth[g] > 0,
    decreases depth.len(),
{
    if depth.len() > 0 {
        let front = depth.drop_last();
        let n = front.len();
        lemma_open(front);
        assert((n + 1) * (n + 1) == n * n + 2 * n + 1) by (nonlinear_arith);
        assert forall|f: int| 0 <= f < n implies #[trigger] front[f] == depth[f] by {}
        assert(depth.last() == depth[n as int]);
        if open_files(depth) == 0 {
            assert forall|f: int| 0 <= f < depth.len() implies #[trigger] depth[f] <= 0 by {
                if f < n {
                    assert(front[f] <= 0);
                }
            }
        }
        if forall|f: int| 0 <= f < depth.len() ==> #[trigger] depth[f] <= 0 {
            assert forall|f: int| 0 <= f < n implies #[trigger] front[f] <= 0 by {
                assert(depth[f] <= 0);
            }
            assert(depth[n as int] <= 0);
        }
        if open_files(depth) == 1 {
            assert forall|f: int|
                0 <= f < depth.len() && f != open_sum(depth) implies #[trigger] depth[f] <= 0 by {
                if f < n {
                    assert(front[f] <= 0);
                }
            }
        }
        if open_files(depth) > 1 {
            if open_files(front) > 1 {
                let (f, g) = choose|f: int, g: int|
                    0 <= f < g < front.len() && #[trigger] front[f] > 0 && #[trigger] front[g] > 0;
                assert(depth[f] > 0 && depth[g] > 0);
            } else {
                let f = open_sum(front);
                assert(depth[f] > 0 && depth[n as int] > 0);
            }
        }
    }
}

/// Over a stretch where `p` does not change, all or nothing is counted.
proof fn lemma_count_stretch(p: spec_fn(int) -> bool, lo: int, hi: int, b: bool)
    requires
        0 <= lo <= hi,
        forall|x: int| lo <= x < hi ==> #[trigger] p(x) == b,
    ensures
        count(p, hi) == count(p, lo) + if b {
            hi - lo
        } else {
            0
        },
    decreases hi - lo,
{
    if lo < hi {
        lemma_count_stretch(p, lo, hi - 1, b);
        assert(p(hi - 1) == b);
    }
}

/// Between two neighbouring events the same files lie on every byte: those
/// that have a run open.
proof fn lemma_stretch(
    files: Seq<Vec<Extent>>,
    ev: Seq<Event>,
    i: int,
    depth: Seq<i128>,
    lo: int,
    hi: int,
    x: int,
)
    requires
        sorted(ev),
        0 <= i <= ev.len(),
        depth.len() == files.len(),
        lo <= x < hi,
        forall|k: int| 0 <= k < i ==> (#[trigger] ev[k]).pos <= lo,
        i < ev.len() ==> hi <= ev[i].pos,
        forall|f: int, x: int|
            0 <= f < files.len() ==> #[trigger] balance(ev, f, x) == active(files[f]@, x),
        forall|f: int| 0 <= f < files.len() ==> #[trigger] depth[f] == total(ev.take(i), f),
    ensures
        forall|f: int| 0 <= f < files.len() ==> (lies_on((#[trigger] files[f])@, x) <==> depth[f] > 0),
        covered(files, x) <==> open_files(depth) > 0,
        forall|f: int|
            0 <= f < files.len() ==> (#[trigger] alone(files, f, x) <==> open_files(depth) == 1
                && open_sum(depth) == f),
{
    assert forall|f: int| 0 <= f < files.len() implies (lies_on((#[trigger] files[f])@, x)
        <==> depth[f] > 0) by {
        assert forall|k: int| i <= k < ev.len() implies (#[trigger] ev[k]).pos > x by {
            assert(ev[i].pos <= ev[k].pos);
        }
        lemma_balance_at(ev, i, f, x);
        lemma_active(files[f]@, x);
        assert(balance(ev, f, x) == active(files[f]@, x));
    }
    lemma_open(depth);
    if covered(files, x) {
        let f = choose|f: int| 0 <= f < files.len() && lies_on((#[trigger] files[f])@, x);
        assert(depth[f] > 0);
    }
    if open_files(depth) > 0 {
        if forall|f: int| 0 <= f < depth.len() ==> #[trigger] depth[f] <= 0 {
        } else {
            let f = choose|f: int| 0 <= f < depth.len() && !(#[trigger] depth[f] <= 0);
            assert(lies_on(files[f]@, x));
        }
    }
    assert forall|f: int| 0 <= f < files.len() implies (#[trigger] alone(files, f, x)
        <==> open_files(depth) == 1 && open_sum(depth) == f) by {
        assert(lies_on(files[f]@, x) <==> depth[f] > 0);
        if alone(files, f, x) {
            if open_files(depth) > 1 {
                let (g, h) = choose|g: int, h: int|
                    0 <= g < h < depth.len() && #[trigger] depth[g] > 0 && #[trigger] depth[h] > 0;
                assert(lies_on(files[g]@, x));
                assert(lies_on(files[h]@, x));
            }
        }
        if open_files(depth) == 1 && open_sum(depth) == f {
            assert forall|g: int| 0 <= g < files.len() && g != f implies !lies_on(
                (#[trigger] files[g])@,
                x,
            ) by {
                assert(depth[g] <= 0);
            }
        }
    }
}

/// What the files take: for each the bytes that it holds alone, and the bytes
/// that all of them take together.
pub fn occupancy(files: &[Vec<Extent>]) -> (r: Occupancy)
    ensures
        r.union == union_bytes(files@),
        r.exclusive@.len() == files@.len(),
        forall|f: int|
            0 <= f < files@.len() ==> #[trigger] r.exclusive@[f] == exclusive_bytes(files@, f),
{
    let n: usize = files.len();
    let unsorted = events_of(files);
    let ev = sort(&unsorted, 0, unsorted.len(), n);
    proof {
        assert(unsorted@.subrange(0, unsorted@.len() as int) =~= unsorted@);
        assert forall|f: int, x: int| 0 <= f < files@.len() implies #[trigger] balance(ev@, f, x)
            == active(files@[f]@, x) by {
            let w = |e: Event| change_to(e, f, x);
            assert(sum(ev@, w) == sum(unsorted@, w));
            assert(balance(unsorted@, f, x) == active(files@[f]@, x));
        }
        assert forall|f: int| 0 <= f < files@.len() implies #[trigger] total(ev@, f) == 0 by {
            let w = |e: Event| change(e, f);
            assert(sum(ev@, w) == sum(unsorted@, w));
            assert(total(unsorted@, f) == 0);
        }
    }
    let mut depth: Vec<i128> = Vec::new();
    let mut exclusive: Vec<u64> = Vec::new();
    let mut m: usize = 0;
    while m < n
        invariant
            m <= n == files@.len(),
            depth@.len() == m,
            exclusive@.len() == m,
            forall|f: int| 0 <= f < m ==> #[trigger] depth@[f] == 0,
            forall|f: int| 0 <= f < m ==> #[trigger] exclusive@[f] == 0,
        decreases n - m,
    {
        depth.push(0);
        exclusive.push(0);
        m = m + 1;
    }
    let ghost cov = |x: int| covered(files@, x);
    let mut union: u64 = 0;
    let mut covering: usize = 0;
    let mut index_sum: u128 = 0;
    let mut at: u64 = 0;
    let mut i: usize = 0;
    proof {
        lemma_open(depth@);
        assert(ev@.take(0) =~= seq![]);
    }
    while i < ev.len()
        invariant
            n == files@.len(),
            i <= ev.len(),
            sorted(ev@),
            on_files(ev@, n as int),
            forall|f: int, x: int|
                0 <= f < files@.len() ==> #[trigger] balance(ev@, f, x) == active(files@[f]@, x),
            depth@.len() == n,
            exclusive@.len() == n,
            forall|f: int| 0 <= f < n ==> #[trigger] depth@[f] == total(ev@.take(i as int), f),
            forall|f: int| 0 <= f < n ==> -i <= #[trigger] depth@[f] <= i,
            covering == open_files(depth@),
            index_sum == open_sum(depth@),
            forall|k: int| 0 <= k < i ==> (#[trigger] ev@[k]).pos <= at,
            i < ev.len() ==> at <= ev@[i as int].pos,
            cov == (|x: int| covered(files@, x)),
            union == count(cov, at as int),
            union <= at,
            forall|f: int|
                0 <= f < n ==> #[trigger] exclusive@[f] == count(
                    |x: int| alone(files@, f, x),
                    at as int,
                ),
            forall|f: int| 0 <= f < n ==> #[trigger] exclusive@[f] <= at,
        decreases ev.len() - i,
    {
        let e = ev[i];
        let seg: u64 = e.pos - at;
        let ghost d0 = depth@;
        let ghost ex0 = exclusive@;
        proof {
            lemma_open(depth@);
            assert forall|x: int| at <= x < e.pos implies #[trigger] cov(x) == (covering > 0) by {
                lemma_stretch(files@, ev@, i as int, depth@, at as int, e.pos as int, x);
            }
            lemma_count_stretch(cov, at as int, e.pos as int, covering > 0);
        }
        if covering > 0 {
            union = union + seg;
            if covering == 1 {
                let g: usize = index_sum as usize;
                let x: u64 = exclusive[g] + seg;
                exclusive.set(g, x);
            }
        }
        proof {
            assert forall|f: int| 0 <= f < n implies #[trigger] exclusive@[f] == count(
                |x: int| alone(files@, f, x),
                e.pos as int,
            ) && exclusive@[f] <= e.pos by {
                let p = |x: int| alone(files@, f, x);
                let b = covering == 1 && index_sum == f;
                assert forall|x: int| at <= x < e.pos implies #[trigger] p(x) == b by {
                    lemma_stretch(files@, ev@, i as int, d0, at as int, e.pos as int, x);
                    assert(alone(files@, f, x) <==> open_files(d0) == 1 && open_sum(d0) == f);
                }
                lemma_count_stretch(p, at as int, e.pos as int, b);
                assert(ex0[f] == count(p, at as int));
            }
        }
        at = e.pos;
        let old_depth: i128 = depth[e.file];
        let new_depth: i128 = if e.opens { old_depth + 1 } else { old_depth - 1 };
        proof {
            lemma_open_update(depth@, e.file as int, new_depth);
            lemma_open(depth@.update(e.file as int, new_depth));
            assert(n * n <= usize::MAX * usize::MAX) by (nonlinear_arith)
                requires
                    0 <= n <= usize::MAX,
            ;
            assert(usize::MAX * usize::MAX <= u64::MAX * u64::MAX) by (nonlinear_arith)
                requires
                    0 <= usize::MAX <= u64::MAX,
            ;
        }
        depth.set(e.file, new_depth);
        if e.opens {
            if new_depth == 1 {
                covering = covering + 1;
                index_sum = index_sum + e.file as u128;
            }
        } else {
            if new_depth == 0 {
                covering = covering - 1;
                index_sum = index_sum - e.file as u128;
            }
        }
        proof {
            assert(ev@.take(i + 1).drop_last() =~= ev@.take(i as int));
            assert forall|f: int| 0 <= f < n implies #[trigger] depth@[f] == total(
                ev@.take(i + 1),
                f,
            ) by {
                let w = |e: Event| change(e, f);
                assert(total(ev@.take(i as int), f) == sum(ev@.take(i as int), w));
                assert(total(ev@.take(i + 1), f) == sum(ev@.take(i + 1), w));
                assert(d0[f] == total(ev@.take(i as int), f));
            }
            assert forall|f: int| 0 <= f < n implies -(i + 1) <= #[trigger] depth@[f] <= i + 1 by {
                assert(-i <= d0[f] <= i);
            }
            if i + 1 < ev@.len() {
                assert(ev@[i as int].pos <= ev@[i + 1].pos);
            }
        }
        i = i + 1;
    }
    proof {
        assert(ev@.take(i as int) =~= ev@);
        assert forall|f: int| 0 <= f < depth@.len() implies #[trigger] depth@[f] <= 0 by {
            assert(depth@[f] == total(ev@, f));
        }
        lemma_open(depth@);
        assert forall|x: int| at <= x < u64::MAX implies #[trigger] cov(x) == false by {
            lemma_stretch(files@, ev@, i as int, depth@, at as int, u64::MAX as int, x);
        }
        lemma_count_stretch(cov, at as int, u64::MAX as int, false);
        assert forall|f: int| 0 <= f < n implies #[trigger] exclusive@[f] == exclusive_bytes(
            files@,
            f,
        ) by {
            let p = |x: int| alone(files@, f, x);
            assert forall|x: int| at <= x < u64::MAX implies #[trigger] p(x) == false by {
                lemma_stretch(files@, ev@, i as int, depth@, at as int, u64::MAX as int, x);
                assert(alone(files@, f, x) <==> open_files(depth@) == 1 && open_sum(depth@) == f);
            }
            lemma_count_stretch(p, at as int, u64::MAX as int, false);
            assert(exclusive@[f] == count(p, at as int));
        }
    }
    Occupancy { exclusive, union }
}

/// The sum of what the first `k` files hold alone.
pub open spec fn exclusive_sum(files: Seq<Vec<Extent>>, k: int, n: int) -> nat
    decreases k,
{
    if k <= 0 {
        0
    } else {
        exclusive_sum(files, k - 1, n) + count(|x: int| alone(files, k - 1, x), n)
    }
}

proof fn lemma_exclusive_step(files: Seq<Vec<Extent>>, k: int, n: int)
    requires
        0 <= k <= files.len(),
        n > 0,
    ensures
        exclusive_sum(files, k, n) <= exclusive_sum(files, k, n - 1) + 1,
        (forall|f: int| 0 <= f < k ==> !#[trigger] alone(files, f, n - 1)) ==> exclusive_sum(
            files,
            k,
            n,
        ) == exclusive_sum(files, k, n - 1),
    decreases k,
{
    if k > 0 {
        lemma_exclusive_step(files, k - 1, n);
        if alone(files, k - 1, n - 1) {
            assert(lies_on(files[k - 1]@, n - 1));
            assert forall|f: int| 0 <= f < k - 1 implies !#[trigger] alone(files, f, n - 1) by {}
        }
    }
}

/// What the files hold alone is together no more than what they take together.
pub proof fn law_exclusive_within_union(files: Seq<Vec<Extent>>, n: int)
    requires
        0 <= n,
    ensures
        exclusive_sum(files, files.len() as int, n) <= count(|x: int| covered(files, x), n),
    decreases n,
{
    let k = files.len() as int;
    if n > 0 {
        law_exclusive_within_union(files, n - 1);
        lemma_exclusive_step(files, k, n);
        if !covered(files, n - 1) {
            assert forall|f: int| 0 <= f < k implies !#[trigger] alone(files, f, n - 1) by {}
        }
    } else {
        lemma_exclusive_none(files, k, n);
    }
}

proof fn lemma_exclusive_none(files: Seq<Vec<Extent>>, k: int, n: int)
    requires
        n <= 0,
    ensures
        exclusive_sum(files, k, n) == 0,
    decreases k,
{
    if k > 0 {
        lemma_exclusive_none(files, k - 1, n);
    }
}

proof fn lemma_count_zero(p: spec_fn(int) -> bool, n: int)
    requires
        forall|x: int| !#[trigger] p(x),
    ensures
        count(p, n) == 0,
    decreases n,
{
    if n > 0 {
        lemma_count_zero(p, n - 1);
    }
}

/// Of two files that lie on the same runs, neither holds anything alone.
pub proof fn law_clones_hold_nothing_alone(files: Seq<Vec<Extent>>, f: int, g: int)
    requires
        0 <= f < files.len(),
        0 <= g < files.len(),
        f != g,
        files[f]@ == files[g]@,
    ensures
        exclusive_bytes(files, f) == 0,
        exclusive_bytes(files, g) == 0,
{
    assert forall|x: int| !#[trigger] alone(files, f, x) by {
        if lies_on(files[f]@, x) {
            assert(lies_on(files[g]@, x));
        }
    }
    assert forall|x: int| !#[trigger] alone(files, g, x) by {
        if lies_on(files[g]@, x) {
            assert(lies_on(files[f]@, x));
        }
    }
    lemma_count_zero(|x: int| alone(files, f, x), u64::MAX as int);
    lemma_count_zero(|x: int| alone(files, g, x), u64::MAX as int);
}

// ---------------------------------------------------------------------
// Finding the extents of a file
// ---------------------------------------------------------------------

/// The error code for a place after the last data.
pub const ENXIO: i32 = 6;

/// The error code for a place that has no address on the device.
pub const ERANGE: i32 = 34;

/// A walk over the data of a file, from extent to extent.
#[derive(Debug)]
pub struct Scan {
    /// The length of the file.
    pub size: u64,
    /// The extents found so far.
    pub extents: Vec<Extent>,
}

/// What the walk needs next.
#[derive(Clone, Copy, Debug, PartialEq, Eq, Structural)]
pub enum ScanAction {
    /// Find the first data from here on.
    SeekData { from: u64 },
    /// Find where the data at `at` lies on the device, and for how many bytes
    /// it lies there in one run, at most `len`.
    Locate { at: u64, len: u64 },
    /// All extents are found.
    Done,
    /// The walk failed with this error code.
    Fail { code: i32 },
}

/// How the walk goes on at `from`.
pub open spec fn seek_from(size: u64, from: u64) -> ScanAction {
    if from < size {
        ScanAction::SeekData { from }
    } else {
        ScanAction::Done
    }
}

impl Scan {
    /// A walk over a file of so many bytes, and how it starts.
    pub fn new(size: u64) -> (r: (Scan, ScanAction))
        ensures
            r.0.size == size,
            r.0.extents@ == Seq::<Extent>::empty(),
            r.1 == seek_from(size, 0),
    {
        let action = if 0 < size {
            ScanAction::SeekData { from: 0 }
        } else {
            ScanAction::Done
        };
        (Scan { size, extents: Vec::new() }, action)
    }

    /// How the walk goes on when the search for data gave a place, or an
    /// error code.
    pub fn after_seek(&self, found: Result<u64, i32>) -> (r: ScanAction)
        ensures
            r == match found {
                Err(code) => if code == ENXIO {
                    ScanAction::Done
                } else {
                    ScanAction::Fail { code }
                },
                Ok(at) => if at >= self.size {
                    ScanAction::Done
                } else {
                    ScanAction::Locate { at, len: (self.size - at) as u64 }
                },
            },
    {
        match found {
            Err(code) => {
                if code == ENXIO {
                    ScanAction::Done
                } else {
                    ScanAction::Fail { code }
                }
            },
            Ok(at) => {
                if at >= self.size {
                    ScanAction::Done
                } else {
                    ScanAction::Locate { at, len: self.size - at }
                }
            },
        }
    }

    /// How the walk goes on when the data at `at` was found to lie at a place
    /// of the device for a number of bytes, or an error code came back.
    pub fn after_locate(&mut self, at: u64, located: Result<(u64, i64), i32>) -> (r: ScanAction)
        ensures
            final(self).size == old(self).size,
            match located {
                Err(code) => {
                    &&& final(self).extents@ == old(self).extents@
                    &&& r == (if code == ERANGE {
                        ScanAction::Done
                    } else {
                        ScanAction::Fail { code }
                    })
                },
                Ok((start, run)) => if run <= 0 {
                    final(self).extents@ == old(self).extents@ && r == ScanAction::Done
                } else {
                    &&& final(self).extents@ == old(self).extents@.push(
                        Extent { start, len: run as u64 },
                    )
                    &&& r == seek_from(
                        old(self).size,
                        (if at + run > u64::MAX {
                            u64::MAX as int
                        } else {
                            at + run
                        }) as u64,
                    )
                },
            },
    {
        match located {
            Err(code) => {
                if code == ERANGE {
                    ScanAction::Done
                } else {
                    ScanAction::Fail { code }
                }
            },
            Ok((start, run)) => {
                if run <= 0 {
                    return ScanAction::Done;
                }
                let len: u64 = run as u64;
                self.extents.push(Extent { start, len });
                let from: u64 = at.saturating_add(len);
                if from < self.size {
                    ScanAction::SeekData { from }
                } else {
                    ScanAction::Done
                }
            },
        }
    }
}

} // verus!
