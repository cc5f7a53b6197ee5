//! What follows when several processes change one file of the state.
//!
//! Each of them goes through the steps of [`changing`], in any order among each
//! other, and each may fail or be killed at any point. What can be said of the
//! file then is said here.

use vstd::prelude::*;
use vstd::string::*;

use crate::procedure::StepView;
use crate::store::{changing, lock_of, locking, looking, tmp_of, writing, Purpose, StoreView};
use crate::text::{dec, lemma_dec_value};

verus! {

/// What one process is out for.
pub struct Job {
    pub purpose: Purpose,
    pub pid: nat,
    /// The new contents, where the old ones do not count.
    pub data: Seq<char>,
    /// The new contents, given the old ones, where they do; `None` where the
    /// change is refused, which is a failure.
    pub change: spec_fn(Option<Seq<char>>) -> Option<Seq<char>>,
}

impl Job {
    /// What the job makes of a file.
    pub open spec fn result(self, old: Option<Seq<char>>) -> Seq<char> {
        match self.purpose {
            Purpose::Create => self.data,
            Purpose::Write => self.data,
            Purpose::Update => (self.change)(old)->0,
            Purpose::UpdateWith => (self.change)(old)->0,
        }
    }

    /// Whether the job can be done to a file that holds `old`.
    pub open spec fn accepts(self, old: Option<Seq<char>>) -> bool {
        match self.purpose {
            Purpose::Create => old is None,
            Purpose::Write => true,
            Purpose::Update => old is Some && (self.change)(old) is Some,
            Purpose::UpdateWith => (self.change)(old) is Some,
        }
    }
}

/// How far one process is.
pub struct Progress {
    /// The step it does next.
    pub at: int,
    /// Whether it is still at it.
    pub running: bool,
    /// What it has read.
    pub seen: Option<Seq<char>>,
    /// What it will write.
    pub value: Seq<char>,
}

/// Several processes at one file.
pub struct World {
    pub path: Seq<char>,
    pub files: Map<Seq<char>, Seq<char>>,
    /// Who holds the lock of the file.
    pub holder: Option<int>,
    pub jobs: Seq<Job>,
    pub progress: Seq<Progress>,
    /// Who has come to the end, in this order.
    pub done: Seq<int>,
}

/// What is in a file.
pub open spec fn content(files: Map<Seq<char>, Seq<char>>, path: Seq<char>) -> Option<Seq<char>> {
    if files.contains_key(path) {
        Some(files[path])
    } else {
        None
    }
}

impl World {
    /// What is in the file.
    pub open spec fn content(self) -> Option<Seq<char>> {
        content(self.files, self.path)
    }

    /// The steps of one process.
    pub open spec fn steps(self, i: int) -> Seq<StepView<StoreView>> {
        changing(self.jobs[i].purpose, self.path, tmp_of(self.path, self.jobs[i].pid))
    }

    /// The file that one process writes first.
    pub open spec fn tmp(self, i: int) -> Seq<char> {
        tmp_of(self.path, self.jobs[i].pid)
    }
}

/// Whether nobody has begun yet. No two processes have the same number.
pub open spec fn initial(w: World) -> bool {
    &&& w.holder is None
    &&& w.done.len() == 0
    &&& w.jobs.len() == w.progress.len()
    &&& forall|i: int|
        0 <= i < w.jobs.len() ==> (#[trigger] w.progress[i]).at == 0 && w.progress[i].running
            && w.progress[i].value == w.jobs[i].data
    &&& forall|i: int, j: int|
        0 <= i < w.jobs.len() && 0 <= j < w.jobs.len() && i != j ==> (#[trigger] w.jobs[i]).pid != (
        #[trigger] w.jobs[j]).pid
}

/// What the next step of `i`, done with success, does to what it has in hand.
pub open spec fn in_hand(a: World, i: int) -> Progress {
    let p = a.progress[i];
    let next = Progress { at: p.at + 1, running: p.at + 1 < a.steps(i).len(), ..p };
    match a.steps(i)[p.at].action {
        StoreView::ReadExisting(_) => Progress { seen: a.content(), ..next },
        StoreView::ReadOrDefault(_) => Progress { seen: a.content(), ..next },
        StoreView::Change => Progress { value: (a.jobs[i].change)(p.seen)->0, ..next },
        _ => next,
    }
}

/// Whether the files can go from `before` to `after` by the next step of `i`,
/// done with success.
pub open spec fn touches(a: World, i: int, after: Map<Seq<char>, Seq<char>>) -> bool {
    let p = a.progress[i];
    match a.steps(i)[p.at].action {
        StoreView::LockExclusive(lock) => a.holder is None && after == a.files.insert(lock, seq![]),
        StoreView::RefuseExisting(path) => !a.files.contains_key(path) && after == a.files,
        StoreView::ReadExisting(path) => a.files.contains_key(path) && after == a.files,
        StoreView::Change => (a.jobs[i].change)(p.seen) is Some && after == a.files,
        StoreView::WriteFile(tmp) => after == a.files.insert(tmp, p.value),
        StoreView::Rename(tmp, path) => a.files.contains_key(tmp) && after == a.files.remove(
            tmp,
        ).insert(path, a.files[tmp]),
        _ => after == a.files,
    }
}

/// Whether `b` can follow on `a` by the next step of `i`. A step that does not
/// succeed ends the process, which may leave anything in the file that it wrote
/// first and in its lock file; the lock of a process that has ended is free.
pub open spec fn moves(a: World, b: World, i: int, ok: bool) -> bool {
    let p = a.progress[i];
    let over = !ok || p.at + 1 == a.steps(i).len();
    &&& 0 <= i < a.jobs.len()
    &&& p.running
    &&& b.path == a.path
    &&& b.jobs == a.jobs
    &&& b.holder == (if over && a.holder == Some(i) {
        None
    } else if ok && a.steps(i)[p.at].action is LockExclusive {
        Some(i)
    } else {
        a.holder
    })
    &&& b.done == (if ok && over {
        a.done.push(i)
    } else {
        a.done
    })
    &&& if ok {
        &&& b.progress == a.progress.update(i, in_hand(a, i))
        &&& touches(a, i, b.files)
    } else {
        &&& b.progress == a.progress.update(i, Progress { running: false, ..p })
        &&& b.files.remove(a.tmp(i)).remove(lock_of(a.path)) == a.files.remove(a.tmp(i)).remove(
            lock_of(a.path),
        )
    }
}

/// Whether `b` can follow on `a`.
pub open spec fn follows(a: World, b: World) -> bool {
    exists|i: int, ok: bool| #[trigger] moves(a, b, i, ok)
}

/// Whether this is a way things can go.
pub open spec fn course(trace: Seq<World>) -> bool {
    &&& trace.len() > 0
    &&& initial(trace[0])
    &&& forall|k: int| 0 <= k < trace.len() - 1 ==> #[trigger] can_go_on(trace, k)
}

/// Whether a course goes on from its place `k` as it can.
pub open spec fn can_go_on(trace: Seq<World>, k: int) -> bool {
    follows(trace[k], trace[k + 1])
}

/// What a file holds when these jobs, and no others, are done one after the other.
pub open spec fn replay(first: Option<Seq<char>>, jobs: Seq<Job>, done: Seq<int>) -> Option<Seq<char>>
    decreases done.len(),
{
    if done.len() == 0 {
        first
    } else {
        Some(jobs[done.last()].result(replay(first, jobs, done.drop_last())))
    }
}

/// Whether the job that was done at the place `k` could be done to what the jobs
/// before it had left.
pub open spec fn accepted(first: Option<Seq<char>>, jobs: Seq<Job>, done: Seq<int>, k: int) -> bool {
    jobs[done[k]].accepts(replay(first, jobs, done.take(k)))
}

/// What one process has made sure of.
spec fn sure_of(w: World, i: int) -> bool {
    let p = w.progress[i];
    let job = w.jobs[i];
    let n = w.steps(i).len();
    p.running ==> {
        &&& 0 <= p.at < n
        &&& p.at >= 2 ==> w.holder == Some(i)
        &&& p.at >= 3 && job.purpose == Purpose::Create ==> w.content() is None
        &&& p.at >= 3 && (job.purpose == Purpose::Update || job.purpose == Purpose::UpdateWith)
            ==> p.seen == w.content() && (job.purpose == Purpose::Update ==> p.seen is Some)
        &&& p.at >= n - 3 ==> p.value == job.result(w.content()) && job.accepts(w.content())
        &&& p.at == n - 1 ==> content(w.files, w.tmp(i)) == Some(p.value)
        &&& job.purpose == Purpose::Create || job.purpose == Purpose::Write ==> p.value == job.data
    }
}

/// What always holds.
spec fn inv(w: World, first: Option<Seq<char>>) -> bool {
    &&& w.jobs.len() == w.progress.len()
    &&& forall|i: int, j: int|
        0 <= i < w.jobs.len() && 0 <= j < w.jobs.len() && i != j ==> (#[trigger] w.jobs[i]).pid != (
        #[trigger] w.jobs[j]).pid
    &&& w.content() == replay(first, w.jobs, w.done)
    &&& forall|i: int| 0 <= i < w.jobs.len() ==> #[trigger] sure_of(w, i)
    &&& forall|k: int|
        0 <= k < w.done.len() ==> 0 <= (#[trigger] w.done[k]) < w.jobs.len()
            && !w.progress[w.done[k]].running
    &&& w.done.no_duplicates()
    &&& forall|k: int| 0 <= k < w.done.len() ==> #[trigger] accepted(first, w.jobs, w.done, k)
    &&& forall|k: int|
        0 <= k < w.done.len() && w.jobs[#[trigger] w.done[k]].purpose == Purpose::Create ==> k == 0
            && first is None
}

proof fn lemma_steps(w: World, i: int)
    ensures
        w.steps(i).len() == 5 + looking(w.jobs[i].purpose, w.path).len(),
        w.steps(i)[0].action == StoreView::MakeParent(lock_of(w.path)),
        w.steps(i)[1].action == StoreView::LockExclusive(lock_of(w.path)),
        forall|k: int|
            0 <= k < looking(w.jobs[i].purpose, w.path).len() ==> w.steps(i)[2 + k] == looking(
                w.jobs[i].purpose,
                w.path,
            )[k],
        w.steps(i)[w.steps(i).len() - 3].action == StoreView::MakeParent(w.path),
        w.steps(i)[w.steps(i).len() - 2].action == StoreView::WriteFile(w.tmp(i)),
        w.steps(i)[w.steps(i).len() - 1].action == StoreView::Rename(w.tmp(i), w.path),
{
    let s = w.steps(i);
    let l = looking(w.jobs[i].purpose, w.path);
    assert(s == locking(w.path) + l + writing(w.path, w.tmp(i)));
}

/// What one process writes first is no file of another process, and neither the
/// file itself nor its lock.
pub proof fn law_temporaries_are_apart(path: Seq<char>, a: nat, b: nat)
    requires
        a != b,
    ensures
        tmp_of(path, a) != tmp_of(path, b),
        tmp_of(path, a) != path,
        tmp_of(path, a) != lock_of(path),
        lock_of(path) != path,
{
    reveal_strlit(".tmp.");
    reveal_strlit(".lock");
    lemma_dec_value(a);
    lemma_dec_value(b);
    let n = path.len() as int;
    assert(tmp_of(path, a).skip(n + 5) =~= dec(a));
    assert(tmp_of(path, b).skip(n + 5) =~= dec(b));
    assert(tmp_of(path, a)[n + 1] == 't');
    assert(lock_of(path)[n + 1] == 'l');
    assert(lock_of(path).len() == n + 5);
}

proof fn lemma_apart(w: World, i: int, j: int)
    requires
        0 <= i < w.jobs.len(),
        0 <= j < w.jobs.len(),
        forall|i: int, j: int|
            0 <= i < w.jobs.len() && 0 <= j < w.jobs.len() && i != j ==> (
            #[trigger] w.jobs[i]).pid != (#[trigger] w.jobs[j]).pid,
    ensures
        i != j ==> w.tmp(i) != w.tmp(j),
        w.tmp(i) != w.path,
        w.tmp(i) != lock_of(w.path),
        lock_of(w.path) != w.path,
{
    let a = w.jobs[i].pid;
    let b = w.jobs[j].pid;
    if a != b {
        law_temporaries_are_apart(w.path, a, b);
    } else {
        law_temporaries_are_apart(w.path, a, a + 1);
    }
}

/// What a process that has failed does to the files.
proof fn lemma_failed(a: World, b: World, i: int)
    requires
        moves(a, b, i, false),
    ensures
        forall|f: Seq<char>|
            f != a.tmp(i) && f != lock_of(a.path) ==> #[trigger] content(b.files, f) == content(
                a.files,
                f,
            ),
{
    let l = lock_of(a.path);
    let x = a.files.remove(a.tmp(i)).remove(l);
    let y = b.files.remove(a.tmp(i)).remove(l);
    assert forall|f: Seq<char>| f != a.tmp(i) && f != l implies #[trigger] content(b.files, f)
        == content(a.files, f) by {
        assert(x.contains_key(f) == a.files.contains_key(f));
        assert(y.contains_key(f) == b.files.contains_key(f));
        if a.files.contains_key(f) {
            assert(x[f] == a.files[f]);
            assert(y[f] == b.files[f]);
        }
    }
}

/// What a step that succeeds does to the files, short of the last.
proof fn lemma_succeeded(a: World, b: World, i: int)
    requires
        moves(a, b, i, true),
        0 <= a.progress[i].at < a.steps(i).len() - 1,
    ensures
        forall|f: Seq<char>|
            f != a.tmp(i) && f != lock_of(a.path) ==> #[trigger] content(b.files, f) == content(
                a.files,
                f,
            ),
{
    lemma_steps(a, i);
    let at = a.progress[i].at;
    let n = looking(a.jobs[i].purpose, a.path).len() as int;
    if 2 <= at < 2 + n {
        assert(a.steps(i)[2 + (at - 2)] == looking(a.jobs[i].purpose, a.path)[at - 2]);
    }
}

/// Whoever does not move stays sure of what it was sure of, unless the contents
/// change, which only the holder of the lock does.
proof fn lemma_others(a: World, b: World, first: Option<Seq<char>>, i: int, ok: bool, j: int)
    requires
        inv(a, first),
        moves(a, b, i, ok),
        0 <= j < a.jobs.len(),
        j != i,
    ensures
        sure_of(b, j),
{
    assert(sure_of(a, i));
    assert(sure_of(a, j));
    assert(b.progress[j] == a.progress[j]);
    assert(b.steps(j) == a.steps(j));
    lemma_apart(a, i, j);
    lemma_apart(a, j, i);
    lemma_steps(a, i);
    lemma_steps(a, j);
    let at = a.progress[i].at;
    let n = looking(a.jobs[i].purpose, a.path).len() as int;
    if 2 <= at < 2 + n {
        assert(a.steps(i)[2 + (at - 2)] == looking(a.jobs[i].purpose, a.path)[at - 2]);
    }
    if !ok {
        lemma_failed(a, b, i);
    } else if at < a.steps(i).len() - 1 {
        lemma_succeeded(a, b, i);
    }
}

proof fn lemma_mover(a: World, b: World, first: Option<Seq<char>>, i: int, ok: bool)
    requires
        inv(a, first),
        moves(a, b, i, ok),
    ensures
        sure_of(b, i),
{
    assert(sure_of(a, i));
    assert(b.steps(i) == a.steps(i));
    lemma_apart(a, i, i);
    lemma_steps(a, i);
    let at = a.progress[i].at;
    let n = looking(a.jobs[i].purpose, a.path).len() as int;
    if 2 <= at < 2 + n {
        assert(a.steps(i)[2 + (at - 2)] == looking(a.jobs[i].purpose, a.path)[at - 2]);
    }
    if ok && at < a.steps(i).len() - 1 {
        lemma_succeeded(a, b, i);
        assert(b.progress[i] == in_hand(a, i));
    }
}

proof fn lemma_contents(a: World, b: World, first: Option<Seq<char>>, i: int, ok: bool)
    requires
        inv(a, first),
        moves(a, b, i, ok),
    ensures
        b.content() == replay(first, b.jobs, b.done),
{
    assert(sure_of(a, i));
    lemma_apart(a, i, i);
    lemma_steps(a, i);
    let at = a.progress[i].at;
    if !ok {
        lemma_failed(a, b, i);
    } else if at < a.steps(i).len() - 1 {
        lemma_succeeded(a, b, i);
    } else {
        assert(b.done.drop_last() =~= a.done);
        assert(b.done.last() == i);
    }
}

proof fn lemma_step(a: World, b: World, first: Option<Seq<char>>, i: int, ok: bool)
    requires
        inv(a, first),
        moves(a, b, i, ok),
    ensures
        inv(b, first),
{
    lemma_contents(a, b, first, i, ok);
    lemma_mover(a, b, first, i, ok);
    assert forall|j: int| 0 <= j < b.jobs.len() implies #[trigger] sure_of(b, j) by {
        if j != i {
            lemma_others(a, b, first, i, ok, j);
        }
    }
    assert(sure_of(a, i));
    lemma_steps(a, i);
    assert forall|k: int| 0 <= k < b.done.len() implies 0 <= (#[trigger] b.done[k]) < b.jobs.len()
        && !b.progress[b.done[k]].running by {
        if k < a.done.len() {
            assert(b.done[k] == a.done[k]);
        }
    }
    assert forall|k: int|
        0 <= k < b.done.len() && b.jobs[#[trigger] b.done[k]].purpose == Purpose::Create implies k
        == 0 && first is None by {
        if k < a.done.len() {
            assert(b.done[k] == a.done[k]);
        } else {
            assert(a.content() is None);
            assert(a.done.len() == 0);
        }
    }
    assert forall|k: int| 0 <= k < b.done.len() implies #[trigger] accepted(
        first,
        b.jobs,
        b.done,
        k,
    ) by {
        assert(b.done.take(k) =~= a.done.take(k));
        if k < a.done.len() {
            assert(b.done[k] == a.done[k]);
            assert(accepted(first, a.jobs, a.done, k));
        } else {
            assert(a.done.take(k) =~= a.done);
        }
    }
    assert(b.done.no_duplicates()) by {
        assert forall|x: int, y: int|
            0 <= x < b.done.len() && 0 <= y < b.done.len() && x != y implies b.done[x]
            != b.done[y] by {
            if x < a.done.len() {
                assert(b.done[x] == a.done[x]);
            }
            if y < a.done.len() {
                assert(b.done[y] == a.done[y]);
            }
        }
    }
}

proof fn lemma_course(trace: Seq<World>, k: int)
    requires
        course(trace),
        0 <= k < trace.len(),
    ensures
        inv(trace[k], trace[0].content()),
        trace[k].jobs == trace[0].jobs,
        trace[k].path == trace[0].path,
    decreases k,
{
    let first = trace[0].content();
    if k > 0 {
        lemma_course(trace, k - 1);
        assert(can_go_on(trace, k - 1));
        let (i, ok) = choose|i: int, ok: bool| #[trigger] moves(trace[k - 1], trace[k], i, ok);
        lemma_step(trace[k - 1], trace[k], first, i, ok);
    } else {
        assert forall|i: int| 0 <= i < trace[0].jobs.len() implies #[trigger] sure_of(
            trace[0],
            i,
        ) by {
            lemma_steps(trace[0], i);
            assert(trace[0].progress[i].at == 0);
        }
    }
}

/// No change is lost, and nobody ever sees half of one: at every moment the file
/// holds what the processes that have come to their end have made of it, one
/// after the other, each of them once, starting from what the others had left.
pub proof fn law_no_update_is_lost(trace: Seq<World>, k: int)
    requires
        course(trace),
        0 <= k < trace.len(),
    ensures
        trace[k].content() == replay(trace[0].content(), trace[0].jobs, trace[k].done),
        trace[k].done.no_duplicates(),
{
    lemma_course(trace, k);
}

/// Whoever has come to its end was not refused: its change could be made to what
/// those before it had left.
pub proof fn law_the_done_were_accepted(trace: Seq<World>, k: int, x: int)
    requires
        course(trace),
        0 <= k < trace.len(),
        0 <= x < trace[k].done.len(),
    ensures
        accepted(trace[0].content(), trace[0].jobs, trace[k].done, x),
{
    lemma_course(trace, k);
}

/// Only who set out for something comes to its end, and then is no longer at it.
pub proof fn law_only_jobs_are_done(trace: Seq<World>, k: int, x: int)
    requires
        course(trace),
        0 <= k < trace.len(),
        0 <= x < trace[k].done.len(),
    ensures
        0 <= trace[k].done[x] < trace[0].jobs.len(),
        !trace[k].progress[trace[k].done[x]].running,
{
    lemma_course(trace, k);
}

/// Of those who set out to create the file at most one comes to its end, and none
/// if it was there at the start or somebody else came first.
pub proof fn law_one_creator_wins(trace: Seq<World>, k: int, a: int, b: int)
    requires
        course(trace),
        0 <= k < trace.len(),
        trace[k].done.contains(a),
        trace[0].jobs[a].purpose == Purpose::Create,
    ensures
        trace[0].content() is None,
        trace[k].done[0] == a,
        trace[k].done.contains(b) && trace[0].jobs[b].purpose == Purpose::Create ==> a == b,
{
    lemma_course(trace, k);
    let d = trace[k].done;
    let x = choose|x: int| 0 <= x < d.len() && d[x] == a;
    assert(x == 0);
    if d.contains(b) && trace[0].jobs[b].purpose == Purpose::Create {
        let y = choose|y: int| 0 <= y < d.len() && d[y] == b;
        assert(y == 0);
    }
}

/// Whoever has come to its end has changed the file: its change is among those
/// that made the contents.
pub proof fn law_success_is_kept(trace: Seq<World>, k: int, i: int)
    requires
        course(trace),
        0 <= k < trace.len(),
        trace[k].done.contains(i),
    ensures
        trace[k].content() is Some,
        trace.last().done.contains(i),
    decreases trace.len() - k,
{
    lemma_course(trace, k);
    if k < trace.len() - 1 {
        assert(can_go_on(trace, k));
        let (j, ok) = choose|j: int, ok: bool| #[trigger] moves(trace[k], trace[k + 1], j, ok);
        let x = choose|x: int| 0 <= x < trace[k].done.len() && trace[k].done[x] == i;
        assert(trace[k + 1].done[x] == i);
        law_success_is_kept(trace, k + 1, i);
    }
}

/// No two processes are between taking the lock and coming to their end at once.
pub proof fn law_one_at_a_time(trace: Seq<World>, k: int, i: int, j: int)
    requires
        course(trace),
        0 <= k < trace.len(),
        0 <= i < trace[k].jobs.len(),
        0 <= j < trace[k].jobs.len(),
        trace[k].progress[i].running && trace[k].progress[i].at >= 2,
        trace[k].progress[j].running && trace[k].progress[j].at >= 2,
    ensures
        i == j,
{
    lemma_course(trace, k);
    assert(sure_of(trace[k], i));
    assert(sure_of(trace[k], j));
}

} // verus!
