//! Where the state of an installation lies, and how its files are read and
//! changed.
//!
//! A file is changed under an exclusive lock, which is held from before the old
//! contents are looked at until the new ones are in place, and the new ones are
//! written next to the file and then moved there. The module
//! [`transaction`](crate::transaction) says what follows from that.

use vstd::prelude::*;
use vstd::string::*;

use crate::error::{Error, ErrorView};
use crate::path::{join, joined};
use crate::procedure::{
    must, must_or, no_steps, plan, then_must, then_must_or, Step, StepView,
};
use crate::text::{dec, decimal};

verus! {

/// The directory that holds the state.
#[derive(Debug)]
pub struct StateStore {
    pub root: String,
}

/// The directory of one machine.
pub open spec fn vm_dir_of(root: Seq<char>, name: Seq<char>) -> Seq<char> {
    joined(joined(root, "vms"@), name)
}

/// The lock file of a data file.
pub open spec fn lock_of(path: Seq<char>) -> Seq<char> {
    path + ".lock"@
}

/// The lock file of a data file.
pub fn lock_path_for(path: &str) -> (r: String)
    ensures
        r@ == lock_of(path@),
{
    path.to_owned().concat(".lock")
}

/// The file that a process writes before it takes the place of a data file.
pub open spec fn tmp_of(path: Seq<char>, pid: nat) -> Seq<char> {
    path + ".tmp."@ + dec(pid)
}

/// The file that a process writes before it takes the place of a data file.
pub fn tmp_path_for(path: &str, pid: u32) -> (r: String)
    ensures
        r@ == tmp_of(path@, pid as nat),
{
    let digits = decimal(pid as u64);
    path.to_owned().concat(".tmp.").concat(digits.as_str())
}

/// Something to do with the files of the state.
#[derive(Debug, PartialEq)]
pub enum StoreAction {
    /// Make a directory, and those above it, unless it is there.
    MakeDir(String),
    /// Make the directory that a file lies in, unless it is there.
    MakeParent(String),
    /// Make an empty file, unless it is there.
    TouchFile(String),
    /// Open a lock file, and wait until nobody else holds it.
    LockExclusive(String),
    /// Open a lock file, if that can be done, and wait until nobody holds it
    /// exclusively.
    LockShared(String),
    /// Read a file. It has to be there.
    Read(String),
    /// Read a file, if it is there.
    ReadIfThere(String),
    /// Read a file that is to be changed. It has to be there.
    ReadExisting(String),
    /// Read a file that is to be changed, or start from the default.
    ReadOrDefault(String),
    /// Fail if a file is there.
    RefuseExisting(String),
    /// Change what was read.
    Change,
    /// Write the new contents.
    WriteFile(String),
    /// Let one file take the place of another.
    Rename(String, String),
    /// Remove a file. It need not be there.
    RemoveFile(String),
    /// Remove a directory and all in it. It need not be there.
    RemoveDir(String),
}

/// A [`StoreAction`], its strings taken by their texts.
#[verifier::ext_equal]
pub enum StoreView {
    MakeDir(Seq<char>),
    MakeParent(Seq<char>),
    TouchFile(Seq<char>),
    LockExclusive(Seq<char>),
    LockShared(Seq<char>),
    Read(Seq<char>),
    ReadIfThere(Seq<char>),
    ReadExisting(Seq<char>),
    ReadOrDefault(Seq<char>),
    RefuseExisting(Seq<char>),
    Change,
    WriteFile(Seq<char>),
    Rename(Seq<char>, Seq<char>),
    RemoveFile(Seq<char>),
    RemoveDir(Seq<char>),
}

impl View for StoreAction {
    type V = StoreView;

    open spec fn view(&self) -> StoreView {
        match *self {
            StoreAction::MakeDir(p) => StoreView::MakeDir(p@),
            StoreAction::MakeParent(p) => StoreView::MakeParent(p@),
            StoreAction::TouchFile(p) => StoreView::TouchFile(p@),
            StoreAction::LockExclusive(p) => StoreView::LockExclusive(p@),
            StoreAction::LockShared(p) => StoreView::LockShared(p@),
            StoreAction::Read(p) => StoreView::Read(p@),
            StoreAction::ReadIfThere(p) => StoreView::ReadIfThere(p@),
            StoreAction::ReadExisting(p) => StoreView::ReadExisting(p@),
            StoreAction::ReadOrDefault(p) => StoreView::ReadOrDefault(p@),
            StoreAction::RefuseExisting(p) => StoreView::RefuseExisting(p@),
            StoreAction::Change => StoreView::Change,
            StoreAction::WriteFile(p) => StoreView::WriteFile(p@),
            StoreAction::Rename(p, q) => StoreView::Rename(p@, q@),
            StoreAction::RemoveFile(p) => StoreView::RemoveFile(p@),
            StoreAction::RemoveDir(p) => StoreView::RemoveDir(p@),
        }
    }
}

impl StoreAction {
    /// The error of an action that found a file missing or in the way, where it
    /// is not the one that the system gives.
    pub fn refusal(&self) -> (r: Option<Error>)
        ensures
            match self@ {
                StoreView::ReadExisting(p) => r is Some && r->0@ == ErrorView::State(
                    p + ": not found"@,
                ),
                StoreView::RefuseExisting(p) => r is Some && r->0@ == (ErrorView::AlreadyExists {
                    path: p,
                }),
                _ => r is None,
            },
    {
        match self {
            StoreAction::ReadExisting(p) => Some(Error::State(p.clone().concat(": not found"))),
            StoreAction::RefuseExisting(p) => Some(Error::AlreadyExists { path: p.clone() }),
            _ => None,
        }
    }
}

/// Why the system would not do something with a file.
#[derive(Debug, Clone, Copy, PartialEq, Eq, Structural)]
pub enum Fault {
    NotFound,
    PermissionDenied,
    Other,
}

/// Whether a reader goes on without a lock, when its lock file cannot be opened:
/// nobody has ever written, or the reader may not lock. That is safe because a
/// file is replaced as a whole.
pub fn reads_without_lock(fault: Fault) -> (r: bool)
    ensures
        r == (fault != Fault::Other),
{
    match fault {
        Fault::NotFound => true,
        Fault::PermissionDenied => true,
        Fault::Other => false,
    }
}

/// Whether a file that cannot be read or removed is taken for one that is not
/// there.
pub fn is_absent(fault: Fault) -> (r: bool)
    ensures
        r == (fault == Fault::NotFound),
{
    match fault {
        Fault::NotFound => true,
        Fault::PermissionDenied => false,
        Fault::Other => false,
    }
}

/// How the exclusive lock of a data file is taken.
pub open spec fn locking(path: Seq<char>) -> Seq<StepView<StoreView>> {
    seq![
        must(StoreView::MakeParent(lock_of(path))),
        must(StoreView::LockExclusive(lock_of(path))),
    ]
}

/// How the contents of a data file are replaced.
pub open spec fn writing(path: Seq<char>, tmp: Seq<char>) -> Seq<StepView<StoreView>> {
    seq![
        must(StoreView::MakeParent(path)),
        must(StoreView::WriteFile(tmp)),
        must_or(StoreView::Rename(tmp, path), seq![StoreView::RemoveFile(tmp)]),
    ]
}

/// What a data file is changed for.
#[derive(Debug, Clone, Copy, PartialEq, Eq, Structural)]
pub enum Purpose {
    /// To give it its first contents.
    Create,
    /// To change the contents it has.
    Update,
    /// To change the contents it has, or the default ones.
    UpdateWith,
    /// To give it other contents, whatever it has.
    Write,
}

/// What is looked at before a data file is replaced.
pub open spec fn looking(purpose: Purpose, path: Seq<char>) -> Seq<StepView<StoreView>> {
    match purpose {
        Purpose::Create => seq![must(StoreView::RefuseExisting(path))],
        Purpose::Update => seq![must(StoreView::ReadExisting(path)), must(StoreView::Change)],
        Purpose::UpdateWith => seq![must(StoreView::ReadOrDefault(path)), must(StoreView::Change)],
        Purpose::Write => seq![],
    }
}

/// How a data file is changed.
pub open spec fn changing(purpose: Purpose, path: Seq<char>, tmp: Seq<char>) -> Seq<
    StepView<StoreView>,
> {
    locking(path) + looking(purpose, path) + writing(path, tmp)
}

/// The steps that take the exclusive lock of a data file.
fn exclusive(path: &str) -> (r: Vec<Step<StoreAction>>)
    ensures
        plan(r@) == locking(path@),
{
    let steps = then_must(no_steps(), StoreAction::MakeParent(lock_path_for(path)));
    then_must(steps, StoreAction::LockExclusive(lock_path_for(path)))
}

/// The steps, and those that replace the contents of a data file behind them.
fn write_locked(steps: Vec<Step<StoreAction>>, path: &str, pid: u32) -> (r: Vec<Step<StoreAction>>)
    ensures
        plan(r@) == plan(steps@) + writing(path@, tmp_of(path@, pid as nat)),
{
    let ghost before = plan(steps@);
    let steps = then_must(steps, StoreAction::MakeParent(path.to_owned()));
    let steps = then_must(steps, StoreAction::WriteFile(tmp_path_for(path, pid)));
    let steps = then_must_or(
        steps,
        StoreAction::Rename(tmp_path_for(path, pid), path.to_owned()),
        StoreAction::RemoveFile(tmp_path_for(path, pid)),
    );
    assert(plan(steps@) =~= before + writing(path@, tmp_of(path@, pid as nat)));
    steps
}

fn one_step(action: StoreAction) -> (r: Vec<Step<StoreAction>>)
    ensures
        plan(r@) == seq![must(action@)],
{
    let steps = then_must(no_steps(), action);
    assert(plan(steps@) =~= seq![must(action@)]);
    steps
}

/// How a data file is read.
pub open spec fn reading(path: Seq<char>) -> Seq<StepView<StoreView>> {
    seq![must(StoreView::LockShared(lock_of(path))), must(StoreView::Read(path))]
}

/// How a data file is read that need not be there.
pub open spec fn reading_if_there(path: Seq<char>) -> Seq<StepView<StoreView>> {
    seq![must(StoreView::LockShared(lock_of(path))), must(StoreView::ReadIfThere(path))]
}

impl StateStore {
    /// How the directories of the state are made, and the lock files of what all
    /// commands share.
    pub open spec fn setting_up(self) -> Seq<StepView<StoreView>> {
        seq![
            must(StoreView::MakeDir(self.root@)),
            must(StoreView::MakeDir(joined(self.root@, "kernels"@))),
            must(StoreView::MakeDir(joined(self.root@, "images"@))),
            must(StoreView::MakeDir(joined(self.root@, "vms"@))),
            must(StoreView::MakeDir(joined(self.root@, "network"@))),
            must(StoreView::TouchFile(lock_of(joined(self.root@, "config.json"@)))),
            must(
                StoreView::TouchFile(
                    lock_of(joined(joined(self.root@, "images"@), "registry.json"@)),
                ),
            ),
            must(
                StoreView::TouchFile(
                    lock_of(joined(joined(self.root@, "network"@), "allocations.json"@)),
                ),
            ),
        ]
    }

    /// How the lock is taken that one command on a machine holds.
    pub open spec fn locking_vm(self, name: Seq<char>) -> Seq<StepView<StoreView>> {
        let lock = joined(joined(self.root@, "locks"@), name + ".lock"@);
        seq![must(StoreView::MakeParent(lock)), must(StoreView::LockExclusive(lock))]
    }

    /// The state below `root`.
    pub fn new(root: String) -> (r: StateStore)
        ensures
            r.root == root,
    {
        StateStore { root }
    }

    /// The state below `root`, when there is one: when the directory of the
    /// machines, which `vms_is_dir` speaks of, is there.
    pub fn try_open(root: &str, vms_is_dir: bool) -> (r: Option<StateStore>)
        ensures
            r is Some <==> vms_is_dir,
            r matches Some(s) ==> s.root@ == root@,
    {
        if vms_is_dir {
            Some(StateStore { root: root.to_owned() })
        } else {
            None
        }
    }

    /// The directory that holds the state.
    pub fn root(&self) -> (r: &str)
        ensures
            r@ == self.root@,
    {
        self.root.as_str()
    }

    /// The directory of one machine.
    pub fn vm_dir(&self, name: &str) -> (r: String)
        ensures
            r@ == vm_dir_of(self.root@, name@),
    {
        let vms = join(self.root.as_str(), "vms");
        join(vms.as_str(), name)
    }

    /// The record of one machine.
    pub fn vm_metadata_path(&self, name: &str) -> (r: String)
        ensures
            r@ == joined(vm_dir_of(self.root@, name@), "vm.json"@),
    {
        let dir = self.vm_dir(name);
        join(dir.as_str(), "vm.json")
    }

    /// The list of images.
    pub fn image_registry_path(&self) -> (r: String)
        ensures
            r@ == joined(joined(self.root@, "images"@), "registry.json"@),
    {
        let dir = join(self.root.as_str(), "images");
        join(dir.as_str(), "registry.json")
    }

    /// The addresses that are handed out.
    pub fn network_allocations_path(&self) -> (r: String)
        ensures
            r@ == joined(joined(self.root@, "network"@), "allocations.json"@),
    {
        let dir = join(self.root.as_str(), "network");
        join(dir.as_str(), "allocations.json")
    }

    /// The configuration.
    pub fn config_path(&self) -> (r: String)
        ensures
            r@ == joined(self.root@, "config.json"@),
    {
        join(self.root.as_str(), "config.json")
    }

    /// The directory of the kernels.
    pub fn kernel_dir(&self) -> (r: String)
        ensures
            r@ == joined(self.root@, "kernels"@),
    {
        join(self.root.as_str(), "kernels")
    }

    /// The lock that one command on a machine holds.
    pub fn vm_lock_path(&self, name: &str) -> (r: String)
        ensures
            r@ == joined(joined(self.root@, "locks"@), name@ + ".lock"@),
    {
        let dir = join(self.root.as_str(), "locks");
        let file = name.to_owned().concat(".lock");
        join(dir.as_str(), file.as_str())
    }

    /// How the directories of the state are made, and the lock files of what all
    /// commands share.
    pub fn init(&self) -> (r: Vec<Step<StoreAction>>)
        ensures
            plan(r@) == self.setting_up(),
    {
        let root = self.root.as_str();
        let config = self.config_path();
        let registry = self.image_registry_path();
        let allocations = self.network_allocations_path();
        let steps = then_must(no_steps(), StoreAction::MakeDir(root.to_owned()));
        let steps = then_must(steps, StoreAction::MakeDir(self.kernel_dir()));
        let steps = then_must(steps, StoreAction::MakeDir(join(root, "images")));
        let steps = then_must(steps, StoreAction::MakeDir(join(root, "vms")));
        let steps = then_must(steps, StoreAction::MakeDir(join(root, "network")));
        let steps = then_must(steps, StoreAction::TouchFile(lock_path_for(config.as_str())));
        let steps = then_must(steps, StoreAction::TouchFile(lock_path_for(registry.as_str())));
        then_must(steps, StoreAction::TouchFile(lock_path_for(allocations.as_str())))
    }

    /// How the lock is taken that one command on a machine holds from start to
    /// end. It lies apart from the directory of the machine, so that nothing done
    /// to the machine removes it.
    pub fn lock_vm(&self, name: &str) -> (r: Vec<Step<StoreAction>>)
        ensures
            plan(r@) == self.locking_vm(name@),
    {
        let steps = then_must(no_steps(), StoreAction::MakeParent(self.vm_lock_path(name)));
        then_must(steps, StoreAction::LockExclusive(self.vm_lock_path(name)))
    }

    /// How a data file is read.
    pub fn read(&self, path: &str) -> (r: Vec<Step<StoreAction>>)
        ensures
            plan(r@) == reading(path@),
    {
        let steps = then_must(no_steps(), StoreAction::LockShared(lock_path_for(path)));
        then_must(steps, StoreAction::Read(path.to_owned()))
    }

    /// How a data file is read that need not be there.
    pub fn read_optional(&self, path: &str) -> (r: Vec<Step<StoreAction>>)
        ensures
            plan(r@) == reading_if_there(path@),
    {
        let steps = then_must(no_steps(), StoreAction::LockShared(lock_path_for(path)));
        then_must(steps, StoreAction::ReadIfThere(path.to_owned()))
    }

    /// How the process `pid` changes a data file that has to be there.
    pub fn update(&self, path: &str, pid: u32) -> (r: Vec<Step<StoreAction>>)
        ensures
            plan(r@) == changing(Purpose::Update, path@, tmp_of(path@, pid as nat)),
    {
        let steps = then_must(exclusive(path), StoreAction::ReadExisting(path.to_owned()));
        let steps = then_must(steps, StoreAction::Change);
        assert(plan(steps@) =~= locking(path@) + looking(Purpose::Update, path@));
        write_locked(steps, path, pid)
    }

    /// How the process `pid` changes a data file, or the default in its place.
    pub fn update_with(&self, path: &str, pid: u32) -> (r: Vec<Step<StoreAction>>)
        ensures
            plan(r@) == changing(Purpose::UpdateWith, path@, tmp_of(path@, pid as nat)),
    {
        let steps = then_must(exclusive(path), StoreAction::ReadOrDefault(path.to_owned()));
        let steps = then_must(steps, StoreAction::Change);
        assert(plan(steps@) =~= locking(path@) + looking(Purpose::UpdateWith, path@));
        write_locked(steps, path, pid)
    }

    /// How the process `pid` makes a data file that must not be there yet.
    pub fn create(&self, path: &str, pid: u32) -> (r: Vec<Step<StoreAction>>)
        ensures
            plan(r@) == changing(Purpose::Create, path@, tmp_of(path@, pid as nat)),
    {
        let steps = then_must(exclusive(path), StoreAction::RefuseExisting(path.to_owned()));
        assert(plan(steps@) =~= locking(path@) + looking(Purpose::Create, path@));
        write_locked(steps, path, pid)
    }

    /// How the process `pid` gives a data file other contents.
    pub fn write(&self, path: &str, pid: u32) -> (r: Vec<Step<StoreAction>>)
        ensures
            plan(r@) == changing(Purpose::Write, path@, tmp_of(path@, pid as nat)),
    {
        let steps = exclusive(path);
        assert(plan(steps@) =~= locking(path@) + looking(Purpose::Write, path@));
        write_locked(steps, path, pid)
    }

    /// How a file is removed.
    pub fn remove(&self, path: &str) -> (r: Vec<Step<StoreAction>>)
        ensures
            plan(r@) == seq![must(StoreView::RemoveFile(path@))],
    {
        one_step(StoreAction::RemoveFile(path.to_owned()))
    }

    /// How a directory is removed with all in it.
    pub fn remove_dir(&self, path: &str) -> (r: Vec<Step<StoreAction>>)
        ensures
            plan(r@) == seq![must(StoreView::RemoveDir(path@))],
    {
        one_step(StoreAction::RemoveDir(path.to_owned()))
    }
}

/// Whoever reads a data file waits for those who write it: readers and writers take the
/// same lock, the readers together and the writers alone, and before they look at the
/// file.
pub proof fn law_readers_wait_for_writers(path: Seq<char>)
    ensures
        ({
            let r = reading(path);
            let o = reading_if_there(path);
            let w = locking(path);
            &&& r.len() == 2 && o.len() == 2 && w.len() == 2
            &&& r[0].action matches StoreView::LockShared(x) && w[1].action
                == StoreView::LockExclusive(x) && o[0].action == StoreView::LockShared(x) && x
                != path
            &&& w[0].action matches StoreView::MakeParent(x) && w[1].action
                == StoreView::LockExclusive(x)
            &&& r[1].action == StoreView::Read(path) && o[1].action == StoreView::ReadIfThere(path)
            &&& !r[0].tolerate && !r[1].tolerate && !w[0].tolerate && !w[1].tolerate
        }),
{
    reveal_strlit(".lock");
    assert(lock_of(path).len() == path.len() + 5);
}

/// Once the state is set up, its directories are there, and with them the lock of
/// everything that commands which may not write have to read.
pub proof fn law_what_is_read_can_be_locked(s: StateStore, i: int)
    requires
        0 <= i < 3,
    ensures
        ({
            let p = s.setting_up();
            let read = seq![
                joined(s.root@, "config.json"@),
                joined(joined(s.root@, "images"@), "registry.json"@),
                joined(joined(s.root@, "network"@), "allocations.json"@),
            ];
            let dirs = seq![
                s.root@,
                joined(s.root@, "images"@),
                joined(s.root@, "network"@),
            ];
            &&& reading(read[i])[0].action matches StoreView::LockShared(x) && exists|j: int, k: int|
                0 <= j < k < p.len() && (#[trigger] p[j]).action == StoreView::MakeDir(dirs[i])
                    && (#[trigger] p[k]).action == StoreView::TouchFile(x)
            &&& exists|j: int|
                0 <= j < p.len() && (#[trigger] p[j]).action == StoreView::MakeDir(
                    joined(s.root@, "vms"@),
                )
            &&& exists|j: int|
                0 <= j < p.len() && (#[trigger] p[j]).action == StoreView::MakeDir(
                    joined(s.root@, "kernels"@),
                )
        }),
{
    let p = s.setting_up();
    let j: int = if i == 0 {
        0
    } else if i == 1 {
        2
    } else {
        4
    };
    assert(p[j].action is MakeDir);
    assert(p[5 + i].action is TouchFile);
    assert(p[3].action == StoreView::MakeDir(joined(s.root@, "vms"@)));
    assert(p[1].action == StoreView::MakeDir(joined(s.root@, "kernels"@)));
}

/// The lock that a command on a machine holds is taken alone, and lies apart from the
/// directory of the machine, which may be moved or removed meanwhile.
pub proof fn law_the_lock_outlives_the_machine(s: StateStore, name: Seq<char>)
    requires
        name.len() > 0,
        name[0] != '/',
    ensures
        ({
            let p = s.locking_vm(name);
            let dir = vm_dir_of(s.root@, name);
            &&& p.len() == 2
            &&& p[1].action matches StoreView::LockExclusive(x) && p[0].action
                == StoreView::MakeParent(x) && !(x.len() >= dir.len() && x.take(dir.len() as int)
                == dir)
        }),
{
    reveal_strlit("locks");
    reveal_strlit("vms");
    reveal_strlit(".lock");
    reveal_strlit("/");
    let root = s.root@;
    let lock = joined(joined(root, "locks"@), name + ".lock"@);
    let dir = vm_dir_of(root, name);
    let k: int = if root.len() == 0 || root.last() == '/' {
        root.len() as int
    } else {
        root.len() as int + 1
    };
    assert("vms"@[0] == 'v' && "locks"@[0] == 'l');
    assert(joined(root, "vms"@)[k] == 'v');
    assert(joined(root, "locks"@)[k] == 'l');
    assert(dir[k] == 'v');
    assert(lock[k] == 'l');
    if lock.len() >= dir.len() && lock.take(dir.len() as int) == dir {
        assert(lock.take(dir.len() as int)[k] == lock[k]);
    }
}

} // verus!
