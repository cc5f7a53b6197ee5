//! The control group that shares the processors between the machines of an
//! installation and the rest of the host.

use vstd::prelude::*;
use vstd::string::*;

use crate::config::{namespace, opt_str, GlobalConfig};
use crate::error::answer;
use crate::path::{join, joined};
use crate::procedure::{must, no_steps, plan, then_must, Step, StepView};
use crate::text::{dec, decimal, lemma_dec_parsed, parsed, same, split_words, texts, words};

verus! {

/// The weight of an installation, unless told otherwise. Others have 100.
pub const DEFAULT_CPU_WEIGHT: u32 = 50;

/// The name of the group of an installation.
pub open spec fn group_name(instance_id: Option<Seq<char>>) -> Seq<char> {
    match instance_id {
        None => "ember"@,
        Some(id) => "ember-"@ + id,
    }
}

/// The name of the group of an installation.
pub fn name(instance_id: Option<&str>) -> (r: String)
    ensures
        r@ == group_name(opt_str(instance_id)),
{
    match instance_id {
        None => "ember".to_owned(),
        Some(id) => "ember-".to_owned().concat(id),
    }
}

/// The weight of an installation.
pub fn weight(config: &GlobalConfig) -> (r: u32)
    ensures
        r == (match config.cpu_weight {
            Some(w) => w,
            None => DEFAULT_CPU_WEIGHT,
        }),
{
    match config.cpu_weight {
        Some(w) => w,
        None => DEFAULT_CPU_WEIGHT,
    }
}

/// The directory of the group of an installation.
pub fn path(instance_id: Option<&str>) -> (r: String)
    ensures
        r@ == joined("/sys/fs/cgroup"@, group_name(opt_str(instance_id))),
{
    let n = name(instance_id);
    join("/sys/fs/cgroup", n.as_str())
}

/// Whether a list of controllers holds one.
pub fn has_controller(list: &str, controller: &str) -> (r: bool)
    ensures
        r == words(list@).contains(controller@),
{
    let all = split_words(list);
    let mut i: usize = 0;
    while i < all.len()
        invariant
            i <= all.len(),
            texts(all@) == words(list@),
            forall|k: int| 0 <= k < i ==> texts(all@)[k] != controller@,
        decreases all.len() - i,
    {
        assert(texts(all@)[i as int] == all@[i as int]@);
        if same(all[i].as_str(), controller) {
            assert(words(list@)[i as int] == controller@);
            return true;
        }
        i = i + 1;
    }
    false
}

/// What has to be written to the file that lists the controllers of the groups
/// for the one for processors to be among them.
pub fn ensure_cpu_controller(enabled: &str) -> (r: Option<String>)
    ensures
        match r {
            None => words(enabled@).contains("cpu"@),
            Some(t) => !words(enabled@).contains("cpu"@) && t@ == "+cpu"@,
        },
{
    if has_controller(enabled, "cpu") {
        None
    } else {
        Some("+cpu".to_owned())
    }
}

/// Something to do to a group.
#[derive(Debug, PartialEq)]
pub enum GroupAction {
    /// Write a text, the second, to a file.
    Write(String, String),
    /// Make a directory, unless it is there: see [`made`].
    MakeDir(String),
    /// Remove a directory, if it is there: see [`removed`].
    RemoveDir(String),
}

/// A [`GroupAction`], its strings taken by their texts.
pub enum GroupView {
    Write(Seq<char>, Seq<char>),
    MakeDir(Seq<char>),
    RemoveDir(Seq<char>),
}

impl View for GroupAction {
    type V = GroupView;

    open spec fn view(&self) -> GroupView {
        match self {
            GroupAction::Write(p, t) => GroupView::Write(p@, t@),
            GroupAction::MakeDir(p) => GroupView::MakeDir(p@),
            GroupAction::RemoveDir(p) => GroupView::RemoveDir(p@),
        }
    }
}

/// How making a directory or removing it went.
#[derive(Debug, PartialEq)]
pub enum DirResult {
    Done,
    /// It is there already; with the reason that the system gives.
    AlreadyThere(String),
    /// Something is not there; with the reason that the system gives.
    NotThere(String),
    Failed(String),
}

/// Whether a directory is made. That it is there already is no failure.
pub fn made(result: DirResult) -> (r: Result<(), String>)
    ensures
        answer(r) == (match result {
            DirResult::Done => Ok::<(), Seq<char>>(()),
            DirResult::AlreadyThere(_) => Ok(()),
            DirResult::NotThere(why) => Err(why@),
            DirResult::Failed(why) => Err(why@),
        }),
{
    match result {
        DirResult::Done => Ok(()),
        DirResult::AlreadyThere(_) => Ok(()),
        DirResult::NotThere(why) => Err(why),
        DirResult::Failed(why) => Err(why),
    }
}

/// Whether a directory is removed. That it is not there is no failure.
pub fn removed(result: DirResult) -> (r: Result<(), String>)
    ensures
        answer(r) == (match result {
            DirResult::Done => Ok::<(), Seq<char>>(()),
            DirResult::NotThere(_) => Ok(()),
            DirResult::AlreadyThere(why) => Err(why@),
            DirResult::Failed(why) => Err(why@),
        }),
{
    match result {
        DirResult::Done => Ok(()),
        DirResult::NotThere(_) => Ok(()),
        DirResult::AlreadyThere(why) => Err(why),
        DirResult::Failed(why) => Err(why),
    }
}

/// The directory of the group of an installation.
pub open spec fn group_dir(config: GlobalConfig) -> Seq<char> {
    joined("/sys/fs/cgroup"@, group_name(namespace(config.instance_id@)))
}

/// The file that lists the controllers of the groups.
pub fn control_file() -> (r: String)
    ensures
        r@ == joined("/sys/fs/cgroup"@, "cgroup.subtree_control"@),
{
    join("/sys/fs/cgroup", "cgroup.subtree_control")
}

/// How a process is put into the group of an installation: the controller for
/// processors is switched on, unless it is, then the group is made, unless it is
/// there, then it gets its weight, and then the process.
pub open spec fn placing(pid: u32, config: GlobalConfig, enabled: Seq<char>) -> Seq<
    StepView<GroupView>,
> {
    let dir = group_dir(config);
    let share = match config.cpu_weight {
        Some(w) => w,
        None => DEFAULT_CPU_WEIGHT,
    };
    (if words(enabled).contains("cpu"@) {
        seq![]
    } else {
        seq![
            must(
                GroupView::Write(joined("/sys/fs/cgroup"@, "cgroup.subtree_control"@), "+cpu"@),
            ),
        ]
    }) + seq![
        must(GroupView::MakeDir(dir)),
        must(GroupView::Write(joined(dir, "cpu.weight"@), dec(share as nat))),
        must(GroupView::Write(joined(dir, "cgroup.procs"@), dec(pid as nat))),
    ]
}

/// How a process is put into the group of an installation. `enabled` is what
/// [`control_file`] holds.
pub fn place(pid: u32, config: &GlobalConfig, enabled: &str) -> (r: Vec<Step<GroupAction>>)
    ensures
        plan(r@) == placing(pid, *config, enabled@),
{
    let dir = path(config.instance_namespace());
    let share: u32 = weight(config);
    let mut steps: Vec<Step<GroupAction>> = no_steps();
    match ensure_cpu_controller(enabled) {
        Some(words) => {
            steps = then_must(steps, GroupAction::Write(control_file(), words));
        },
        None => {},
    }
    steps = then_must(steps, GroupAction::MakeDir(dir.clone()));
    steps = then_must(
        steps,
        GroupAction::Write(join(dir.as_str(), "cpu.weight"), decimal(share as u64)),
    );
    steps = then_must(
        steps,
        GroupAction::Write(join(dir.as_str(), "cgroup.procs"), decimal(pid as u64)),
    );
    assert(plan(steps@) =~= placing(pid, *config, enabled@));
    steps
}

/// How the group of an installation is removed.
pub open spec fn removing(config: GlobalConfig) -> Seq<StepView<GroupView>> {
    seq![must(GroupView::RemoveDir(group_dir(config)))]
}

/// How the group of an installation is removed.
pub fn remove(config: &GlobalConfig) -> (r: Vec<Step<GroupAction>>)
    ensures
        plan(r@) == removing(*config),
{
    let dir = path(config.instance_namespace());
    then_must(no_steps(), GroupAction::RemoveDir(dir))
}

/// A group of processes, with the share of the processor that they get together.
pub struct Group {
    pub weight: Option<nat>,
    pub members: Set<nat>,
}

/// The groups of a host by their directories, and whether groups share the processor by
/// their weights.
pub struct Groups {
    pub by_weight: bool,
    pub all: Map<Seq<char>, Group>,
}

/// What an action on the group at `dir` makes of the groups; `None` where it is refused. A
/// group takes a weight only where that counts for something.
pub open spec fn effect(w: Groups, dir: Seq<char>, a: GroupView) -> Option<Groups> {
    match a {
        GroupView::Write(path, text) => if path == "/sys/fs/cgroup/cgroup.subtree_control"@ {
            if text == "+cpu"@ {
                Some(Groups { by_weight: true, ..w })
            } else {
                None
            }
        } else if path == dir + "/cpu.weight"@ && w.by_weight && w.all.contains_key(dir) {
            match parsed(text, u32::MAX as nat) {
                Some(n) => Some(
                    Groups {
                        all: w.all.insert(dir, Group { weight: Some(n), ..w.all[dir] }),
                        ..w
                    },
                ),
                None => None,
            }
        } else if path == dir + "/cgroup.procs"@ && w.all.contains_key(dir) {
            match parsed(text, u32::MAX as nat) {
                Some(n) => Some(
                    Groups {
                        all: w.all.insert(
                            dir,
                            Group { members: w.all[dir].members.insert(n), ..w.all[dir] },
                        ),
                        ..w
                    },
                ),
                None => None,
            }
        } else {
            None
        },
        GroupView::MakeDir(d) => if d != dir {
            None
        } else if w.all.contains_key(d) {
            Some(w)
        } else {
            Some(
                Groups {
                    all: w.all.insert(d, Group { weight: None, members: Set::empty() }),
                    ..w
                },
            )
        },
        GroupView::RemoveDir(d) => Some(Groups { all: w.all.remove(d), ..w }),
    }
}

/// What the steps come to when each of them succeeds.
pub open spec fn run(w: Groups, dir: Seq<char>, p: Seq<StepView<GroupView>>) -> Option<Groups>
    decreases p.len(),
{
    if p.len() == 0 {
        Some(w)
    } else {
        match run(w, dir, p.drop_last()) {
            Some(x) => effect(x, dir, p.last().action),
            None => None,
        }
    }
}

/// The process of a machine that was placed is in the group of its installation, which has
/// its share of the processor; and no other group changes. The members that were there
/// stay. A group that is removed is gone.
pub proof fn law_a_placed_process_has_its_share(
    pid: u32,
    config: GlobalConfig,
    enabled: Seq<char>,
    w: Groups,
)
    requires
        w.by_weight == words(enabled).contains("cpu"@),
        config.instance_id@.len() > 0 ==> config.instance_id@.last() != '/',
    ensures
        ({
            let dir = group_dir(config);
            let done = run(w, dir, placing(pid, config, enabled));
            &&& done is Some
            &&& done->0.all.contains_key(dir)
            &&& done->0.all[dir].members.contains(pid as nat)
            &&& done->0.all[dir].weight == Some(
                match config.cpu_weight {
                    Some(n) => n as nat,
                    None => 50,
                },
            )
            &&& done->0.by_weight
            &&& done->0.all.remove(dir) == w.all.remove(dir)
            &&& w.all.contains_key(dir) ==> w.all[dir].members.subset_of(
                done->0.all[dir].members,
            )
            &&& run(w, dir, removing(config)) == Some(Groups { all: w.all.remove(dir), ..w })
        }),
{
    let dir = group_dir(config);
    let p = placing(pid, config, enabled);
    let share = match config.cpu_weight {
        Some(n) => n,
        None => DEFAULT_CPU_WEIGHT,
    };
    lemma_dec_parsed(pid as nat, u32::MAX as nat);
    lemma_dec_parsed(share as nat, u32::MAX as nat);
    lemma_group_paths(config);
    let control = "/sys/fs/cgroup/cgroup.subtree_control"@;
    let w1 = Groups { by_weight: true, ..w };
    let w2 = if w.all.contains_key(dir) {
        w1
    } else {
        Groups { all: w.all.insert(dir, Group { weight: None, members: Set::empty() }), ..w1 }
    };
    let w3 = Groups {
        all: w2.all.insert(dir, Group { weight: Some(share as nat), ..w2.all[dir] }),
        ..w2
    };
    let w4 = Groups {
        all: w3.all.insert(
            dir,
            Group { members: w3.all[dir].members.insert(pid as nat), ..w3.all[dir] },
        ),
        ..w3
    };
    let k: int = if words(enabled).contains("cpu"@) {
        0
    } else {
        1
    };
    assert(p.len() == k + 3);
    assert forall|i: int| 0 < i <= p.len() implies run(w, dir, #[trigger] p.take(i)) == (match run(
        w,
        dir,
        p.take(i - 1),
    ) {
        Some(x) => effect(x, dir, p[i - 1].action),
        None => None,
    }) by {
        assert(p.take(i).drop_last() =~= p.take(i - 1));
    }
    assert(run(w, dir, p.take(0)) == Some(w));
    if k == 1 {
        assert(p[0].action == GroupView::Write(control, "+cpu"@));
        assert(run(w, dir, p.take(1)) == Some(w1));
    }
    assert(run(w, dir, p.take(k)) == Some(w1));
    assert(p[k].action == GroupView::MakeDir(dir));
    assert(run(w, dir, p.take(k + 1)) == Some(w2));
    assert(p[k + 1].action == GroupView::Write(dir + "/cpu.weight"@, dec(share as nat)));
    assert(run(w, dir, p.take(k + 2)) == Some(w3));
    assert(p[k + 2].action == GroupView::Write(dir + "/cgroup.procs"@, dec(pid as nat)));
    assert(run(w, dir, p.take(k + 3)) == Some(w4));
    assert(p.take(k + 3) =~= p);
    assert(w4.all.remove(dir) =~= w.all.remove(dir));
    let q = removing(config);
    assert(q.drop_last().len() == 0);
    assert(run(w, dir, q.drop_last()) == Some(w));
}

proof fn lemma_group_paths(config: GlobalConfig)
    requires
        config.instance_id@.len() > 0 ==> config.instance_id@.last() != '/',
    ensures
        ({
            let dir = group_dir(config);
            let control = "/sys/fs/cgroup/cgroup.subtree_control"@;
            &&& joined("/sys/fs/cgroup"@, "cgroup.subtree_control"@) == control
            &&& joined(dir, "cpu.weight"@) == dir + "/cpu.weight"@
            &&& joined(dir, "cgroup.procs"@) == dir + "/cgroup.procs"@
            &&& dir + "/cpu.weight"@ != control
            &&& dir + "/cgroup.procs"@ != control
            &&& dir + "/cpu.weight"@ != dir + "/cgroup.procs"@
        }),
{
    reveal_strlit("/sys/fs/cgroup");
    reveal_strlit("/sys/fs/cgroup/cgroup.subtree_control");
    reveal_strlit("cgroup.subtree_control");
    reveal_strlit("cpu.weight");
    reveal_strlit("cgroup.procs");
    reveal_strlit("/cpu.weight");
    reveal_strlit("/cgroup.procs");
    reveal_strlit("ember");
    reveal_strlit("ember-");
    reveal_strlit("/");
    let dir = group_dir(config);
    let g = group_name(namespace(config.instance_id@));
    let control = "/sys/fs/cgroup/cgroup.subtree_control"@;
    assert("/"@ + "cgroup.subtree_control"@ =~= control.skip(14));
    assert("/sys/fs/cgroup"@ + "/"@ + "cgroup.subtree_control"@ =~= control);
    assert("/"@ + "cpu.weight"@ =~= "/cpu.weight"@);
    assert("/"@ + "cgroup.procs"@ =~= "/cgroup.procs"@);
    assert(g[0] == 'e');
    assert(dir =~= "/sys/fs/cgroup"@ + "/"@ + g);
    assert(dir.last() == g.last());
    assert(dir[15] == 'e');
    assert(control[15] == 'c');
    assert(dir + "/"@ + "cpu.weight"@ =~= dir + "/cpu.weight"@);
    assert(dir + "/"@ + "cgroup.procs"@ =~= dir + "/cgroup.procs"@);
    assert((dir + "/cpu.weight"@)[15] == 'e');
    assert((dir + "/cgroup.procs"@)[15] == 'e');
    assert((dir + "/cpu.weight"@).len() != (dir + "/cgroup.procs"@).len());
}

} // verus!
