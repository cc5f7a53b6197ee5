//! Machines that are there: renaming, running, changing, deleting and listing
//! them.

use vstd::prelude::*;
use vstd::string::*;

use super::fmt::{bytes_text, format_bytes_binary, left, left_in, print_table, table_lines,
    table_of, Align, GIB, MIB};
use super::snapshot::{restoring, RestoreArgs};
use super::vm::{
    cleaning_up, copying, rolling_back, socket_of, CpArgs, ListArgs, Refusal, RefusalView,
    RenameArgs, ResizeArgs, RmArgs, StatusFilter, UpdateConfigArgs, VmAction, VmView,
};
use crate::backend::{SnapshotInfo, StartedVm, VolumeHandle};
use crate::command::{nothing, with};
use crate::error::{answer, outcome, Error, ErrorView};
use crate::iptables::words_of;
use crate::config::opt_str;
use crate::path::{expand_tilde, join, written_out};
use crate::procedure::{
    and, may, must, must_or, no_actions, no_steps, plan, then_may, then_must, then_must_or,
    then_must_undo, views, Step, StepView,
};
use crate::reconcile::numbers;
use crate::rollback::cleanup_message;
use crate::size::whole_units;
use crate::store::vm_dir_of;
use crate::text::{dec, decimal, opt_text, same, texts};
use crate::vm::{
    mark_stopped, not_stopped, require_stopped, wrong_state, wrong_state_error, NetworkInfo,
    VmMetadata, VmStatus,
};

verus! {

// ---------------------------------------------------------------------
// Renaming
// ---------------------------------------------------------------------

/// Whether a machine can get another name, and why not.
pub fn rename(args: &RenameArgs) -> (r: Result<(), String>)
    ensures
        answer(r) == (if args.name@ == args.new_name@ {
            Err::<(), Seq<char>>("new name is the same as the current name"@)
        } else if args.new_name@.len() == 0 {
            Err("new name must not be empty"@)
        } else {
            Ok(())
        }),
{
    if same(args.name.as_str(), args.new_name.as_str()) {
        return Err("new name is the same as the current name".to_owned());
    }
    if args.new_name.as_str().is_empty() {
        return Err("new name must not be empty".to_owned());
    }
    Ok(())
}

/// How a machine gets another name. The disk gets its old name back when the
/// directory of the machine cannot be moved.
pub open spec fn rename_plan(name: Seq<char>, new_name: Seq<char>, root: Seq<char>) -> Seq<
    StepView<VmView>,
> {
    seq![
        must(VmView::RenameStorage(new_name)),
        must_or(
            VmView::MoveDir(vm_dir_of(root, name), vm_dir_of(root, new_name)),
            seq![VmView::RevertStorage],
        ),
        must(VmView::SaveRecord),
        must(VmView::RenameParents),
        must(VmView::Say("VM '"@ + name + "' renamed to '"@ + new_name + "'."@)),
    ]
}

/// How a machine gets another name, unless that is `taken`. Everything lies under
/// `root`.
pub fn rename_steps(args: &RenameArgs, root: &str, taken: bool) -> (r: Result<
    Vec<Step<VmAction>>,
    String,
>)
    ensures
        match r {
            Ok(steps) => !taken && plan(steps@) == rename_plan(args.name@, args.new_name@, root@),
            Err(e) => taken && e@ == "vm '"@ + args.new_name@ + "' already exists"@,
        },
{
    if taken {
        return Err("vm '".to_owned().concat(args.new_name.as_str()).concat("' already exists"));
    }
    let vms = join(root, "vms");
    let old_dir = join(vms.as_str(), args.name.as_str());
    let new_dir = join(vms.as_str(), args.new_name.as_str());
    let steps = then_must(no_steps(), VmAction::RenameStorage(args.new_name.clone()));
    let steps = then_must_or(
        steps,
        VmAction::MoveDir(old_dir, new_dir),
        VmAction::RevertStorage,
    );
    let steps = then_must(steps, VmAction::SaveRecord);
    let steps = then_must(steps, VmAction::RenameParents);
    let t = "VM '".to_owned().concat(args.name.as_str()).concat("' renamed to '").concat(
        args.new_name.as_str(),
    ).concat("'.");
    let steps = then_must(steps, VmAction::Say(t));
    assert(plan(steps@) =~= rename_plan(args.name@, args.new_name@, root@));
    Ok(steps)
}

/// The refusal to give a machine another name: the name has to make sense, the
/// machine has to stand still, and the name has to be free, in this order.
pub open spec fn rename_refusal(args: RenameArgs, m: VmMetadata, taken: bool) -> Option<
    RefusalView,
> {
    if args.name@ == args.new_name@ {
        Some(RefusalView::Words("new name is the same as the current name"@))
    } else if args.new_name@.len() == 0 {
        Some(RefusalView::Words("new name must not be empty"@))
    } else if m.status.spec_is_active() {
        Some(RefusalView::NotStopped(not_stopped(m, "renaming"@)))
    } else if taken {
        Some(RefusalView::Words("vm '"@ + args.new_name@ + "' already exists"@))
    } else {
        None
    }
}

/// How a machine gets another name, or the refusal to give it one.
pub fn begin_rename(args: &RenameArgs, m: &VmMetadata, root: &str, taken: bool) -> (r: Result<
    Vec<Step<VmAction>>,
    Refusal,
>)
    ensures
        match r {
            Ok(steps) => rename_refusal(*args, *m, taken) is None && plan(steps@) == rename_plan(
                args.name@,
                args.new_name@,
                root@,
            ),
            Err(e) => rename_refusal(*args, *m, taken) == Some(e@),
        },
{
    match rename(args) {
        Ok(()) => {},
        Err(e) => {
            return Err(Refusal::Words(e));
        },
    }
    match require_stopped(m, "renaming") {
        Ok(()) => {},
        Err(e) => {
            return Err(Refusal::NotStopped(e));
        },
    }
    match rename_steps(args, root, taken) {
        Ok(steps) => Ok(steps),
        Err(e) => Err(Refusal::Words(e)),
    }
}

/// The record to put a disk back under its old name with, when the rest of a
/// renaming fails.
pub fn revert_metadata(new_name: &str, handle: &VolumeHandle) -> (r: VmMetadata)
    ensures
        r.name@ == new_name@,
        r.disk_path@ == handle.disk_path@,
        r.thin_id == handle.thin_id,
        exists|p: VmMetadata| #[trigger]
            p.is_placeholder() && r == (VmMetadata {
                name: r.name,
                disk_path: r.disk_path,
                thin_id: r.thin_id,
                ..p
            }),
{
    let mut m = VmMetadata::default_for_teardown();
    let ghost p = m;
    assert(p.is_placeholder());
    m.name = new_name.to_owned();
    m.disk_path = handle.disk_path.clone();
    m.thin_id = handle.thin_id;
    m
}

/// The error for a directory that could not be moved.
pub fn move_error(old_dir: &str, new_dir: &str, why: &str) -> (r: String)
    ensures
        r@ == "failed to move state dir "@ + old_dir@ + " → "@ + new_dir@ + ": "@ + why@,
{
    "failed to move state dir ".to_owned().concat(old_dir).concat(" → ").concat(new_dir).concat(
        ": ",
    ).concat(why)
}

/// Whether a record is that of a machine that got another name.
pub open spec fn is_renamed(
    before: VmMetadata,
    after: VmMetadata,
    new_name: Seq<char>,
    handle: VolumeHandle,
    state_dir: Seq<char>,
) -> bool {
    &&& after.name@ == new_name
    &&& after.disk_path@ == handle.disk_path@
    &&& after.thin_id == handle.thin_id
    &&& after.api_socket@ == socket_of(state_dir, new_name)
    &&& after == (VmMetadata {
        name: after.name,
        disk_path: after.disk_path,
        thin_id: after.thin_id,
        api_socket: after.api_socket,
        ..before
    })
}

/// Gives a machine another name, with all that follows from it.
pub fn apply_rename(m: &mut VmMetadata, new_name: &str, handle: &VolumeHandle, state_dir: &str)
    ensures
        is_renamed(*old(m), *final(m), new_name@, *handle, state_dir@),
{
    let vms = join(state_dir, "vms");
    let dir = join(vms.as_str(), new_name);
    m.name = new_name.to_owned();
    m.disk_path = handle.disk_path.clone();
    m.thin_id = handle.thin_id;
    m.api_socket = join(dir.as_str(), "firecracker.sock");
}

/// What a machine says it was copied from, after a renaming.
pub open spec fn parent_after(parent: Option<Seq<char>>, name: Seq<char>, new_name: Seq<char>) -> Option<
    Seq<char>,
> {
    if parent == Some(name) {
        Some(new_name)
    } else {
        parent
    }
}

/// Follows a renaming in what a machine says it was copied from. The result says
/// whether there was something to change.
pub fn rename_parent(child: &mut VmMetadata, name: &str, new_name: &str) -> (r: bool)
    ensures
        r == (opt_text(old(child).parent_vm) == Some(name@)),
        opt_text(final(child).parent_vm) == parent_after(
            opt_text(old(child).parent_vm),
            name@,
            new_name@,
        ),
        *final(child) == (VmMetadata { parent_vm: final(child).parent_vm, ..*old(child) }),
{
    let is_child = match &child.parent_vm {
        Some(p) => same(p.as_str(), name),
        None => false,
    };
    if is_child {
        child.parent_vm = Some(new_name.to_owned());
    }
    is_child
}

/// After a renaming no machine says that it was copied from one of the old name.
pub proof fn law_renaming_leaves_no_orphans(
    parent: Option<Seq<char>>,
    name: Seq<char>,
    new_name: Seq<char>,
)
    requires
        name != new_name,
    ensures
        parent_after(parent, name, new_name) != Some(name),
{
}

// ---------------------------------------------------------------------
// Running
// ---------------------------------------------------------------------

/// The memory in MiB of the machines among the first `n` that run.
pub open spec fn committed(vms: Seq<VmMetadata>, n: int) -> nat
    decreases n,
{
    if n <= 0 {
        0
    } else if vms[n - 1].status.spec_is_active() {
        committed(vms, n - 1) + vms[n - 1].memory_mib as nat
    } else {
        committed(vms, n - 1)
    }
}

proof fn lemma_committed_grows(vms: Seq<VmMetadata>, n: int, m: int)
    requires
        n <= m,
    ensures
        committed(vms, n) <= committed(vms, m),
    decreases m - n,
{
    if n < m {
        lemma_committed_grows(vms, n, m - 1);
    }
}

/// The memory in MiB that all machines together may have: four fifths of what
/// the host has.
pub open spec fn memory_cap(host_mib: u32) -> nat {
    (host_mib as nat * 4) / 5
}

/// Whether a machine may be started, and why not: the machines that run must
/// leave a part of the memory of the host to others.
pub open spec fn admission(
    vms: Seq<VmMetadata>,
    vm_name: Seq<char>,
    requested_mib: u32,
    host_mib: u32,
) -> Result<(), Seq<char>> {
    let used = committed(vms, vms.len() as int);
    if used + requested_mib > memory_cap(host_mib) {
        Err(
            "starting '"@ + vm_name + "' ("@ + dec(requested_mib as nat) + " MiB) would commit "@
                + dec((used + requested_mib) as nat)
                + " MiB of guest RAM, exceeding the 80% cap of "@ + dec(memory_cap(host_mib))
                + " MiB on a host with "@ + dec(host_mib as nat) + " MiB total ("@ + dec(used)
                + " MiB already committed by running VMs). Stop another VM first, or override per-VM memory with 'ember vm update-config'."@,
        )
    } else {
        Ok(())
    }
}

/// Whether a machine may be started, and why not: the machines that run must
/// leave a part of the memory of the host to others.
pub fn check_admission(vms: &Vec<VmMetadata>, vm_name: &str, requested_mib: u32, host_mib: u32) -> (r:
    Result<(), String>)
    requires
        committed(vms@, vms@.len() as int) + requested_mib <= u32::MAX,
    ensures
        answer(r) == admission(vms@, vm_name@, requested_mib, host_mib),
{
    let mut used: u32 = 0;
    let mut i: usize = 0;
    while i < vms.len()
        invariant
            i <= vms.len(),
            used == committed(vms@, i as int),
            committed(vms@, vms@.len() as int) <= u32::MAX,
        decreases vms.len() - i,
    {
        proof {
            lemma_committed_grows(vms@, i + 1, vms@.len() as int);
        }
        if vms[i].status.is_active() {
            used = used + vms[i].memory_mib;
        }
        i = i + 1;
    }
    let new_total: u32 = used + requested_mib;
    let cap: u64 = host_mib as u64 * 4 / 5;
    if new_total as u64 > cap {
        let requested = decimal(requested_mib as u64);
        let total = decimal(new_total as u64);
        let cap_text = decimal(cap);
        let host = decimal(host_mib as u64);
        let already = decimal(used as u64);
        return Err(
            "starting '".to_owned().concat(vm_name).concat("' (").concat(
                requested.as_str(),
            ).concat(" MiB) would commit ").concat(total.as_str()).concat(
                " MiB of guest RAM, exceeding the 80% cap of ",
            ).concat(cap_text.as_str()).concat(" MiB on a host with ").concat(
                host.as_str(),
            ).concat(" MiB total (").concat(already.as_str()).concat(
                " MiB already committed by running VMs). Stop another VM first, or override per-VM memory with 'ember vm update-config'.",
            ),
        );
    }
    Ok(())
}

/// Whether a machine may be started, and why not, where it could be found out how
/// much memory the host has. Where it could not, the machine may be started, and
/// there is something to warn of.
pub fn admission_of(
    vms: &Vec<VmMetadata>,
    vm_name: &str,
    requested_mib: u32,
    host_mib: Result<u32, String>,
) -> (r: Result<Option<String>, String>)
    requires
        host_mib is Ok ==> committed(vms@, vms@.len() as int) + requested_mib <= u32::MAX,
    ensures
        match host_mib {
            Err(e) => r matches Ok(Some(t)) && t@ == "warning: skipping admission check: "@ + e@,
            Ok(host) => match r {
                Ok(w) => w is None && admission(vms@, vm_name@, requested_mib, host) is Ok,
                Err(e) => admission(vms@, vm_name@, requested_mib, host)
                    == Err::<(), Seq<char>>(e@),
            },
        },
{
    match host_mib {
        Err(e) => Ok(Some("warning: skipping admission check: ".to_owned().concat(e.as_str()))),
        Ok(host) => match check_admission(vms, vm_name, requested_mib, host) {
            Ok(()) => Ok(None),
            Err(e) => Err(e),
        },
    }
}

/// Whether a machine is in a state to be started, and why not.
pub fn check_startable(name: &str, status: VmStatus) -> (r: Result<(), Error>)
    ensures
        outcome(r) == (if status == VmStatus::Created || status == VmStatus::Stopped {
            Ok::<(), ErrorView>(())
        } else {
            Err(wrong_state(name@, status, "created or stopped"@))
        }),
{
    if status == VmStatus::Created || status == VmStatus::Stopped {
        Ok(())
    } else {
        Err(wrong_state_error(name, status, "created or stopped"))
    }
}

/// What undoes the network of a machine.
pub open spec fn undo_network() -> Seq<VmView> {
    seq![cleaning_up("network"@), VmView::TeardownNetwork]
}

/// What undoes a machine that runs: the last thing that was done goes first.
pub open spec fn undo_process() -> Seq<VmView> {
    seq![cleaning_up("VM process"@), VmView::ForceStop] + undo_network()
}

/// How a machine is started. What was done is undone when something fails.
pub open spec fn start_plan(name: Seq<char>) -> Seq<StepView<VmView>> {
    seq![
        must(VmView::Say("Setting up network..."@)),
        must(VmView::SetupNetwork),
        must(VmView::TellAddresses),
        must_or(VmView::Say("Starting VM..."@), seq![rolling_back()] + undo_network()),
        must_or(VmView::StartProcess, seq![rolling_back()] + undo_network()),
        must_or(VmView::SaveRecord, seq![rolling_back()] + undo_process()),
        must(VmView::TellStarted(name)),
    ]
}

fn then_start(steps: Vec<Step<VmAction>>, name: &str) -> (r: Vec<Step<VmAction>>)
    ensures
        plan(r@) == plan(steps@) + start_plan(name@),
{
    let ghost before = plan(steps@);
    let banner = "Operation failed, rolling back...";
    let first = and(no_actions(), VmAction::Warn(banner.to_owned()));
    let first = and(first, VmAction::Warn(cleanup_message("network")));
    let first = and(first, VmAction::TeardownNetwork);
    assert(views(first@) =~= seq![rolling_back()] + undo_network());
    let second = and(no_actions(), VmAction::Warn(banner.to_owned()));
    let second = and(second, VmAction::Warn(cleanup_message("network")));
    let second = and(second, VmAction::TeardownNetwork);
    assert(views(second@) =~= seq![rolling_back()] + undo_network());
    let third = and(no_actions(), VmAction::Warn(banner.to_owned()));
    let third = and(third, VmAction::Warn(cleanup_message("VM process")));
    let third = and(third, VmAction::ForceStop);
    let third = and(third, VmAction::Warn(cleanup_message("network")));
    let third = and(third, VmAction::TeardownNetwork);
    assert(views(third@) =~= seq![rolling_back()] + undo_process());
    let steps = then_must(steps, VmAction::Say("Setting up network...".to_owned()));
    let steps = then_must(steps, VmAction::SetupNetwork);
    let steps = then_must(steps, VmAction::TellAddresses);
    let steps = then_must_undo(steps, VmAction::Say("Starting VM...".to_owned()), first);
    let steps = then_must_undo(steps, VmAction::StartProcess, second);
    let steps = then_must_undo(steps, VmAction::SaveRecord, third);
    let steps = then_must(steps, VmAction::TellStarted(name.to_owned()));
    assert(plan(steps@) =~= before + start_plan(name@));
    steps
}

/// Whether a machine in this state can be started.
pub open spec fn startable(status: VmStatus) -> bool {
    status == VmStatus::Created || status == VmStatus::Stopped
}

/// How a machine is started, or the refusal to start it: it has to stand still,
/// and the host has to have the memory for it, in this order. Where it could not
/// be found out how much memory the host has, the user is warned instead.
pub open spec fn starting(
    name: Seq<char>,
    m: VmMetadata,
    vms: Seq<VmMetadata>,
    host_mib: Result<u32, String>,
) -> Result<Seq<StepView<VmView>>, RefusalView> {
    if !startable(m.status) {
        Err(RefusalView::WrongState(wrong_state(name, m.status, "created or stopped"@)))
    } else {
        match host_mib {
            Err(e) => Ok(
                seq![must(VmView::Warn("warning: skipping admission check: "@ + e@))]
                    + start_plan(name),
            ),
            Ok(host) => match admission(vms, m.name@, m.memory_mib, host) {
                Err(why) => Err(RefusalView::Words(why)),
                Ok(_) => Ok(start_plan(name)),
            },
        }
    }
}

/// How a machine is started, or the refusal to start it. `vms` are all machines,
/// and `host_mib` is the memory of the host or why it is not known.
pub fn begin_start(
    name: &str,
    m: &VmMetadata,
    vms: &Vec<VmMetadata>,
    host_mib: Result<u32, String>,
) -> (r: Result<Vec<Step<VmAction>>, Refusal>)
    requires
        startable(m.status) && host_mib is Ok ==> committed(vms@, vms@.len() as int) + m.memory_mib
            <= u32::MAX,
    ensures
        match r {
            Ok(steps) => starting(name@, *m, vms@, host_mib) == Ok::<
                Seq<StepView<VmView>>,
                RefusalView,
            >(plan(steps@)),
            Err(e) => starting(name@, *m, vms@, host_mib) == Err::<
                Seq<StepView<VmView>>,
                RefusalView,
            >(e@),
        },
{
    match check_startable(name, m.status) {
        Ok(()) => {},
        Err(e) => {
            return Err(Refusal::WrongState(e));
        },
    }
    let ghost host = host_mib;
    match admission_of(vms, m.name.as_str(), m.memory_mib, host_mib) {
        Err(e) => Err(Refusal::Words(e)),
        Ok(None) => {
            let steps: Vec<Step<VmAction>> = no_steps();
            let ghost none = plan(steps@);
            let steps = then_start(steps, name);
            assert(none + start_plan(name@) =~= start_plan(name@));
            Ok(steps)
        },
        Ok(Some(warning)) => {
            let ghost words = warning@;
            let steps = then_must(no_steps(), VmAction::Warn(warning));
            assert(plan(steps@) =~= seq![must(VmView::Warn(words))]);
            Ok(then_start(steps, name))
        },
    }
}

/// What the user is told of the network of a machine.
pub fn addresses_text(net: &NetworkInfo) -> (r: String)
    ensures
        r@ == "  Guest IP: "@ + net.guest_ip@ + ", Host IP: "@ + net.host_ip@,
{
    "  Guest IP: ".to_owned().concat(net.guest_ip.as_str()).concat(", Host IP: ").concat(
        net.host_ip.as_str(),
    )
}

/// The record of a machine that was started.
pub open spec fn running(m: VmMetadata, started: StartedVm) -> VmMetadata {
    VmMetadata {
        network: Some(started.network),
        status: VmStatus::Running,
        pid: Some(started.pid),
        ..m
    }
}

/// Records that a machine runs.
pub fn mark_running(m: &mut VmMetadata, started: &StartedVm)
    ensures
        *final(m) == running(*old(m), *started),
{
    m.network = Some(started.network.clone());
    m.status = VmStatus::Running;
    m.pid = Some(started.pid);
}

/// What the user is told of a machine that was started.
pub fn started_text(name: &str, pid: u32) -> (r: String)
    ensures
        r@ == "VM '"@ + name@ + "' started (pid "@ + dec(pid as nat) + ")."@,
{
    let n = decimal(pid as u64);
    "VM '".to_owned().concat(name).concat("' started (pid ").concat(n.as_str()).concat(").")
}

/// How a machine is stopped.
#[derive(Debug, Clone, Copy, PartialEq, Eq, Structural)]
pub enum StopKind {
    /// Its process is gone already.
    Gone,
    Forced,
    Graceful,
}

/// How a machine is stopped: `running` says whether its process is there.
pub open spec fn stop_kind(running: bool, force: bool) -> StopKind {
    if !running {
        StopKind::Gone
    } else if force {
        StopKind::Forced
    } else {
        StopKind::Graceful
    }
}

/// What the user is told before a machine is stopped.
pub open spec fn stop_text(kind: StopKind, name: Seq<char>, pid: u32) -> Seq<char> {
    match kind {
        StopKind::Gone => "VM process (pid "@ + dec(pid as nat) + ") is already dead."@,
        StopKind::Forced => "Force-stopping VM (pid "@ + dec(pid as nat) + ")..."@,
        StopKind::Graceful => "Stopping VM '"@ + name + "'..."@,
    }
}

/// Why a machine that is stopped cannot be, or its process.
#[derive(Debug)]
pub enum StopRefusal {
    /// It is in another state.
    WrongState(Error),
    /// It should have a process and has none.
    NoPid(String),
}

/// Whether this is why a machine cannot be stopped.
pub open spec fn refused(m: VmMetadata, name: Seq<char>, why: StopRefusal) -> bool {
    match why {
        StopRefusal::WrongState(e) => !m.status.spec_is_active() && e@ == wrong_state(
            name,
            m.status,
            "running or paused"@,
        ),
        StopRefusal::NoPid(t) => m.status.spec_is_active() && m.pid is None && t@ == "vm '"@ + name
            + "' is "@ + m.status.text()
            + " but has no PID — state may be corrupted\nHint: try 'ember vm delete --force "@
            + name + "' and recreate the VM"@,
    }
}

/// The process of a machine that is to be stopped.
pub fn check_stoppable(name: &str, metadata: &VmMetadata) -> (r: Result<u32, StopRefusal>)
    ensures
        match r {
            Ok(pid) => metadata.status.spec_is_active() && metadata.pid == Some(pid),
            Err(e) => refused(*metadata, name@, e),
        },
{
    if !metadata.status.is_active() {
        return Err(
            StopRefusal::WrongState(
                wrong_state_error(name, metadata.status, "running or paused"),
            ),
        );
    }
    match metadata.pid {
        Some(pid) => Ok(pid),
        None => {
            let status = metadata.status.to_string();
            Err(
                StopRefusal::NoPid(
                    "vm '".to_owned().concat(name).concat("' is ").concat(
                        status.as_str(),
                    ).concat(
                        " but has no PID — state may be corrupted\nHint: try 'ember vm delete --force ",
                    ).concat(name).concat("' and recreate the VM"),
                ),
            )
        },
    }
}

/// How a machine is stopped. Its network may be gone already, so it does not
/// matter when that cannot be taken down.
pub open spec fn stop_plan(kind: StopKind, name: Seq<char>, pid: u32) -> Seq<StepView<VmView>> {
    seq![must(VmView::Say(stop_text(kind, name, pid)))] + (match kind {
        StopKind::Gone => seq![],
        StopKind::Forced => seq![must(VmView::ForceStop)],
        StopKind::Graceful => seq![must(VmView::Stop)],
    }) + seq![
        may(VmView::TeardownNetwork),
        must(VmView::SaveRecord),
        must(VmView::Say("VM '"@ + name + "' stopped."@)),
    ]
}

/// A machine that is stopped.
pub open spec fn stopped(m: VmMetadata) -> VmMetadata {
    VmMetadata { status: VmStatus::Stopped, pid: None, network: None, ..m }
}

/// How a machine is stopped, or why it cannot be; `running` says whether its
/// process is there. `m` becomes the record that is to be kept.
pub fn stop(m: &mut VmMetadata, name: &str, running: bool, force: bool) -> (r: Result<
    Vec<Step<VmAction>>,
    StopRefusal,
>)
    ensures
        match r {
            Ok(steps) => {
                &&& old(m).status.spec_is_active()
                &&& old(m).pid is Some
                &&& plan(steps@) == stop_plan(stop_kind(running, force), name@, old(m).pid->0)
                &&& *final(m) == stopped(*old(m))
            },
            Err(e) => *final(m) == *old(m) && refused(*old(m), name@, e),
        },
{
    let pid: u32 = match check_stoppable(name, m) {
        Ok(pid) => pid,
        Err(e) => {
            return Err(e);
        },
    };
    let n = decimal(pid as u64);
    let steps: Vec<Step<VmAction>> = if !running {
        let t = "VM process (pid ".to_owned().concat(n.as_str()).concat(") is already dead.");
        then_must(no_steps(), VmAction::Say(t))
    } else if force {
        let t = "Force-stopping VM (pid ".to_owned().concat(n.as_str()).concat(")...");
        then_must(then_must(no_steps(), VmAction::Say(t)), VmAction::ForceStop)
    } else {
        let t = "Stopping VM '".to_owned().concat(name).concat("'...");
        then_must(then_must(no_steps(), VmAction::Say(t)), VmAction::Stop)
    };
    let steps = then_may(steps, VmAction::TeardownNetwork);
    let steps = then_must(steps, VmAction::SaveRecord);
    let t = "VM '".to_owned().concat(name).concat("' stopped.");
    let steps = then_must(steps, VmAction::Say(t));
    assert(plan(steps@) =~= stop_plan(stop_kind(running, force), name@, pid));
    mark_stopped(m);
    Ok(steps)
}

/// A machine that is paused.
pub open spec fn paused(m: VmMetadata) -> VmMetadata {
    VmMetadata { status: VmStatus::Paused, ..m }
}

/// A machine that runs again.
pub open spec fn resumed(m: VmMetadata) -> VmMetadata {
    VmMetadata { status: VmStatus::Running, ..m }
}

/// How a machine is paused.
pub open spec fn pause_plan(name: Seq<char>) -> Seq<StepView<VmView>> {
    seq![
        must(VmView::PrePauseCheck),
        must(VmView::Say("Pausing VM '"@ + name + "'..."@)),
        must(VmView::Pause),
        must(VmView::SaveRecord),
        must(VmView::Say("VM '"@ + name + "' paused."@)),
    ]
}

/// How a machine is paused, when it runs. `m` becomes the record that is to be kept.
pub fn pause(m: &mut VmMetadata, name: &str) -> (r: Result<Vec<Step<VmAction>>, Error>)
    ensures
        match r {
            Ok(steps) => old(m).status == VmStatus::Running && plan(steps@) == pause_plan(name@),
            Err(e) => old(m).status != VmStatus::Running && e@ == wrong_state(
                name@,
                old(m).status,
                "running"@,
            ),
        },
        *final(m) == (if old(m).status == VmStatus::Running {
            paused(*old(m))
        } else {
            *old(m)
        }),
{
    if m.status != VmStatus::Running {
        return Err(wrong_state_error(name, m.status, "running"));
    }
    m.status = VmStatus::Paused;
    let steps = then_must(no_steps(), VmAction::PrePauseCheck);
    let t = "Pausing VM '".to_owned().concat(name).concat("'...");
    let steps = then_must(steps, VmAction::Say(t));
    let steps = then_must(steps, VmAction::Pause);
    let steps = then_must(steps, VmAction::SaveRecord);
    let t = "VM '".to_owned().concat(name).concat("' paused.");
    let steps = then_must(steps, VmAction::Say(t));
    assert(plan(steps@) =~= pause_plan(name@));
    Ok(steps)
}

/// How a machine is resumed.
pub open spec fn resume_plan(name: Seq<char>) -> Seq<StepView<VmView>> {
    seq![
        must(VmView::PrePauseCheck),
        must(VmView::Say("Resuming VM '"@ + name + "'..."@)),
        must(VmView::Resume),
        must(VmView::SaveRecord),
        must(VmView::Say("VM '"@ + name + "' resumed."@)),
    ]
}

/// How a machine is resumed, when it is paused. `m` becomes the record that is to
/// be kept.
pub fn resume(m: &mut VmMetadata, name: &str) -> (r: Result<Vec<Step<VmAction>>, Error>)
    ensures
        match r {
            Ok(steps) => old(m).status == VmStatus::Paused && plan(steps@) == resume_plan(name@),
            Err(e) => old(m).status != VmStatus::Paused && e@ == wrong_state(
                name@,
                old(m).status,
                "paused"@,
            ),
        },
        *final(m) == (if old(m).status == VmStatus::Paused {
            resumed(*old(m))
        } else {
            *old(m)
        }),
{
    if m.status != VmStatus::Paused {
        return Err(wrong_state_error(name, m.status, "paused"));
    }
    m.status = VmStatus::Running;
    let steps = then_must(no_steps(), VmAction::PrePauseCheck);
    let t = "Resuming VM '".to_owned().concat(name).concat("'...");
    let steps = then_must(steps, VmAction::Say(t));
    let steps = then_must(steps, VmAction::Resume);
    let steps = then_must(steps, VmAction::SaveRecord);
    let t = "VM '".to_owned().concat(name).concat("' resumed.");
    let steps = then_must(steps, VmAction::Say(t));
    assert(plan(steps@) =~= resume_plan(name@));
    Ok(steps)
}

/// Resuming undoes pausing.
pub proof fn law_resuming_undoes_pausing(m: VmMetadata)
    requires
        m.status == VmStatus::Running,
    ensures
        resumed(paused(m)) == m,
        paused(m).status == VmStatus::Paused,
{
}

// ---------------------------------------------------------------------
// Changing
// ---------------------------------------------------------------------

fn gib_text(gib: u32) -> (r: String)
    ensures
        r@ == bytes_text((gib * GIB) as u64),
{
    assert(gib as u64 * GIB <= u32::MAX * GIB) by (nonlinear_arith)
        requires
            gib <= u32::MAX,
    ;
    format_bytes_binary(gib as u64 * GIB)
}

fn mib_text(mib: u32) -> (r: String)
    ensures
        r@ == bytes_text((mib * MIB) as u64),
{
    assert(mib as u64 * MIB <= u32::MAX * MIB) by (nonlinear_arith)
        requires
            mib <= u32::MAX,
    ;
    format_bytes_binary(mib as u64 * MIB)
}

/// The size that a disk is to have, in GiB: it can only grow.
pub open spec fn new_disk_size(args: ResizeArgs, current_gib: u32) -> Result<u32, Seq<char>> {
    match whole_units(args.disk_size.bytes(), crate::size::GIB, "GiB"@) {
        Err(e) => Err("invalid disk size: "@ + e),
        Ok(gib) => if gib <= current_gib {
            Err(
                "new disk size ("@ + bytes_text((gib * GIB) as u64)
                    + ") must be larger than current size ("@ + bytes_text(
                    (current_gib * GIB) as u64,
                ) + ")"@,
            )
        } else {
            Ok(gib)
        },
    }
}

/// The size that a disk is to have, in GiB.
pub fn check_resize(args: &ResizeArgs, current_gib: u32) -> (r: Result<u32, String>)
    ensures
        answer(r) == new_disk_size(*args, current_gib),
{
    let gib: u32 = match args.disk_size.to_gib() {
        Ok(n) => n,
        Err(e) => {
            return Err("invalid disk size: ".to_owned().concat(e.as_str()));
        },
    };
    if gib <= current_gib {
        let new = gib_text(gib);
        let current = gib_text(current_gib);
        return Err(
            "new disk size (".to_owned().concat(new.as_str()).concat(
                ") must be larger than current size (",
            ).concat(current.as_str()).concat(")"),
        );
    }
    Ok(gib)
}

fn resized_text(name: &str, from_gib: u32, to_gib: u32) -> (r: String)
    ensures
        r@ == "VM '"@ + name@ + "' disk resized from "@ + bytes_text((from_gib * GIB) as u64)
            + " to "@ + bytes_text((to_gib * GIB) as u64) + "."@,
{
    let from = gib_text(from_gib);
    let to = gib_text(to_gib);
    "VM '".to_owned().concat(name).concat("' disk resized from ").concat(from.as_str()).concat(
        " to ",
    ).concat(to.as_str()).concat(".")
}

/// How a disk is made larger.
pub open spec fn resize_plan(name: Seq<char>, from_gib: u32, to_gib: u32) -> Seq<StepView<VmView>> {
    seq![
        must(VmView::Say("Resizing disk to "@ + bytes_text((to_gib * GIB) as u64) + "..."@)),
        must(VmView::Resize(to_gib)),
        must(VmView::SaveRecord),
        must(
            VmView::Say(
                "VM '"@ + name + "' disk resized from "@ + bytes_text((from_gib * GIB) as u64)
                    + " to "@ + bytes_text((to_gib * GIB) as u64) + "."@,
            ),
        ),
    ]
}

/// The size that the disk of a machine is to have, or the refusal to resize it: the
/// machine has to stand still, and the size has to make sense, in this order.
pub open spec fn resizing(args: ResizeArgs, m: VmMetadata) -> Result<u32, RefusalView> {
    if m.status.spec_is_active() {
        Err(RefusalView::NotStopped(not_stopped(m, "resizing"@)))
    } else {
        match new_disk_size(args, m.disk_size_gib) {
            Ok(gib) => Ok(gib),
            Err(e) => Err(RefusalView::Words(e)),
        }
    }
}

/// How the disk of a machine is made larger, or the refusal to. `m` becomes the
/// record that is to be kept.
pub fn begin_resize(m: &mut VmMetadata, args: &ResizeArgs) -> (r: Result<
    Vec<Step<VmAction>>,
    Refusal,
>)
    ensures
        match (r, resizing(*args, *old(m))) {
            (Ok(steps), Ok(gib)) => {
                &&& plan(steps@) == resize_plan(args.name@, old(m).disk_size_gib, gib)
                &&& *final(m) == (VmMetadata { disk_size_gib: gib, ..*old(m) })
            },
            (Err(e), Err(why)) => e@ == why && *final(m) == *old(m),
            _ => false,
        },
{
    match require_stopped(m, "resizing") {
        Ok(()) => {},
        Err(e) => {
            return Err(Refusal::NotStopped(e));
        },
    }
    let from_gib: u32 = m.disk_size_gib;
    let gib: u32 = match check_resize(args, from_gib) {
        Ok(n) => n,
        Err(e) => {
            return Err(Refusal::Words(e));
        },
    };
    let size = gib_text(gib);
    let t = "Resizing disk to ".to_owned().concat(size.as_str()).concat("...");
    let steps = then_must(no_steps(), VmAction::Say(t));
    let steps = then_must(steps, VmAction::Resize(gib));
    let steps = then_must(steps, VmAction::SaveRecord);
    let steps = then_must(
        steps,
        VmAction::Say(resized_text(args.name.as_str(), from_gib, gib)),
    );
    assert(plan(steps@) =~= resize_plan(args.name@, from_gib, gib));
    m.disk_size_gib = gib;
    Ok(steps)
}

/// A disk that is resized grows.
pub proof fn law_resizing_grows(args: ResizeArgs, current_gib: u32)
    ensures
        new_disk_size(args, current_gib) matches Ok(gib) ==> gib > current_gib,
{
}

/// Whether the changes to a machine can be made, and why not.
pub open spec fn update_verdict(args: UpdateConfigArgs) -> Result<(), Seq<char>> {
    let memory = match args.memory {
        Some(m) => whole_units(m.bytes(), crate::size::MIB, "MiB"@),
        None => Ok(0),
    };
    if args.cpus is None && args.memory is None && args.kernel is None && args.boot_args is None
        && args.ssh_user is None && args.ssh_key is None {
        Err("no configuration changes specified"@)
    } else if args.cpus == Some(0u32) {
        Err("cpus must be at least 1"@)
    } else if memory is Err {
        Err("invalid memory size: "@ + memory->Err_0)
    } else {
        Ok(())
    }
}

/// Whether the changes to a machine can be made, and why not.
pub fn check_update(args: &UpdateConfigArgs) -> (r: Result<(), String>)
    ensures
        answer(r) == update_verdict(*args),
{
    if args.cpus.is_none() && args.memory.is_none() && args.kernel.is_none()
        && args.boot_args.is_none() && args.ssh_user.is_none() && args.ssh_key.is_none() {
        return Err("no configuration changes specified".to_owned());
    }
    match args.cpus {
        Some(n) => {
            if n == 0 {
                return Err("cpus must be at least 1".to_owned());
            }
        },
        None => {},
    }
    match args.memory {
        Some(m) => {
            match m.to_mib() {
                Ok(_) => {},
                Err(e) => {
                    return Err("invalid memory size: ".to_owned().concat(e.as_str()));
                },
            }
        },
        None => {},
    }
    Ok(())
}

/// The refusal to change a machine: it has to stand still, and the changes have to
/// make sense, in this order.
pub open spec fn update_refusal(args: UpdateConfigArgs, m: VmMetadata) -> Option<RefusalView> {
    if m.status.spec_is_active() {
        Some(RefusalView::NotStopped(not_stopped(m, "updating configuration"@)))
    } else {
        match update_verdict(args) {
            Ok(_) => None,
            Err(e) => Some(RefusalView::Words(e)),
        }
    }
}

/// Whether a machine can be changed, and why not: see [`update_config`].
pub fn begin_update(m: &VmMetadata, args: &UpdateConfigArgs) -> (r: Result<(), Refusal>)
    ensures
        match r {
            Ok(_) => update_refusal(*args, *m) is None,
            Err(e) => update_refusal(*args, *m) == Some(e@),
        },
{
    match require_stopped(m, "updating configuration") {
        Ok(()) => {},
        Err(e) => {
            return Err(Refusal::NotStopped(e));
        },
    }
    match check_update(args) {
        Ok(()) => Ok(()),
        Err(e) => Err(Refusal::Words(e)),
    }
}

/// A machine, once the changes are made.
pub open spec fn updated(
    m: VmMetadata,
    args: UpdateConfigArgs,
    kernel_path: Option<Seq<char>>,
    home: Option<Seq<char>>,
    after: VmMetadata,
) -> bool {
    &&& after.cpus == (match args.cpus {
        Some(n) => n,
        None => m.cpus,
    })
    &&& after.memory_mib == (match args.memory {
        Some(s) => whole_units(s.bytes(), crate::size::MIB, "MiB"@)->Ok_0,
        None => m.memory_mib,
    })
    &&& after.kernel_path@ == (match kernel_path {
        Some(k) => k,
        None => m.kernel_path@,
    })
    &&& opt_text(after.boot_args) == (match args.boot_args {
        Some(b) => if b@.len() == 0 {
            None
        } else {
            Some(b@)
        },
        None => opt_text(m.boot_args),
    })
    &&& after.ssh.user@ == (match args.ssh_user {
        Some(u) => u@,
        None => m.ssh.user@,
    })
    &&& after.ssh.key@ == (match args.ssh_key {
        Some(k) => written_out(k@, home),
        None => m.ssh.key@,
    })
    &&& after == (VmMetadata {
        cpus: after.cpus,
        memory_mib: after.memory_mib,
        kernel_path: after.kernel_path,
        boot_args: after.boot_args,
        ssh: after.ssh,
        ..m
    })
}

/// A line, when there is something to say.
pub open spec fn line_if(wanted: bool, line: Seq<char>) -> Seq<Seq<char>> {
    if wanted {
        seq![line]
    } else {
        seq![]
    }
}

/// What the user is told of the changes.
pub open spec fn change_lines(
    args: UpdateConfigArgs,
    kernel_path: Option<Seq<char>>,
    home: Option<Seq<char>>,
) -> Seq<Seq<char>> {
    seq!["Updated VM '"@ + args.name@ + "':"@] + line_if(args.cpus is Some, "  cpus: "@ + dec(args.cpus->0 as nat)) + line_if(
        args.memory is Some,
        "  memory: "@ + bytes_text(
            (whole_units(args.memory->0.bytes(), crate::size::MIB, "MiB"@)->Ok_0 * MIB) as u64,
        ),
    ) + line_if(kernel_path is Some, "  kernel: "@ + kernel_path->0) + line_if(
        args.boot_args is Some,
        if args.boot_args->0@.len() == 0 {
            "  boot-args: cleared"@
        } else {
            "  boot-args: "@ + args.boot_args->0@
        },
    ) + line_if(args.ssh_user is Some, "  ssh-user: "@ + args.ssh_user->0@) + line_if(
        args.ssh_key is Some,
        "  ssh-key: "@ + written_out(args.ssh_key->0@, home),
    )
}

fn with_line(lines: Vec<String>, wanted: bool, line: &str) -> (r: Vec<String>)
    ensures
        texts(r@) == texts(lines@) + line_if(wanted, line@),
{
    let ghost before = texts(lines@);
    if wanted {
        let r = with(lines, line);
        assert(texts(r@) =~= before + line_if(wanted, line@));
        r
    } else {
        assert(before =~= before + line_if(wanted, line@));
        lines
    }
}

/// Makes the changes to a machine that [`begin_update`] allows, and says what the user
/// is told once its record is kept. `kernel_path` is where the kernel lies that was
/// asked for, and `home` is the home directory of the user, which a key may be said to
/// lie below.
pub fn update_config(
    m: &mut VmMetadata,
    args: &UpdateConfigArgs,
    kernel_path: Option<&str>,
    home: Option<&str>,
) -> (r: Vec<String>)
    requires
        update_refusal(*args, *old(m)) is None,
        kernel_path is Some <==> args.kernel is Some,
    ensures
        updated(*old(m), *args, opt_str(kernel_path), opt_str(home), *final(m)),
        texts(r@) == change_lines(*args, opt_str(kernel_path), opt_str(home)),
{
    let heading = "Updated VM '".to_owned().concat(args.name.as_str()).concat("':");
    let mut lines = with(nothing(), heading.as_str());
    let ghost h = seq!["Updated VM '"@ + args.name@ + "':"@];
    assert(texts(lines@) =~= h);
    let ghost kernel = match kernel_path {
        Some(k) => Some(k@),
        None => None,
    };
    let ghost c = line_if(args.cpus is Some, "  cpus: "@ + dec(args.cpus->0 as nat));
    match args.cpus {
        Some(n) => {
            m.cpus = n;
            let t = decimal(n as u64);
            let line = "  cpus: ".to_owned().concat(t.as_str());
            lines = with_line(lines, true, line.as_str());
        },
        None => {},
    }
    assert(texts(lines@) =~= h + c);
    let ghost me = line_if(
        args.memory is Some,
        "  memory: "@ + bytes_text(
            (whole_units(args.memory->0.bytes(), crate::size::MIB, "MiB"@)->Ok_0 * MIB) as u64,
        ),
    );
    match args.memory {
        Some(s) => {
            match s.to_mib() {
                Ok(mib) => {
                    m.memory_mib = mib;
                    let t = mib_text(mib);
                    let line = "  memory: ".to_owned().concat(t.as_str());
                    lines = with_line(lines, true, line.as_str());
                },
                Err(_) => {},
            }
        },
        None => {},
    }
    assert(texts(lines@) =~= h + c + me);
    match kernel_path {
        Some(k) => {
            m.kernel_path = k.to_owned();
            let line = "  kernel: ".to_owned().concat(k);
            lines = with_line(lines, true, line.as_str());
        },
        None => {},
    }
    let ghost ke = line_if(kernel is Some, "  kernel: "@ + kernel->0);
    assert(texts(lines@) =~= h + c + me + ke);
    match &args.boot_args {
        Some(b) => {
            if b.as_str().is_empty() {
                m.boot_args = None;
                lines = with_line(lines, true, "  boot-args: cleared");
            } else {
                m.boot_args = Some(b.clone());
                let line = "  boot-args: ".to_owned().concat(b.as_str());
                lines = with_line(lines, true, line.as_str());
            }
        },
        None => {},
    }
    let ghost bo = line_if(
        args.boot_args is Some,
        if args.boot_args->0@.len() == 0 {
            "  boot-args: cleared"@
        } else {
            "  boot-args: "@ + args.boot_args->0@
        },
    );
    assert(texts(lines@) =~= h + c + me + ke + bo);
    match &args.ssh_user {
        Some(u) => {
            m.ssh.user = u.clone();
            let line = "  ssh-user: ".to_owned().concat(u.as_str());
            lines = with_line(lines, true, line.as_str());
        },
        None => {},
    }
    let ghost us = line_if(args.ssh_user is Some, "  ssh-user: "@ + args.ssh_user->0@);
    assert(texts(lines@) =~= h + c + me + ke + bo + us);
    match &args.ssh_key {
        Some(k) => {
            let place = expand_tilde(k.as_str(), home);
            let line = "  ssh-key: ".to_owned().concat(place.as_str());
            m.ssh.key = place;
            lines = with_line(lines, true, line.as_str());
        },
        None => {},
    }
    assert(texts(lines@) =~= change_lines(*args, kernel, opt_str(home)));
    lines
}

/// A machine that runs or is paused is not started, renamed, copied, resized, changed
/// or put back to a snapshot.
pub proof fn law_what_runs_is_left_alone(
    m: VmMetadata,
    name: Seq<char>,
    vms: Seq<VmMetadata>,
    host_mib: Result<u32, String>,
    renaming: RenameArgs,
    taken: bool,
    cp: CpArgs,
    resize: ResizeArgs,
    update: UpdateConfigArgs,
    restore: RestoreArgs,
    there: Result<Vec<SnapshotInfo>, String>,
)
    requires
        m.status.spec_is_active(),
    ensures
        starting(name, m, vms, host_mib) is Err,
        rename_refusal(renaming, m, taken) is Some,
        copying(cp, m, taken) is Err,
        resizing(resize, m) is Err,
        update_refusal(update, m) is Some,
        restoring(restore, m, there) is Err,
{
}

// ---------------------------------------------------------------------
// Deleting
// ---------------------------------------------------------------------

/// Whether a machine can be deleted, and why not: one that runs only by force.
pub fn rm(args: &RmArgs, status: VmStatus) -> (r: Result<(), String>)
    ensures
        answer(r) == (if status.spec_is_active() && !args.force {
            Err::<(), Seq<char>>(
                "vm '"@ + args.name@ + "' is "@ + status.text()
                    + " — stop it first or use --force"@,
            )
        } else {
            Ok(())
        }),
{
    if status.is_active() && !args.force {
        let s = status.to_string();
        return Err(
            "vm '".to_owned().concat(args.name.as_str()).concat("' is ").concat(
                s.as_str(),
            ).concat(" — stop it first or use --force"),
        );
    }
    Ok(())
}

/// Texts with a separator between them.
pub open spec fn joined_texts(list: Seq<Seq<char>>, sep: Seq<char>) -> Seq<char>
    decreases list.len(),
{
    if list.len() == 0 {
        seq![]
    } else if list.len() == 1 {
        list[0]
    } else {
        joined_texts(list.drop_last(), sep) + sep + list.last()
    }
}

/// Texts with a separator between them.
pub fn join_texts(list: &Vec<String>, sep: &str) -> (r: String)
    ensures
        r@ == joined_texts(texts(list@), sep@),
{
    proof {
        reveal_strlit("");
    }
    let ghost all = texts(list@);
    let mut r = "".to_owned();
    let mut i: usize = 0;
    assert(r@ =~= joined_texts(all.take(0), sep@));
    while i < list.len()
        invariant
            i <= list.len(),
            all == texts(list@),
            r@ == joined_texts(all.take(i as int), sep@),
        decreases list.len() - i,
    {
        assert(all[i as int] == list@[i as int]@);
        assert(all.take(i + 1).drop_last() =~= all.take(i as int));
        assert(all.take(i + 1).last() == all[i as int]);
        if i > 0 {
            r = r.concat(sep).concat(list[i].as_str());
        } else {
            assert(all.take(1)[0] == all[0]);
            r = list[i].clone();
        }
        i = i + 1;
    }
    assert(all.take(i as int) =~= all);
    r
}

/// Whether the machines that depend on one allow it to be deleted, and why not:
/// they go with it only by force.
pub fn check_dependents(args: &RmArgs, dependents: &Vec<String>) -> (r: Result<(), String>)
    ensures
        answer(r) == (if dependents@.len() > 0 && !args.force {
            Err::<(), Seq<char>>(
                "vm '"@ + args.name@ + "' has dependent forks: "@ + joined_texts(
                    texts(dependents@),
                    ", "@,
                )
                    + "\nDelete them first, or use --force to cascade-delete all dependents."@,
            )
        } else {
            Ok(())
        }),
{
    if dependents.len() > 0 && !args.force {
        let names = join_texts(dependents, ", ");
        return Err(
            "vm '".to_owned().concat(args.name.as_str()).concat("' has dependent forks: ").concat(
                names.as_str(),
            ).concat("\nDelete them first, or use --force to cascade-delete all dependents."),
        );
    }
    Ok(())
}

/// The numbers of the machines that were copied from one, directly or through
/// others, down to a depth: of its copies among the first `n`, each behind those
/// that were copied from it.
pub open spec fn offspring(vms: Seq<VmMetadata>, name: Seq<char>, depth: nat, n: int) -> Seq<int>
    decreases depth, n,
{
    if depth == 0 || n <= 0 {
        seq![]
    } else {
        let earlier = offspring(vms, name, depth, n - 1);
        if opt_text(vms[n - 1].parent_vm) == Some(name) {
            earlier + offspring(
                vms,
                vms[n - 1].name@,
                (depth - 1) as nat,
                vms.len() as int,
            ).push(n - 1)
        } else {
            earlier
        }
    }
}

/// Something that happens when a machine is deleted together with all that were
/// copied from it. Machines go by their numbers.
#[derive(Debug, Clone, Copy, PartialEq, Eq)]
pub enum Deletion {
    /// The user is told that the turn of a machine has come whose disk depends on
    /// that of the first.
    Cascade(usize),
    /// The user is told that the turn of a copy has come.
    Announce(usize),
    /// A machine is deleted.
    Delete(usize),
}

/// A [`Deletion`].
pub enum DeletionView {
    Cascade(int),
    Announce(int),
    Delete(int),
}

impl View for Deletion {
    type V = DeletionView;

    open spec fn view(&self) -> DeletionView {
        match self {
            Deletion::Cascade(i) => DeletionView::Cascade(*i as int),
            Deletion::Announce(i) => DeletionView::Announce(*i as int),
            Deletion::Delete(i) => DeletionView::Delete(*i as int),
        }
    }
}

/// What happens before a machine is deleted itself: each of its copies among the
/// first `n` is announced; then the same happens for that copy, down to a depth,
/// and then it is deleted.
pub open spec fn cascade(vms: Seq<VmMetadata>, name: Seq<char>, depth: nat, n: int) -> Seq<
    DeletionView,
>
    decreases depth, n,
{
    if depth == 0 || n <= 0 {
        seq![]
    } else {
        let earlier = cascade(vms, name, depth, n - 1);
        if opt_text(vms[n - 1].parent_vm) == Some(name) {
            earlier.push(DeletionView::Announce(n - 1)) + cascade(
                vms,
                vms[n - 1].name@,
                (depth - 1) as nat,
                vms.len() as int,
            ).push(DeletionView::Delete(n - 1))
        } else {
            earlier
        }
    }
}

fn collect(vms: &Vec<VmMetadata>, name: &str, depth: usize, found: Vec<Deletion>) -> (r: Vec<
    Deletion,
>)
    ensures
        views(r@) == views(found@) + cascade(vms@, name@, depth as nat, vms@.len() as int),
    decreases depth,
{
    let ghost before = views(found@);
    let mut r = found;
    if depth == 0 {
        assert(views(r@) =~= before + cascade(vms@, name@, 0, vms@.len() as int));
        return r;
    }
    let mut i: usize = 0;
    assert(views(r@) =~= before + cascade(vms@, name@, depth as nat, 0));
    while i < vms.len()
        invariant
            i <= vms.len(),
            depth > 0,
            views(r@) == before + cascade(vms@, name@, depth as nat, i as int),
        decreases vms.len() - i,
    {
        let is_child = match &vms[i].parent_vm {
            Some(p) => same(p.as_str(), name),
            None => false,
        };
        if is_child {
            let ghost so_far = cascade(vms@, name@, depth as nat, i as int);
            let ghost below = cascade(
                vms@,
                vms@[i as int].name@,
                (depth - 1) as nat,
                vms@.len() as int,
            );
            r = and(r, Deletion::Announce(i));
            r = collect(vms, vms[i].name.as_str(), depth - 1, r);
            r = and(r, Deletion::Delete(i));
            assert(views(r@) =~= before + (so_far.push(DeletionView::Announce(i as int))
                + below.push(DeletionView::Delete(i as int))));
        }
        i = i + 1;
    }
    r
}

/// What happens before a machine is deleted itself, in this order: each machine
/// is deleted after those that were copied from it.
pub fn deletions(vms: &Vec<VmMetadata>, name: &str) -> (r: Vec<Deletion>)
    ensures
        views(r@) == cascade(vms@, name@, vms@.len(), vms@.len() as int),
{
    let r = collect(vms, name, vms.len(), no_actions());
    assert(views(r@) =~= cascade(vms@, name@, vms@.len(), vms@.len() as int));
    r
}

/// What the user is told when the turn of a copy has come.
pub fn forked_text(name: &str) -> (r: String)
    ensures
        r@ == "Deleting forked VM '"@ + name@ + "'..."@,
{
    "Deleting forked VM '".to_owned().concat(name).concat("'...")
}

/// What the user is told when the turn of a machine has come that depends on one
/// that is deleted by force.
pub fn cascade_text(name: &str) -> (r: String)
    ensures
        r@ == "Cascade-deleting dependent VM '"@ + name@ + "'..."@,
{
    "Cascade-deleting dependent VM '".to_owned().concat(name).concat("'...")
}

/// The machines that are deleted, in this order.
pub open spec fn deleted_in(events: Seq<DeletionView>) -> Seq<int>
    decreases events.len(),
{
    if events.len() == 0 {
        seq![]
    } else {
        match events.last() {
            DeletionView::Delete(i) => deleted_in(events.drop_last()).push(i),
            _ => deleted_in(events.drop_last()),
        }
    }
}

proof fn lemma_deleted_in_both(a: Seq<DeletionView>, b: Seq<DeletionView>)
    ensures
        deleted_in(a + b) == deleted_in(a) + deleted_in(b),
    decreases b.len(),
{
    if b.len() == 0 {
        assert(a + b =~= a);
        assert(deleted_in(a) + deleted_in(b) =~= deleted_in(a));
    } else {
        assert((a + b).drop_last() =~= a + b.drop_last());
        lemma_deleted_in_both(a, b.drop_last());
        assert(deleted_in(a + b) =~= deleted_in(a) + deleted_in(b));
    }
}

proof fn lemma_cascade(vms: Seq<VmMetadata>, name: Seq<char>, depth: nat, n: int)
    ensures
        deleted_in(cascade(vms, name, depth, n)) == offspring(vms, name, depth, n),
    decreases depth, n,
{
    if depth > 0 && n > 0 {
        lemma_cascade(vms, name, depth, n - 1);
        let earlier = cascade(vms, name, depth, n - 1);
        if opt_text(vms[n - 1].parent_vm) == Some(name) {
            let c = vms[n - 1].name@;
            let below = cascade(vms, c, (depth - 1) as nat, vms.len() as int);
            lemma_cascade(vms, c, (depth - 1) as nat, vms.len() as int);
            let first = earlier.push(DeletionView::Announce(n - 1));
            let second = below.push(DeletionView::Delete(n - 1));
            lemma_deleted_in_both(first, second);
            assert(first.drop_last() =~= earlier);
            assert(second.drop_last() =~= below);
        }
    }
}

/// A machine goes together with exactly those that were copied from it, directly
/// or through others.
pub proof fn law_copies_go_with_their_origin(vms: Seq<VmMetadata>, name: Seq<char>, i: int)
    ensures
        deleted_in(cascade(vms, name, vms.len(), vms.len() as int)).contains(i) <==> descends(
            vms,
            i,
            name,
            vms.len(),
        ),
{
    lemma_cascade(vms, name, vms.len(), vms.len() as int);
    law_offspring_are_the_descendants(vms, name, vms.len(), i);
}

/// Whether the machine number `i` was copied from one of this name, directly or
/// through others, down to a depth.
pub open spec fn descends(vms: Seq<VmMetadata>, i: int, name: Seq<char>, depth: nat) -> bool
    decreases depth,
{
    depth > 0 && 0 <= i < vms.len() && (opt_text(vms[i].parent_vm) == Some(name) || exists|k: int|
        0 <= k < vms.len() && opt_text((#[trigger] vms[k]).parent_vm) == Some(name) && descends(
            vms,
            i,
            vms[k].name@,
            (depth - 1) as nat,
        ))
}

/// Whether the machine number `i` descends from one of the first `n` copies.
spec fn descends_among(vms: Seq<VmMetadata>, i: int, name: Seq<char>, depth: nat, n: int) -> bool {
    exists|k: int|
        0 <= k < n && k < vms.len() && opt_text((#[trigger] vms[k]).parent_vm) == Some(name) && (i
            == k || descends(vms, i, vms[k].name@, (depth - 1) as nat))
}

proof fn lemma_offspring(vms: Seq<VmMetadata>, name: Seq<char>, depth: nat, n: int, i: int)
    requires
        0 <= n <= vms.len(),
    ensures
        offspring(vms, name, depth, n).contains(i) <==> depth > 0 && descends_among(
            vms,
            i,
            name,
            depth,
            n,
        ),
    decreases depth, n,
{
    if depth > 0 && n > 0 {
        let earlier = offspring(vms, name, depth, n - 1);
        lemma_offspring(vms, name, depth, n - 1, i);
        let c = vms[n - 1];
        let all = offspring(vms, name, depth, n);
        if opt_text(c.parent_vm) == Some(name) {
            let below = offspring(vms, c.name@, (depth - 1) as nat, vms.len() as int);
            law_offspring_are_the_descendants(vms, c.name@, (depth - 1) as nat, i);
            let rest = below.push(n - 1);
            assert(all == earlier + rest);
            if all.contains(i) {
                let k = choose|k: int| 0 <= k < all.len() && all[k] == i;
                if k < earlier.len() {
                    assert(earlier[k] == i);
                    assert(earlier.contains(i));
                    let w = choose|w: int|
                        0 <= w < n - 1 && w < vms.len() && opt_text((#[trigger] vms[w]).parent_vm)
                            == Some(name) && (i == w || descends(
                            vms,
                            i,
                            vms[w].name@,
                            (depth - 1) as nat,
                        ));
                    assert(descends_among(vms, i, name, depth, n)) by {
                        assert(opt_text(vms[w].parent_vm) == Some(name));
                    }
                } else {
                    assert(rest[k - earlier.len()] == i);
                    if k - earlier.len() < below.len() {
                        assert(below[k - earlier.len()] == i);
                        assert(below.contains(i));
                    }
                    assert(descends_among(vms, i, name, depth, n)) by {
                        assert(opt_text(vms[n - 1].parent_vm) == Some(name));
                    }
                }
            }
            if descends_among(vms, i, name, depth, n) {
                let w = choose|w: int|
                    0 <= w < n && w < vms.len() && opt_text((#[trigger] vms[w]).parent_vm) == Some(
                        name,
                    ) && (i == w || descends(vms, i, vms[w].name@, (depth - 1) as nat));
                if w < n - 1 {
                    assert(descends_among(vms, i, name, depth, n - 1)) by {
                        assert(opt_text(vms[w].parent_vm) == Some(name));
                    }
                    let k = choose|k: int| 0 <= k < earlier.len() && earlier[k] == i;
                    assert(all[k] == i);
                } else if i == w {
                    assert(all[all.len() - 1] == i);
                } else {
                    let k = choose|k: int| 0 <= k < below.len() && below[k] == i;
                    assert(all[earlier.len() + k] == i);
                }
                assert(all.contains(i));
            }
        } else {
            if descends_among(vms, i, name, depth, n) {
                let w = choose|w: int|
                    0 <= w < n && w < vms.len() && opt_text((#[trigger] vms[w]).parent_vm) == Some(
                        name,
                    ) && (i == w || descends(vms, i, vms[w].name@, (depth - 1) as nat));
                assert(w < n - 1);
                assert(descends_among(vms, i, name, depth, n - 1)) by {
                    assert(opt_text(vms[w].parent_vm) == Some(name));
                }
            }
            if descends_among(vms, i, name, depth, n - 1) {
                let w = choose|w: int|
                    0 <= w < n - 1 && w < vms.len() && opt_text((#[trigger] vms[w]).parent_vm)
                        == Some(name) && (i == w || descends(
                        vms,
                        i,
                        vms[w].name@,
                        (depth - 1) as nat,
                    ));
                assert(descends_among(vms, i, name, depth, n)) by {
                    assert(opt_text(vms[w].parent_vm) == Some(name));
                }
            }
        }
    }
}

/// The machines that go with one are exactly those that were copied from it,
/// directly or through others.
pub proof fn law_offspring_are_the_descendants(
    vms: Seq<VmMetadata>,
    name: Seq<char>,
    depth: nat,
    i: int,
)
    ensures
        offspring(vms, name, depth, vms.len() as int).contains(i) <==> descends(
            vms,
            i,
            name,
            depth,
        ),
    decreases depth, vms.len() + 1,
{
    lemma_offspring(vms, name, depth, vms.len() as int, i);
    if depth > 0 && descends_among(vms, i, name, depth, vms.len() as int) {
        let w = choose|w: int|
            0 <= w < vms.len() && opt_text((#[trigger] vms[w]).parent_vm) == Some(name) && (i == w
                || descends(vms, i, vms[w].name@, (depth - 1) as nat));
        assert(opt_text(vms[w].parent_vm) == Some(name));
        if i != w {
            assert(0 <= i < vms.len());
        }
        assert(descends(vms, i, name, depth));
    }
    if descends(vms, i, name, depth) {
        if opt_text(vms[i].parent_vm) == Some(name) {
            assert(descends_among(vms, i, name, depth, vms.len() as int));
        } else {
            let k = choose|k: int|
                0 <= k < vms.len() && opt_text((#[trigger] vms[k]).parent_vm) == Some(name)
                    && descends(vms, i, vms[k].name@, (depth - 1) as nat);
            assert(opt_text(vms[k].parent_vm) == Some(name));
            assert(descends_among(vms, i, name, depth, vms.len() as int));
        }
    }
}

/// Whether `part` stands in `list` right before the place `p`.
pub open spec fn right_before(list: Seq<int>, p: int, part: Seq<int>) -> bool {
    part.len() <= p <= list.len() && list.subrange(p - part.len(), p) == part
}

/// The offspring of the machine number `i`, down to a depth.
pub open spec fn offspring_of(vms: Seq<VmMetadata>, i: int, depth: nat) -> Seq<int> {
    offspring(vms, vms[i].name@, depth, vms.len() as int)
}

/// Whether no machine was copied from one that descends from it: a machine is
/// higher than all that were copied from it.
pub open spec fn is_height(vms: Seq<VmMetadata>, height: spec_fn(int) -> nat) -> bool {
    &&& forall|i: int| 0 <= i < vms.len() ==> #[trigger] height(i) < vms.len()
    &&& forall|i: int, k: int|
        0 <= i < vms.len() && 0 <= k < vms.len() && opt_text(vms[k].parent_vm) == Some(
            vms[i].name@,
        ) ==> #[trigger] height(k) < #[trigger] height(i)
}

proof fn lemma_copies_go_first(
    vms: Seq<VmMetadata>,
    height: spec_fn(int) -> nat,
    name: Seq<char>,
    depth: nat,
    n: int,
    p: int,
) -> (d: nat)
    requires
        is_height(vms, height),
        0 <= n <= vms.len(),
        0 <= p < offspring(vms, name, depth, n).len(),
        forall|k: int|
            0 <= k < vms.len() && opt_text(vms[k].parent_vm) == Some(name) ==> #[trigger] height(k)
                < depth,
    ensures
        ({
            let all = offspring(vms, name, depth, n);
            &&& 0 <= all[p] < vms.len()
            &&& height(all[p]) <= d
            &&& right_before(all, p, offspring_of(vms, all[p], d))
        }),
    decreases depth, n,
{
    let all = offspring(vms, name, depth, n);
    let earlier = offspring(vms, name, depth, n - 1);
    if opt_text(vms[n - 1].parent_vm) == Some(name) {
        let below = offspring_of(vms, n - 1, (depth - 1) as nat);
        assert(all == earlier + below.push(n - 1));
        assert(height(n - 1) < depth);
        if p < earlier.len() {
            let d = lemma_copies_go_first(vms, height, name, depth, n - 1, p);
            let part = offspring_of(vms, all[p], d);
            assert(all.subrange(p - part.len(), p) =~= earlier.subrange(p - part.len(), p));
            d
        } else if p < earlier.len() + below.len() {
            let q = p - earlier.len();
            let d = lemma_copies_go_first(
                vms,
                height,
                vms[n - 1].name@,
                (depth - 1) as nat,
                vms.len() as int,
                q,
            );
            assert(all[p] == below[q]);
            let part = offspring_of(vms, all[p], d);
            assert(all.subrange(p - part.len(), p) =~= below.subrange(q - part.len(), q));
            d
        } else {
            assert(all.subrange(p - below.len(), p) =~= below);
            (depth - 1) as nat
        }
    } else {
        lemma_copies_go_first(vms, height, name, depth, n - 1, p)
    }
}

/// Where no machine was copied from one that descends from it, a machine goes
/// after all that were copied from it.
pub proof fn law_copies_go_first(
    vms: Seq<VmMetadata>,
    height: spec_fn(int) -> nat,
    name: Seq<char>,
    p: int,
    k: int,
)
    requires
        is_height(vms, height),
        0 <= p < deleted_in(cascade(vms, name, vms.len(), vms.len() as int)).len(),
        0 <= k < vms.len(),
        opt_text(vms[k].parent_vm) == Some(
            vms[deleted_in(cascade(vms, name, vms.len(), vms.len() as int))[p]].name@,
        ),
    ensures
        deleted_in(cascade(vms, name, vms.len(), vms.len() as int)).take(p).contains(k),
{
    lemma_cascade(vms, name, vms.len(), vms.len() as int);
    let all = deleted_in(cascade(vms, name, vms.len(), vms.len() as int));
    let d = lemma_copies_go_first(vms, height, name, vms.len(), vms.len() as int, p);
    let i = all[p];
    let part = offspring_of(vms, i, d);
    assert(height(k) < height(i));
    law_offspring_are_the_descendants(vms, vms[i].name@, d, k);
    assert(part.contains(k));
    let t = choose|t: int| 0 <= t < part.len() && part[t] == k;
    assert(all.subrange(p - part.len(), p)[t] == k);
    assert(all.take(p)[p - part.len() + t] == k);
}

/// The machine that something happens to.
pub open spec fn machine_of(e: DeletionView) -> int {
    match e {
        DeletionView::Cascade(i) => i,
        DeletionView::Announce(i) => i,
        DeletionView::Delete(i) => i,
    }
}

/// What is left to happen once `before` has: nothing happens to a machine that is
/// gone.
pub open spec fn still_to_come(events: Seq<DeletionView>, before: Seq<DeletionView>) -> Seq<
    DeletionView,
>
    decreases events.len(),
{
    if events.len() == 0 {
        seq![]
    } else if before.contains(DeletionView::Delete(machine_of(events.last()))) {
        still_to_come(events.drop_last(), before)
    } else {
        still_to_come(events.drop_last(), before).push(events.last())
    }
}

/// The number of the first machine of a name among the first `n`.
pub open spec fn number_of(vms: Seq<VmMetadata>, name: Seq<char>, n: int) -> Option<int>
    decreases n,
{
    if n <= 0 {
        None
    } else {
        match number_of(vms, name, n - 1) {
            Some(i) => Some(i),
            None => if vms[n - 1].name@ == name {
                Some(n - 1)
            } else {
                None
            },
        }
    }
}

/// What happens once `before` has, until the machine number `i` is deleted: first
/// its copies go that are still there.
pub open spec fn with_copies(vms: Seq<VmMetadata>, i: int, before: Seq<DeletionView>) -> Seq<
    DeletionView,
> {
    before + still_to_come(
        cascade(vms, vms[i].name@, vms.len(), vms.len() as int),
        before,
    ).push(DeletionView::Delete(i))
}

/// What happens to the first `n` of the machines whose disks depend on that of one
/// that is deleted by force: each that is still there is announced, and deleted
/// after its copies.
pub open spec fn dependents_go(vms: Seq<VmMetadata>, dependents: Seq<Seq<char>>, n: int) -> Seq<
    DeletionView,
>
    decreases n,
{
    if n <= 0 {
        seq![]
    } else {
        let before = dependents_go(vms, dependents, n - 1);
        match number_of(vms, dependents[n - 1], vms.len() as int) {
            Some(i) => if before.contains(DeletionView::Delete(i)) {
                before
            } else {
                with_copies(vms, i, before.push(DeletionView::Cascade(i)))
            },
            None => before,
        }
    }
}

/// The refusal to delete a machine without force: one that runs, one whose disk
/// cannot be looked at, and one that others depend on, in this order.
pub open spec fn rm_refusal(args: RmArgs, m: VmMetadata, dependents: Result<Vec<String>, String>) -> Option<
    Seq<char>,
> {
    if m.status.spec_is_active() && !args.force {
        Some(
            "vm '"@ + args.name@ + "' is "@ + m.status.text()
                + " — stop it first or use --force"@,
        )
    } else {
        match dependents {
            Err(e) => Some(e@),
            Ok(list) => if list@.len() > 0 && !args.force {
                Some(
                    "vm '"@ + args.name@ + "' has dependent forks: "@ + joined_texts(
                        texts(list@),
                        ", "@,
                    )
                        + "\nDelete them first, or use --force to cascade-delete all dependents."@,
                )
            } else {
                None
            },
        }
    }
}

/// What happens when the machine number `i` is deleted: the machines that depend on
/// it go first, then its copies, then itself.
pub open spec fn rm_events(vms: Seq<VmMetadata>, i: int, dependents: Seq<Seq<char>>) -> Seq<
    DeletionView,
> {
    with_copies(vms, i, dependents_go(vms, dependents, dependents.len() as int))
}

fn is_gone(before: &Vec<Deletion>, i: usize) -> (r: bool)
    ensures
        r == views(before@).contains(DeletionView::Delete(i as int)),
{
    let mut k: usize = 0;
    while k < before.len()
        invariant
            k <= before.len(),
            forall|j: int| 0 <= j < k ==> #[trigger] views(before@)[j] != DeletionView::Delete(
                i as int,
            ),
        decreases before.len() - k,
    {
        assert(views(before@)[k as int] == before@[k as int]@);
        match before[k] {
            Deletion::Delete(n) => {
                if n == i {
                    return true;
                }
            },
            _ => {},
        }
        k = k + 1;
    }
    assert forall|j: int| 0 <= j < views(before@).len() implies #[trigger] views(before@)[j]
        != DeletionView::Delete(i as int) by {
        assert(j < before@.len());
    }
    false
}

fn find_machine(vms: &Vec<VmMetadata>, name: &str) -> (r: Option<usize>)
    ensures
        match r {
            Some(i) => i < vms@.len() && number_of(vms@, name@, vms@.len() as int) == Some(
                i as int,
            ),
            None => number_of(vms@, name@, vms@.len() as int) is None,
        },
{
    let mut found: Option<usize> = None;
    let mut i: usize = 0;
    while i < vms.len()
        invariant
            i <= vms.len(),
            match found {
                Some(k) => k < vms@.len() && number_of(vms@, name@, i as int) == Some(k as int),
                None => number_of(vms@, name@, i as int) is None,
            },
        decreases vms.len() - i,
    {
        if found.is_none() && same(vms[i].name.as_str(), name) {
            found = Some(i);
        }
        i = i + 1;
    }
    found
}

fn then_copies(vms: &Vec<VmMetadata>, i: usize, before: Vec<Deletion>) -> (r: Vec<Deletion>)
    requires
        i < vms@.len(),
    ensures
        views(r@) == with_copies(vms@, i as int, views(before@)),
{
    let ghost b = views(before@);
    let events = deletions(vms, vms[i].name.as_str());
    let ghost all = views(events@);
    let mut rest: Vec<Deletion> = no_actions();
    let mut k: usize = 0;
    assert(views(rest@) =~= still_to_come(all.take(0), b));
    while k < events.len()
        invariant
            k <= events.len(),
            all == views(events@),
            b == views(before@),
            views(rest@) == still_to_come(all.take(k as int), b),
        decreases events.len() - k,
    {
        let e = events[k];
        let n: usize = match e {
            Deletion::Cascade(n) => n,
            Deletion::Announce(n) => n,
            Deletion::Delete(n) => n,
        };
        assert(all[k as int] == e@);
        assert(machine_of(e@) == n as int);
        assert(all.take(k + 1).drop_last() =~= all.take(k as int));
        assert(all.take(k + 1).last() == e@);
        if !is_gone(&before, n) {
            rest = and(rest, e);
        }
        k = k + 1;
    }
    assert(all.take(k as int) =~= all);
    let mut r = before;
    let mut k: usize = 0;
    let ghost tail = views(rest@);
    assert(views(r@) =~= b + tail.take(0));
    while k < rest.len()
        invariant
            k <= rest.len(),
            tail == views(rest@),
            views(r@) == b + tail.take(k as int),
        decreases rest.len() - k,
    {
        assert(tail[k as int] == rest@[k as int]@);
        r = and(r, rest[k]);
        assert(views(r@) =~= b + tail.take(k + 1));
        k = k + 1;
    }
    assert(tail.take(k as int) =~= tail);
    r = and(r, Deletion::Delete(i));
    assert(views(r@) =~= b + tail.push(DeletionView::Delete(i as int)));
    r
}

/// What happens when a machine is deleted, or the refusal to delete it. `vms` are all
/// machines, and `i` is the number of the one to be deleted. `dependents` are those
/// whose disks depend on its disk, or why that is not known.
pub fn begin_rm(
    args: &RmArgs,
    vms: &Vec<VmMetadata>,
    i: usize,
    dependents: &Result<Vec<String>, String>,
) -> (r: Result<Vec<Deletion>, String>)
    requires
        i < vms@.len(),
    ensures
        match r {
            Ok(events) => {
                &&& rm_refusal(*args, vms@[i as int], *dependents) is None
                &&& views(events@) == rm_events(vms@, i as int, texts(dependents->Ok_0@))
            },
            Err(e) => rm_refusal(*args, vms@[i as int], *dependents) == Some(e@),
        },
{
    rm(args, vms[i].status)?;
    match dependents {
        Err(e) => Err(e.clone()),
        Ok(list) => {
            check_dependents(args, list)?;
            let ghost names = texts(list@);
            let mut events: Vec<Deletion> = no_actions();
            let mut k: usize = 0;
            assert(views(events@) =~= dependents_go(vms@, names, 0));
            while k < list.len()
                invariant
                    k <= list.len(),
                    names == texts(list@),
                    views(events@) == dependents_go(vms@, names, k as int),
                decreases list.len() - k,
            {
                assert(names[k as int] == list@[k as int]@);
                match find_machine(vms, list[k].as_str()) {
                    Some(n) => {
                        if !is_gone(&events, n) {
                            let ghost before = views(events@);
                            events = and(events, Deletion::Cascade(n));
                            assert(views(events@) =~= before.push(DeletionView::Cascade(n as int)));
                            events = then_copies(vms, n, events);
                        }
                    },
                    None => {},
                }
                k = k + 1;
            }
            Ok(then_copies(vms, i, events))
        },
    }
}

/// Of the machines whose disks depend on that of one that is deleted, all that are
/// there go before it; and it goes last.
pub proof fn law_dependents_go_first(
    vms: Seq<VmMetadata>,
    i: int,
    dependents: Seq<Seq<char>>,
    k: int,
)
    requires
        0 <= k < dependents.len(),
    ensures
        rm_events(vms, i, dependents).last() == DeletionView::Delete(i),
        match number_of(vms, dependents[k], vms.len() as int) {
            Some(j) => rm_events(vms, i, dependents).drop_last().contains(DeletionView::Delete(j)),
            None => true,
        },
{
    let n = dependents.len() as int;
    let before = dependents_go(vms, dependents, n);
    let all = rm_events(vms, i, dependents);
    match number_of(vms, dependents[k], vms.len() as int) {
        Some(j) => {
            lemma_dependent_goes(vms, dependents, k, j, n);
            let p = choose|p: int| 0 <= p < before.len() && before[p] == DeletionView::Delete(j);
            assert(all.drop_last()[p] == before[p]);
        },
        None => {},
    }
}

proof fn lemma_dependent_goes(
    vms: Seq<VmMetadata>,
    dependents: Seq<Seq<char>>,
    k: int,
    j: int,
    n: int,
)
    requires
        0 <= k < n <= dependents.len(),
        number_of(vms, dependents[k], vms.len() as int) == Some(j),
    ensures
        dependents_go(vms, dependents, n).contains(DeletionView::Delete(j)),
    decreases n,
{
    let d = DeletionView::Delete(j);
    let before = dependents_go(vms, dependents, n - 1);
    let after = dependents_go(vms, dependents, n);
    if k < n - 1 {
        lemma_dependent_goes(vms, dependents, k, j, n - 1);
        let p = choose|p: int| 0 <= p < before.len() && before[p] == d;
        assert(after[p] == before[p]);
    } else if !before.contains(d) {
        assert(after.last() == d);
        assert(after[after.len() - 1] == d);
    }
}

/// Whether the machine number `j` is the one number `i`, or was copied from it, directly
/// or through others.
pub open spec fn goes_with(vms: Seq<VmMetadata>, j: int, i: int) -> bool {
    j == i || descends(vms, j, vms[i].name@, vms.len())
}

/// Whether one of the first `n` dependents is there and takes the machine number `j`
/// with it.
pub open spec fn some_takes(vms: Seq<VmMetadata>, dependents: Seq<Seq<char>>, n: int, j: int) -> bool {
    exists|k: int|
        0 <= k < n && (match number_of(vms, #[trigger] dependents[k], vms.len() as int) {
            Some(d) => goes_with(vms, j, d),
            None => false,
        })
}

/// With a machine all of its copies go, and nothing goes but it, the machines that
/// depend on it, and the copies of all these.
pub proof fn law_what_goes_with_a_machine(
    vms: Seq<VmMetadata>,
    i: int,
    dependents: Seq<Seq<char>>,
    j: int,
)
    ensures
        goes_with(vms, j, i) ==> rm_events(vms, i, dependents).contains(DeletionView::Delete(j)),
        rm_events(vms, i, dependents).contains(DeletionView::Delete(j)) ==> goes_with(vms, j, i)
            || some_takes(vms, dependents, dependents.len() as int, j),
{
    let before = dependents_go(vms, dependents, dependents.len() as int);
    lemma_with_copies(vms, i, before, j);
    if before.contains(DeletionView::Delete(j)) {
        lemma_dependents_take(vms, dependents, dependents.len() as int, j);
    }
}

proof fn lemma_dependents_take(
    vms: Seq<VmMetadata>,
    dependents: Seq<Seq<char>>,
    n: int,
    j: int,
)
    requires
        0 <= n <= dependents.len(),
        dependents_go(vms, dependents, n).contains(DeletionView::Delete(j)),
    ensures
        some_takes(vms, dependents, n, j),
    decreases n,
{
    if n > 0 {
        let before = dependents_go(vms, dependents, n - 1);
        if before.contains(DeletionView::Delete(j)) {
            lemma_dependents_take(vms, dependents, n - 1, j);
        } else {
            let d = number_of(vms, dependents[n - 1], vms.len() as int)->0;
            let announced = before.push(DeletionView::Cascade(d));
            lemma_with_copies(vms, d, announced, j);
            if announced.contains(DeletionView::Delete(j)) {
                let q = choose|q: int|
                    0 <= q < announced.len() && announced[q] == DeletionView::Delete(j);
                assert(before[q] == DeletionView::Delete(j));
            }
        }
    }
}

proof fn lemma_with_copies(vms: Seq<VmMetadata>, i: int, before: Seq<DeletionView>, j: int)
    ensures
        with_copies(vms, i, before).contains(DeletionView::Delete(j)) <==> before.contains(
            DeletionView::Delete(j),
        ) || goes_with(vms, j, i),
{
    let d = DeletionView::Delete(j);
    let events = cascade(vms, vms[i].name@, vms.len(), vms.len() as int);
    let rest = still_to_come(events, before);
    let all = with_copies(vms, i, before);
    lemma_still_to_come(events, before, d);
    lemma_deleted(events, j);
    law_copies_go_with_their_origin(vms, vms[i].name@, j);
    if before.contains(d) {
        let q = choose|q: int| 0 <= q < before.len() && before[q] == d;
        assert(all[q] == d);
    } else if rest.contains(d) {
        let q = choose|q: int| 0 <= q < rest.len() && rest[q] == d;
        assert(all[before.len() + q] == d);
    } else if j == i {
        assert(all[all.len() - 1] == d);
    } else if all.contains(d) {
        let q = choose|q: int| 0 <= q < all.len() && all[q] == d;
        if q < before.len() {
            assert(before[q] == d);
        } else if q < all.len() - 1 {
            assert(rest[q - before.len()] == d);
        }
    }
}

proof fn lemma_still_to_come(events: Seq<DeletionView>, before: Seq<DeletionView>, e: DeletionView)
    ensures
        still_to_come(events, before).contains(e) <==> events.contains(e) && !before.contains(
            DeletionView::Delete(machine_of(e)),
        ),
    decreases events.len(),
{
    if events.len() > 0 {
        let init = events.drop_last();
        lemma_still_to_come(init, before, e);
        lemma_contains_last(events, e);
        let rest = still_to_come(init, before);
        let all = still_to_come(events, before);
        if !before.contains(DeletionView::Delete(machine_of(events.last()))) {
            lemma_contains_last(all, e);
            assert(all.drop_last() =~= rest);
        }
    }
}

proof fn lemma_contains_last(s: Seq<DeletionView>, e: DeletionView)
    requires
        s.len() > 0,
    ensures
        s.contains(e) <==> s.drop_last().contains(e) || s.last() == e,
{
    if s.contains(e) {
        let q = choose|q: int| 0 <= q < s.len() && s[q] == e;
        if q < s.len() - 1 {
            assert(s.drop_last()[q] == e);
        }
    }
    if s.drop_last().contains(e) {
        let q = choose|q: int| 0 <= q < s.drop_last().len() && s.drop_last()[q] == e;
        assert(s[q] == e);
    }
    assert(s[s.len() - 1] == s.last());
}

proof fn lemma_deleted(events: Seq<DeletionView>, j: int)
    ensures
        deleted_in(events).contains(j) <==> events.contains(DeletionView::Delete(j)),
    decreases events.len(),
{
    if events.len() > 0 {
        lemma_deleted(events.drop_last(), j);
        lemma_contains_last(events, DeletionView::Delete(j));
        let init = deleted_in(events.drop_last());
        match events.last() {
            DeletionView::Delete(i) => {
                assert(init.push(i).contains(j) <==> init.contains(j) || i == j) by {
                    if init.contains(j) {
                        let q = choose|q: int| 0 <= q < init.len() && init[q] == j;
                        assert(init.push(i)[q] == j);
                    }
                    assert(init.push(i)[init.len() as int] == i);
                }
            },
            _ => {},
        }
    }
}

/// How the process of a machine that is deleted is ended.
pub open spec fn ending(m: VmMetadata, running: bool, socket_there: bool) -> Seq<StepView<VmView>> {
    if !m.status.spec_is_active() {
        seq![]
    } else {
        (if m.pid is Some && running {
            seq![
                must(
                    VmView::Say("Force-stopping VM (pid "@ + dec(m.pid->0 as nat) + ")..."@),
                ),
                may(VmView::ForceStop),
            ]
        } else {
            seq![]
        }) + (if socket_there {
            seq![may(VmView::RemoveSocket)]
        } else {
            seq![]
        })
    }
}

/// How a machine is deleted. Only that its record cannot be removed counts as a
/// failure.
pub open spec fn deletion_plan(m: VmMetadata, running: bool, socket_there: bool) -> Seq<
    StepView<VmView>,
> {
    ending(m, running, socket_there) + seq![
        may(VmView::TeardownNetwork),
        must(VmView::PostDelete),
        must(VmView::Say("Destroying storage for VM '"@ + m.name@ + "'..."@)),
        may(VmView::DestroyStorage),
    ] + (if m.parent_vm is Some {
        seq![may(VmView::CleanupFork)]
    } else {
        seq![]
    }) + seq![
        must(VmView::DeleteRecord(m.name@)),
        must(VmView::Say("VM '"@ + m.name@ + "' deleted."@)),
    ]
}

/// How a machine is deleted. The flags say whether its process and its socket are
/// there.
pub fn force_delete_vm(m: &VmMetadata, running: bool, socket_there: bool) -> (r: Vec<
    Step<VmAction>,
>)
    ensures
        plan(r@) == deletion_plan(*m, running, socket_there),
{
    let mut steps: Vec<Step<VmAction>> = no_steps();
    if m.status.is_active() {
        match m.pid {
            Some(pid) => {
                if running {
                    let n = decimal(pid as u64);
                    let t = "Force-stopping VM (pid ".to_owned().concat(n.as_str()).concat(
                        ")...",
                    );
                    steps = then_must(steps, VmAction::Say(t));
                    steps = then_may(steps, VmAction::ForceStop);
                }
            },
            None => {},
        }
        if socket_there {
            steps = then_may(steps, VmAction::RemoveSocket);
        }
    }
    let ghost head = ending(*m, running, socket_there);
    assert(plan(steps@) =~= head);
    let destroying = "Destroying storage for VM '".to_owned().concat(m.name.as_str()).concat(
        "'...",
    );
    let deleted = "VM '".to_owned().concat(m.name.as_str()).concat("' deleted.");
    steps = then_may(steps, VmAction::TeardownNetwork);
    steps = then_must(steps, VmAction::PostDelete);
    steps = then_must(steps, VmAction::Say(destroying));
    steps = then_may(steps, VmAction::DestroyStorage);
    let ghost mid = head + seq![
        may(VmView::TeardownNetwork),
        must(VmView::PostDelete),
        must(VmView::Say("Destroying storage for VM '"@ + m.name@ + "'..."@)),
        may(VmView::DestroyStorage),
    ];
    assert(plan(steps@) =~= mid);
    if m.parent_vm.is_some() {
        steps = then_may(steps, VmAction::CleanupFork);
    }
    let ghost forked = mid + (if m.parent_vm is Some {
        seq![may(VmView::CleanupFork)]
    } else {
        seq![]
    });
    assert(plan(steps@) =~= forked);
    steps = then_must(steps, VmAction::DeleteRecord(m.name.clone()));
    steps = then_must(steps, VmAction::Say(deleted));
    assert(plan(steps@) =~= forked + seq![
        must(VmView::DeleteRecord(m.name@)),
        must(VmView::Say("VM '"@ + m.name@ + "' deleted."@)),
    ]);
    steps
}

// ---------------------------------------------------------------------
// Listing
// ---------------------------------------------------------------------

/// Whether one of the states is looked for; all are where none is.
pub open spec fn wanted(filters: Seq<StatusFilter>, status: VmStatus) -> bool {
    filters.len() == 0 || exists|k: int|
        0 <= k < filters.len() && (#[trigger] filters[k]).status() == status
}

fn is_wanted(filters: &Vec<StatusFilter>, status: VmStatus) -> (r: bool)
    ensures
        r == wanted(filters@, status),
{
    if filters.len() == 0 {
        return true;
    }
    let mut i: usize = 0;
    while i < filters.len()
        invariant
            i <= filters.len(),
            forall|k: int| 0 <= k < i ==> (#[trigger] filters@[k]).status() != status,
        decreases filters.len() - i,
    {
        if filters[i].matches(status) {
            assert(filters@[i as int].status() == status);
            return true;
        }
        i = i + 1;
    }
    false
}

/// The row of a machine.
pub open spec fn vm_row(vm: VmMetadata) -> Seq<Seq<char>> {
    seq![
        vm.name@,
        vm.status.text(),
        vm.image@,
        dec(vm.cpus as nat),
        bytes_text((vm.memory_mib * MIB) as u64),
        bytes_text((vm.disk_size_gib * GIB) as u64),
    ]
}

/// The rows of the machines among the first `n` in a state that is looked for.
pub open spec fn vm_rows(vms: Seq<VmMetadata>, filters: Seq<StatusFilter>, n: int) -> Seq<
    Seq<Seq<char>>,
>
    decreases n,
{
    if n <= 0 {
        seq![]
    } else if wanted(filters, vms[n - 1].status) {
        vm_rows(vms, filters, n - 1).push(vm_row(vms[n - 1]))
    } else {
        vm_rows(vms, filters, n - 1)
    }
}

fn row_of(vm: &VmMetadata) -> (r: Vec<String>)
    ensures
        texts(r@) == vm_row(*vm),
        r@.len() == 6,
{
    let status = vm.status.to_string();
    let cpus = decimal(vm.cpus as u64);
    let memory = mib_text(vm.memory_mib);
    let disk = gib_text(vm.disk_size_gib);
    let r = with(
        with(
            with(
                with(with(with(nothing(), vm.name.as_str()), status.as_str()), vm.image.as_str()),
                cpus.as_str(),
            ),
            memory.as_str(),
        ),
        disk.as_str(),
    );
    assert(texts(r@) =~= vm_row(*vm));
    assert(texts(r@).len() == r@.len());
    r
}

/// The headings of the table of machines.
pub open spec fn vm_headers() -> Seq<Seq<char>> {
    seq!["NAME"@, "STATUS"@, "IMAGE"@, "CPUS"@, "MEM"@, "DISK"@]
}

/// How the columns of the table of machines are aligned.
pub open spec fn vm_aligns() -> Seq<Align> {
    seq![Align::Left, Align::Left, Align::Left, Align::Right, Align::Right, Align::Right]
}

/// The lines of the table of machines.
pub open spec fn list_lines(vms: Seq<VmMetadata>, filters: Seq<StatusFilter>) -> Seq<Seq<char>> {
    let rows = vm_rows(vms, filters, vms.len() as int);
    if rows.len() > 0 {
        table_lines(vm_headers(), vm_aligns(), rows)
    } else if filters.len() == 0 {
        seq!["No VMs found. Create one with: ember vm create <name> --image <image>"@]
    } else {
        seq!["No VMs match the requested status."@]
    }
}

/// The numbers of the machines in a state that is looked for.
pub open spec fn selected(vms: Seq<VmMetadata>, filters: Seq<StatusFilter>, n: int) -> Seq<int>
    decreases n,
{
    if n <= 0 {
        seq![]
    } else if wanted(filters, vms[n - 1].status) {
        selected(vms, filters, n - 1).push(n - 1)
    } else {
        selected(vms, filters, n - 1)
    }
}

/// The numbers of the machines in a state that is looked for.
pub fn select(vms: &Vec<VmMetadata>, filters: &Vec<StatusFilter>) -> (r: Vec<usize>)
    ensures
        numbers(r@) == selected(vms@, filters@, vms@.len() as int),
{
    let mut r: Vec<usize> = Vec::new();
    let mut i: usize = 0;
    assert(numbers(r@) =~= seq![]);
    while i < vms.len()
        invariant
            i <= vms.len(),
            numbers(r@) == selected(vms@, filters@, i as int),
        decreases vms.len() - i,
    {
        if is_wanted(filters, vms[i].status) {
            let ghost before = r@;
            r.push(i);
            assert(numbers(r@) =~= numbers(before).push(i as int));
        }
        i = i + 1;
    }
    r
}

/// The lines of the table of machines.
pub fn list(vms: &Vec<VmMetadata>, args: &ListArgs) -> (r: Vec<String>)
    ensures
        texts(r@) == list_lines(vms@, args.status@),
{
    let mut rows: Vec<Vec<String>> = Vec::new();
    let mut i: usize = 0;
    assert(table_of(rows@) =~= seq![]);
    while i < vms.len()
        invariant
            i <= vms.len(),
            table_of(rows@) == vm_rows(vms@, args.status@, i as int),
            forall|k: int| 0 <= k < rows@.len() ==> (#[trigger] rows@[k])@.len() == 6,
        decreases vms.len() - i,
    {
        if is_wanted(&args.status, vms[i].status) {
            let row = row_of(&vms[i]);
            let ghost before = rows@;
            rows.push(row);
            assert(table_of(rows@) =~= table_of(before).push(vm_row(vms@[i as int])));
        }
        i = i + 1;
    }
    assert(table_of(rows@).len() == rows@.len());
    if rows.len() == 0 {
        if args.status.len() == 0 {
            return with(
                nothing(),
                "No VMs found. Create one with: ember vm create <name> --image <image>",
            );
        }
        return with(nothing(), "No VMs match the requested status.");
    }
    let headers = ["NAME", "STATUS", "IMAGE", "CPUS", "MEM", "DISK"];
    let aligns = [
        Align::Left,
        Align::Left,
        Align::Left,
        Align::Right,
        Align::Right,
        Align::Right,
    ];
    assert(words_of(headers@) =~= vm_headers());
    assert(aligns@ =~= vm_aligns());
    print_table(&headers, &aligns, &rows)
}

/// The lines of what a platform adds.
pub open spec fn extra_lines(list: Seq<(String, String)>, n: int) -> Seq<Seq<char>>
    decreases n,
{
    if n <= 0 {
        seq![]
    } else {
        extra_lines(list, n - 1).push(left_in(list[n - 1].0@, 13) + list[n - 1].1@)
    }
}

/// The lines, and those of what a platform adds behind them.
pub fn with_extra(lines: Vec<String>, extra: &Vec<(String, String)>) -> (r: Vec<String>)
    ensures
        texts(r@) == texts(lines@) + extra_lines(extra@, extra@.len() as int),
{
    let ghost before = texts(lines@);
    let mut r = lines;
    let mut i: usize = 0;
    assert(texts(r@) =~= before + extra_lines(extra@, 0));
    while i < extra.len()
        invariant
            i <= extra.len(),
            texts(r@) == before + extra_lines(extra@, i as int),
        decreases extra.len() - i,
    {
        let label = left(extra[i].0.as_str(), 13);
        let line = label.concat(extra[i].1.as_str());
        r = with(r, line.as_str());
        assert(texts(r@) =~= before + extra_lines(extra@, i + 1));
        i = i + 1;
    }
    r
}

/// The first lines about a machine.
pub open spec fn head_lines(m: VmMetadata) -> Seq<Seq<char>> {
    seq![
        "Name:        "@ + m.name@,
        "ID:          "@ + m.id@,
        "Status:      "@ + m.status.text(),
        "Image:       "@ + m.image@,
        "CPUs:        "@ + dec(m.cpus as nat),
        "Memory:      "@ + bytes_text((m.memory_mib * MIB) as u64),
        "Disk:        "@ + bytes_text((m.disk_size_gib * GIB) as u64),
        "Kernel:      "@ + m.kernel_path@,
    ]
}

/// The lines about the network of a machine.
pub open spec fn network_lines(n: Option<NetworkInfo>) -> Seq<Seq<char>> {
    match n {
        None => seq![],
        Some(net) => seq!["Network:"@] + line_if(
            net.tap_device@.len() > 0,
            "  TAP device:  "@ + net.tap_device@,
        ) + seq![
            "  Host IP:     "@ + net.host_ip@,
            "  Guest IP:    "@ + net.guest_ip@,
            "  Netmask:     "@ + net.netmask@,
        ] + line_if(net.guest_mac is Some, "  Guest MAC:   "@ + net.guest_mac->0@),
    }
}

/// The lines about a machine.
pub open spec fn inspect_lines(m: VmMetadata, extra: Seq<(String, String)>) -> Seq<Seq<char>> {
    head_lines(m) + extra_lines(extra, extra.len() as int) + seq!["Created:     "@ + m.created_at@]
        + line_if(m.pid is Some, "PID:         "@ + dec(m.pid->0 as nat)) + network_lines(m.network)
        + seq![
        "SSH:"@,
        "  User:        "@ + m.ssh.user@,
        "  Key:         "@ + m.ssh.key@,
    ]
}

fn push_labelled(lines: Vec<String>, label: &str, value: &str) -> (r: Vec<String>)
    ensures
        texts(r@) == texts(lines@).push(label@ + value@),
{
    let line = label.to_owned().concat(value);
    with(lines, line.as_str())
}

fn head_of(m: &VmMetadata) -> (r: Vec<String>)
    ensures
        texts(r@) == head_lines(*m),
{
    let status = m.status.to_string();
    let cpus = decimal(m.cpus as u64);
    let memory = mib_text(m.memory_mib);
    let disk = gib_text(m.disk_size_gib);
    let r = push_labelled(nothing(), "Name:        ", m.name.as_str());
    let r = push_labelled(r, "ID:          ", m.id.as_str());
    let r = push_labelled(r, "Status:      ", status.as_str());
    let r = push_labelled(r, "Image:       ", m.image.as_str());
    let r = push_labelled(r, "CPUs:        ", cpus.as_str());
    let r = push_labelled(r, "Memory:      ", memory.as_str());
    let r = push_labelled(r, "Disk:        ", disk.as_str());
    push_labelled(r, "Kernel:      ", m.kernel_path.as_str())
}

fn with_network(lines: Vec<String>, network: &Option<NetworkInfo>) -> (r: Vec<String>)
    ensures
        texts(r@) == texts(lines@) + network_lines(*network),
{
    let ghost before = texts(lines@);
    match network {
        None => {
            assert(before =~= before + network_lines(*network));
            lines
        },
        Some(net) => {
            let tap = "  TAP device:  ".to_owned().concat(net.tap_device.as_str());
            let r = with(lines, "Network:");
            let r = with_line(r, !net.tap_device.as_str().is_empty(), tap.as_str());
            let r = push_labelled(r, "  Host IP:     ", net.host_ip.as_str());
            let r = push_labelled(r, "  Guest IP:    ", net.guest_ip.as_str());
            let r = push_labelled(r, "  Netmask:     ", net.netmask.as_str());
            let r = match &net.guest_mac {
                Some(mac) => push_labelled(r, "  Guest MAC:   ", mac.as_str()),
                None => r,
            };
            assert(texts(r@) =~= before + network_lines(*network));
            r
        },
    }
}

/// The lines about a machine. `extra` is what the platform adds.
pub fn inspect(m: &VmMetadata, extra: &Vec<(String, String)>) -> (r: Vec<String>)
    ensures
        texts(r@) == inspect_lines(*m, extra@),
{
    let r = with_extra(head_of(m), extra);
    let ghost a = texts(r@);
    let r = push_labelled(r, "Created:     ", m.created_at.as_str());
    let r = match m.pid {
        Some(pid) => {
            let n = decimal(pid as u64);
            push_labelled(r, "PID:         ", n.as_str())
        },
        None => r,
    };
    assert(texts(r@) =~= a + seq!["Created:     "@ + m.created_at@] + line_if(
        m.pid is Some,
        "PID:         "@ + dec(m.pid->0 as nat),
    ));
    let r = with_network(r, &m.network);
    let ghost b = texts(r@);
    let r = with(r, "SSH:");
    let r = push_labelled(r, "  User:        ", m.ssh.user.as_str());
    let r = push_labelled(r, "  Key:         ", m.ssh.key.as_str());
    assert(texts(r@) =~= b + seq![
        "SSH:"@,
        "  User:        "@ + m.ssh.user@,
        "  Key:         "@ + m.ssh.key@,
    ]);
    r
}

} // verus!
