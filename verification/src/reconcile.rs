//! Bringing what is recorded of the machines in line with what runs.

use vstd::prelude::*;
use vstd::string::*;

use crate::config::{namespace, opt_str, GlobalConfig};
use crate::error::{error_text, Error};
use crate::firewall::{ensuring, removing, NetworkAction, NetworkView};
use crate::network::{outside, outside_of};
use crate::policy::{chain_names, chains, ensure, setup};
use crate::procedure::{
    all_good, first_failure, law_performed_up_to_the_failure, may, must, must_or, no_steps,
    performed, plan, succeeding, then_all, then_may, then_must, then_must_or, Position, Step,
    StepView,
};
use crate::text::{dec, decimal, lemma_texts_push, opt_text, same, texts};
use crate::vm::{NetworkInfo, VmMetadata, VmStatus};
use crate::vm_rules::{comment, comment_of, forwarding, inbound, outbound, VmRules};

verus! {

/// Something to do about a machine.
#[derive(Debug, PartialEq)]
pub enum ReconcileAction {
    /// Tell the user.
    Warn(String),
    /// Take down the network of the machine with this number in the list.
    CleanupNetwork(usize),
    /// Give back the address of the machine with this number in the list.
    ReleaseIp(usize),
    /// Record that the machine with this number in the list is stopped.
    MarkStopped(usize),
}

/// A [`ReconcileAction`], its string taken by its text.
#[verifier::ext_equal]
pub enum ReconcileView {
    Warn(Seq<char>),
    CleanupNetwork(int),
    ReleaseIp(int),
    MarkStopped(int),
}

impl View for ReconcileAction {
    type V = ReconcileView;

    open spec fn view(&self) -> ReconcileView {
        match self {
            ReconcileAction::Warn(s) => ReconcileView::Warn(s@),
            ReconcileAction::CleanupNetwork(i) => ReconcileView::CleanupNetwork(*i as int),
            ReconcileAction::ReleaseIp(i) => ReconcileView::ReleaseIp(*i as int),
            ReconcileAction::MarkStopped(i) => ReconcileView::MarkStopped(*i as int),
        }
    }
}

/// The views of a list of things to do.
pub open spec fn views(actions: Seq<ReconcileAction>) -> Seq<ReconcileView> {
    actions.map_values(|a: ReconcileAction| a@)
}

/// The warning about a machine that should run and has no process.
pub open spec fn no_pid_warning(name: Seq<char>, status: VmStatus) -> Seq<char> {
    "Warning: VM '"@ + name + "' is "@ + status.text() + " but has no PID, marking stopped"@
}

/// The warning about a machine whose process is gone.
pub open spec fn dead_warning(name: Seq<char>, pid: u32) -> Seq<char> {
    "Warning: VM '"@ + name + "' process (pid "@ + dec(pid as nat)
        + ") is dead, marking stopped"@
}

/// Whether the network of a machine has to be taken down when its process is
/// gone: it has one, and it is known how.
pub open spec fn needs_cleanup(vm: VmMetadata, configured: bool) -> bool {
    configured && vm.network is Some
}

/// What to do about the machine number `i`.
pub open spec fn about(vm: VmMetadata, i: int, alive: bool, configured: bool) -> Seq<
    ReconcileView,
> {
    if !vm.status.spec_is_active() {
        seq![]
    } else {
        match vm.pid {
            None => seq![
                ReconcileView::Warn(no_pid_warning(vm.name@, vm.status)),
                ReconcileView::MarkStopped(i),
            ],
            Some(pid) => if alive {
                seq![]
            } else if needs_cleanup(vm, configured) {
                seq![
                    ReconcileView::Warn(dead_warning(vm.name@, pid)),
                    ReconcileView::CleanupNetwork(i),
                    ReconcileView::MarkStopped(i),
                ]
            } else {
                seq![
                    ReconcileView::Warn(dead_warning(vm.name@, pid)),
                    ReconcileView::MarkStopped(i),
                ]
            },
        }
    }
}

/// What to do about the first `n` machines.
pub open spec fn about_all(vms: Seq<VmMetadata>, alive: Seq<bool>, configured: bool, n: int) -> Seq<
    ReconcileView,
>
    decreases n,
{
    if n <= 0 {
        seq![]
    } else {
        about_all(vms, alive, configured, n - 1) + about(
            vms[n - 1],
            n - 1,
            alive[n - 1],
            configured,
        )
    }
}

/// Whether a machine runs.
pub open spec fn runs(vm: VmMetadata, alive: bool) -> bool {
    vm.status.spec_is_active() && vm.pid is Some && alive
}

/// The devices of the machines among the first `n` that run.
pub open spec fn devices_in_use(vms: Seq<VmMetadata>, alive: Seq<bool>, n: int) -> Seq<Seq<char>>
    decreases n,
{
    if n <= 0 {
        seq![]
    } else {
        let before = devices_in_use(vms, alive, n - 1);
        let vm = vms[n - 1];
        if runs(vm, alive[n - 1]) && vm.network is Some {
            before.push(vm.network->0.tap_device@)
        } else {
            before
        }
    }
}

/// The numbers of the machines among the first `n` that run with their rules in
/// a builtin chain.
pub open spec fn without_chain(vms: Seq<VmMetadata>, alive: Seq<bool>, n: int) -> Seq<int>
    decreases n,
{
    if n <= 0 {
        seq![]
    } else {
        let before = without_chain(vms, alive, n - 1);
        let vm = vms[n - 1];
        if runs(vm, alive[n - 1]) && vm.network is Some && vm.network->0.firewall_chain is None {
            before.push(n - 1)
        } else {
            before
        }
    }
}

/// What there is to do about the machines.
#[derive(Debug)]
pub struct Reconciliation {
    pub actions: Vec<ReconcileAction>,
    /// The devices of the machines that run.
    pub active_tap_devices: Vec<String>,
    /// The numbers of the machines that run with their rules in a builtin
    /// chain, and that are to be given one, in this order.
    pub unchained: Vec<usize>,
}

/// A list of numbers.
pub open spec fn numbers(list: Seq<usize>) -> Seq<int> {
    list.map_values(|i: usize| i as int)
}

fn push(actions: Vec<ReconcileAction>, a: ReconcileAction) -> (r: Vec<ReconcileAction>)
    ensures
        views(r@) == views(actions@).push(a@),
{
    let mut actions = actions;
    let ghost before = actions@;
    actions.push(a);
    assert(views(actions@) =~= views(before).push(a@));
    actions
}

fn no_pid_text(vm: &VmMetadata) -> (r: String)
    ensures
        r@ == no_pid_warning(vm.name@, vm.status),
{
    let status = vm.status.to_string();
    "Warning: VM '".to_owned().concat(vm.name.as_str()).concat("' is ").concat(
        status.as_str(),
    ).concat(" but has no PID, marking stopped")
}

fn dead_text(vm: &VmMetadata, pid: u32) -> (r: String)
    ensures
        r@ == dead_warning(vm.name@, pid),
{
    let number = decimal(pid as u64);
    "Warning: VM '".to_owned().concat(vm.name.as_str()).concat("' process (pid ").concat(
        number.as_str(),
    ).concat(") is dead, marking stopped")
}

fn examine(
    actions: Vec<ReconcileAction>,
    vm: &VmMetadata,
    i: usize,
    alive: bool,
    configured: bool,
) -> (r: Vec<ReconcileAction>)
    ensures
        views(r@) == views(actions@) + about(*vm, i as int, alive, configured),
{
    let ghost before = views(actions@);
    let mut r = actions;
    if vm.status.is_active() {
        match vm.pid {
            None => {
                r = push(r, ReconcileAction::Warn(no_pid_text(vm)));
                r = push(r, ReconcileAction::MarkStopped(i));
            },
            Some(pid) => {
                if !alive {
                    r = push(r, ReconcileAction::Warn(dead_text(vm, pid)));
                    if configured && vm.network.is_some() {
                        r = push(r, ReconcileAction::CleanupNetwork(i));
                    }
                    r = push(r, ReconcileAction::MarkStopped(i));
                }
            },
        }
    }
    assert(views(r@) =~= before + about(*vm, i as int, alive, configured));
    r
}

/// What there is to do about the machines. `alive` says of each whether its
/// process runs, and `configured` whether the installation has a
/// configuration: without one no machine is given a chain.
pub fn run(vms: &Vec<VmMetadata>, alive: &Vec<bool>, configured: bool) -> (r: Reconciliation)
    requires
        alive@.len() == vms@.len(),
    ensures
        views(r.actions@) == about_all(vms@, alive@, configured, vms@.len() as int),
        texts(r.active_tap_devices@) == devices_in_use(vms@, alive@, vms@.len() as int),
        numbers(r.unchained@) == (if configured {
            without_chain(vms@, alive@, vms@.len() as int)
        } else {
            seq![]
        }),
{
    let mut actions: Vec<ReconcileAction> = Vec::new();
    let mut active: Vec<String> = Vec::new();
    let mut unchained: Vec<usize> = Vec::new();
    let mut i: usize = 0;
    assert(views(actions@) =~= seq![]);
    assert(texts(active@) =~= seq![]);
    assert(numbers(unchained@) =~= seq![]);
    while i < vms.len()
        invariant
            i <= vms.len(),
            alive@.len() == vms@.len(),
            views(actions@) == about_all(vms@, alive@, configured, i as int),
            texts(active@) == devices_in_use(vms@, alive@, i as int),
            numbers(unchained@) == without_chain(vms@, alive@, i as int),
        decreases vms.len() - i,
    {
        let vm = &vms[i];
        actions = examine(actions, vm, i, alive[i], configured);
        if vm.status.is_active() && vm.pid.is_some() && alive[i] {
            match &vm.network {
                Some(net) => {
                    let device = net.tap_device.clone();
                    proof {
                        lemma_texts_push(active@, device);
                    }
                    active.push(device);
                    if net.firewall_chain.is_none() {
                        let ghost before = unchained@;
                        unchained.push(i);
                        assert(numbers(unchained@) =~= numbers(before).push(i as int));
                    }
                },
                None => {},
            }
        }
        i = i + 1;
    }
    if !configured {
        unchained = Vec::new();
        assert(numbers(unchained@) =~= seq![]);
    }
    Reconciliation { actions, active_tap_devices: active, unchained }
}

/// What to do about the machine number `i` where machines have no devices of
/// their own on the host.
pub open spec fn about_on_macos(vm: VmMetadata, i: int, alive: bool) -> Seq<ReconcileView> {
    if !vm.status.spec_is_active() || runs(vm, alive) {
        seq![]
    } else {
        seq![
            ReconcileView::Warn(
                match vm.pid {
                    None => no_pid_warning(vm.name@, vm.status),
                    Some(pid) => dead_warning(vm.name@, pid),
                },
            ),
            ReconcileView::ReleaseIp(i),
            ReconcileView::MarkStopped(i),
        ]
    }
}

/// What to do about the first `n` machines where they have no devices of their
/// own on the host.
pub open spec fn all_on_macos(vms: Seq<VmMetadata>, alive: Seq<bool>, n: int) -> Seq<ReconcileView>
    decreases n,
{
    if n <= 0 {
        seq![]
    } else {
        all_on_macos(vms, alive, n - 1) + about_on_macos(vms[n - 1], n - 1, alive[n - 1])
    }
}

/// What there is to do about the machines where they have no devices of their own
/// on the host. `alive` says of each whether its process runs.
pub fn run_on_macos(vms: &Vec<VmMetadata>, alive: &Vec<bool>) -> (r: Vec<ReconcileAction>)
    requires
        alive@.len() == vms@.len(),
    ensures
        views(r@) == all_on_macos(vms@, alive@, vms@.len() as int),
{
    let mut r: Vec<ReconcileAction> = Vec::new();
    let mut i: usize = 0;
    assert(views(r@) =~= seq![]);
    while i < vms.len()
        invariant
            i <= vms.len(),
            alive@.len() == vms@.len(),
            views(r@) == all_on_macos(vms@, alive@, i as int),
        decreases vms.len() - i,
    {
        let vm = &vms[i];
        let ghost before = views(r@);
        if vm.status.is_active() && !(vm.pid.is_some() && alive[i]) {
            let w = match vm.pid {
                None => no_pid_text(vm),
                Some(pid) => dead_text(vm, pid),
            };
            r = push(r, ReconcileAction::Warn(w));
            r = push(r, ReconcileAction::ReleaseIp(i));
            r = push(r, ReconcileAction::MarkStopped(i));
        }
        assert(views(r@) =~= before + about_on_macos(*vm, i as int, alive@[i as int]));
        i = i + 1;
    }
    r
}

/// Machines are marked stopped on one platform exactly where they are on the
/// other.
pub proof fn law_platforms_agree_on_the_dead(vm: VmMetadata, i: int, alive: bool, configured: bool)
    ensures
        about(vm, i, alive, configured).contains(ReconcileView::MarkStopped(i)) <==> about_on_macos(
            vm,
            i,
            alive,
        ).contains(ReconcileView::MarkStopped(i)),
{
    if vm.status.spec_is_active() && !runs(vm, alive) {
        let a = about(vm, i, alive, configured);
        let b = about_on_macos(vm, i, alive);
        assert(a[a.len() - 1] == ReconcileView::MarkStopped(i));
        assert(b[2] == ReconcileView::MarkStopped(i));
    }
}

/// The devices among the first `n` that no machine uses.
pub open spec fn unused(devices: Seq<Seq<char>>, active: Seq<Seq<char>>, n: int) -> Seq<Seq<char>>
    decreases n,
{
    if n <= 0 {
        seq![]
    } else if active.contains(devices[n - 1]) {
        unused(devices, active, n - 1)
    } else {
        unused(devices, active, n - 1).push(devices[n - 1])
    }
}

fn in_use(device: &str, active: &Vec<String>) -> (r: bool)
    ensures
        r == texts(active@).contains(device@),
{
    let mut i: usize = 0;
    while i < active.len()
        invariant
            i <= active.len(),
            forall|k: int| 0 <= k < i ==> texts(active@)[k] != device@,
        decreases active.len() - i,
    {
        assert(texts(active@)[i as int] == active@[i as int]@);
        if same(active[i].as_str(), device) {
            assert(texts(active@).contains(device@));
            return true;
        }
        i = i + 1;
    }
    false
}

/// The devices on the host that no machine uses any more.
fn orphans(devices: &Vec<String>, active: &Vec<String>) -> (r: Vec<String>)
    ensures
        texts(r@) == unused(texts(devices@), texts(active@), devices@.len() as int),
{
    let mut r: Vec<String> = Vec::new();
    let mut i: usize = 0;
    assert(texts(r@) =~= seq![]);
    while i < devices.len()
        invariant
            i <= devices.len(),
            texts(r@) == unused(texts(devices@), texts(active@), i as int),
        decreases devices.len() - i,
    {
        assert(texts(devices@)[i as int] == devices@[i as int]@);
        if !in_use(devices[i].as_str(), active) {
            let d = devices[i].clone();
            proof {
                lemma_texts_push(r@, d);
            }
            r.push(d);
        }
        i = i + 1;
    }
    r
}

/// The warning about machines that could not be listed.
pub fn listing_warning(e: &Error) -> (r: String)
    ensures
        r@ == "Warning: reconciliation failed to list VMs: "@ + error_text(e@),
{
    let cause = e.to_string();
    "Warning: reconciliation failed to list VMs: ".to_owned().concat(cause.as_str())
}

/// Something to do about the devices on the host.
#[derive(Debug, PartialEq)]
pub enum SweepAction {
    Warn(String),
    DeleteDevice(String),
}

/// A [`SweepAction`], its strings taken by their texts.
#[verifier::ext_equal]
pub enum SweepView {
    Warn(Seq<char>),
    DeleteDevice(Seq<char>),
}

impl View for SweepAction {
    type V = SweepView;

    open spec fn view(&self) -> SweepView {
        match self {
            SweepAction::Warn(t) => SweepView::Warn(t@),
            SweepAction::DeleteDevice(d) => SweepView::DeleteDevice(d@),
        }
    }
}

/// How the first `n` devices are deleted, whether or not each of them can be.
pub open spec fn deleting(devices: Seq<Seq<char>>, n: int) -> Seq<StepView<SweepView>>
    decreases n,
{
    if n <= 0 {
        seq![]
    } else {
        deleting(devices, n - 1) + seq![
            must(
                SweepView::Warn(
                    "Warning: deleting orphaned TAP device '"@ + devices[n - 1] + "'"@,
                ),
            ),
            may(SweepView::DeleteDevice(devices[n - 1])),
        ]
    }
}

/// What is done about the devices on the host: those are deleted that no machine
/// uses any more.
pub open spec fn sweeping(devices: Result<Vec<String>, Error>, active: Seq<Seq<char>>) -> Seq<
    StepView<SweepView>,
> {
    match devices {
        Err(e) => seq![
            must(SweepView::Warn("Warning: failed to list TAP devices: "@ + error_text(e@))),
        ],
        Ok(list) => {
            let gone = unused(texts(list@), active, list@.len() as int);
            deleting(gone, gone.len() as int)
        },
    }
}

/// What is done about the devices of an installation on the host, or why they are
/// not known. `active` are those of the machines that run.
pub fn sweep(devices: &Result<Vec<String>, Error>, active: &Vec<String>) -> (r: Vec<
    Step<SweepAction>,
>)
    ensures
        plan(r@) == sweeping(*devices, texts(active@)),
{
    match devices {
        Err(e) => {
            let cause = e.to_string();
            let t = "Warning: failed to list TAP devices: ".to_owned().concat(cause.as_str());
            let steps = then_must(no_steps(), SweepAction::Warn(t));
            assert(plan(steps@) =~= sweeping(*devices, texts(active@)));
            steps
        },
        Ok(list) => {
            let gone = orphans(list, active);
            let ghost names = texts(gone@);
            let mut steps: Vec<Step<SweepAction>> = no_steps();
            let mut i: usize = 0;
            assert(plan(steps@) =~= deleting(names, 0));
            while i < gone.len()
                invariant
                    i <= gone.len(),
                    names == texts(gone@),
                    plan(steps@) == deleting(names, i as int),
                decreases gone.len() - i,
            {
                assert(names[i as int] == gone@[i as int]@);
                let t = "Warning: deleting orphaned TAP device '".to_owned().concat(
                    gone[i].as_str(),
                ).concat("'");
                steps = then_must(steps, SweepAction::Warn(t));
                steps = then_may(steps, SweepAction::DeleteDevice(gone[i].clone()));
                assert(plan(steps@) =~= deleting(names, i + 1));
                i = i + 1;
            }
            steps
        },
    }
}

/// The device of a machine that runs is never deleted.
pub proof fn law_devices_in_use_stay(
    devices: Result<Vec<String>, Error>,
    active: Seq<Seq<char>>,
    k: int,
)
    requires
        0 <= k < sweeping(devices, active).len(),
    ensures
        sweeping(devices, active)[k].action matches SweepView::DeleteDevice(d) ==> !active.contains(
            d,
        ),
{
    match devices {
        Err(_) => {},
        Ok(list) => {
            let all = texts(list@);
            let gone = unused(all, active, all.len() as int);
            lemma_deleting(gone, gone.len() as int);
            law_unused_devices(all, active, all.len() as int);
            let step = deleting(gone, gone.len() as int)[k];
            if step.action is DeleteDevice {
                assert(gone.contains(step.action->DeleteDevice_0));
            }
        },
    }
}

proof fn lemma_deleting(devices: Seq<Seq<char>>, n: int)
    requires
        0 <= n <= devices.len(),
    ensures
        forall|k: int|
            0 <= k < deleting(devices, n).len() ==> ((#[trigger] deleting(
                devices,
                n,
            )[k]).action matches SweepView::DeleteDevice(d) ==> devices.contains(d)),
    decreases n,
{
    if n > 0 {
        lemma_deleting(devices, n - 1);
        let before = deleting(devices, n - 1);
        assert forall|k: int| 0 <= k < deleting(devices, n).len() implies ((#[trigger] deleting(
            devices,
            n,
        )[k]).action matches SweepView::DeleteDevice(d) ==> devices.contains(d)) by {
            if k < before.len() {
                assert(deleting(devices, n)[k] == before[k]);
            } else {
                assert(devices.contains(devices[n - 1]));
            }
        }
    }
}

/// What goes wrong when a machine gets its rules into the chain of the installation.
#[derive(Debug, Clone, Copy, PartialEq, Eq, Structural)]
pub enum AdoptFailure {
    /// See [`setup_warning`].
    Setup,
    /// See [`add_warning`].
    Add,
    /// See [`record_warning`].
    Record,
}

/// Something to do for a machine to get its rules into the chain of the installation.
#[derive(Debug)]
pub enum AdoptAction {
    Network(NetworkAction),
    /// Record the chain that holds the rules of the machine: see [`record_chain`].
    Record(String),
    /// Warn the user of what went wrong.
    Warn(AdoptFailure),
}

/// An [`AdoptAction`], its strings taken by their texts.
#[verifier::ext_equal]
pub enum AdoptView {
    Network(NetworkView),
    Record(Seq<char>),
    Warn(AdoptFailure),
}

impl View for AdoptAction {
    type V = AdoptView;

    open spec fn view(&self) -> AdoptView {
        match self {
            AdoptAction::Network(a) => AdoptView::Network(a@),
            AdoptAction::Record(c) => AdoptView::Record(c@),
            AdoptAction::Warn(f) => AdoptView::Warn(*f),
        }
    }
}

/// A step, with a warning in its place when it fails and was needed.
pub open spec fn warned(s: StepView<NetworkView>, failure: AdoptFailure) -> StepView<AdoptView> {
    StepView {
        action: AdoptView::Network(s.action),
        undo: if s.tolerate {
            seq![]
        } else {
            seq![AdoptView::Warn(failure)]
        },
        tolerate: s.tolerate,
    }
}

/// Steps, each with a warning in its place when it fails and was needed.
pub open spec fn all_warned(steps: Seq<StepView<NetworkView>>, failure: AdoptFailure) -> Seq<
    StepView<AdoptView>,
> {
    steps.map_values(|s: StepView<NetworkView>| warned(s, failure))
}

fn with_warnings(steps: Vec<Step<NetworkAction>>, failure: AdoptFailure) -> (r: Vec<
    Step<AdoptAction>,
>)
    ensures
        plan(r@) == all_warned(plan(steps@), failure),
    decreases steps@.len(),
{
    let ghost all = steps@;
    let mut steps = steps;
    match steps.pop() {
        None => {
            let r: Vec<Step<AdoptAction>> = no_steps();
            assert(plan(r@) =~= all_warned(plan(all), failure));
            r
        },
        Some(s) => {
            assert(all =~= steps@.push(s));
            let r = with_warnings(steps, failure);
            let ghost before = plan(r@);
            let r = if s.tolerate {
                then_may(r, AdoptAction::Network(s.action))
            } else {
                then_must_or(r, AdoptAction::Network(s.action), AdoptAction::Warn(failure))
            };
            assert(plan(all) =~= plan(steps@).push(s@));
            assert(plan(r@) =~= all_warned(plan(all), failure));
            r
        },
    }
}

/// How a machine gets its rules into the chain of the installation: the chains are
/// set up, then its rules are added there, then those in the builtin chain are
/// removed, so that it is never without any, and then the chain is recorded.
pub open spec fn adopting(
    ns: Option<Seq<char>>,
    tap_device: Seq<char>,
    wan: Seq<char>,
) -> Seq<StepView<AdoptView>> {
    let tag = comment_of(ns);
    let chain = chain_names(ns).1;
    let out = outbound(tap_device, wan);
    let back = inbound(tap_device, wan);
    all_warned(setup(ns), AdoptFailure::Setup) + all_warned(
        ensuring(seq![forwarding(Some(chain), out, tag), forwarding(Some(chain), back, tag)]),
        AdoptFailure::Add,
    ) + all_warned(
        removing(seq![forwarding(None, out, tag), forwarding(None, back, tag)]),
        AdoptFailure::Add,
    ) + seq![must_or(AdoptView::Record(chain), seq![AdoptView::Warn(AdoptFailure::Record)])]
}

/// How a machine gets its rules into the chain of the installation. There is
/// nothing to do for one without a network or without an interface to the
/// outside. `detected` is the interface that was found.
pub fn adopt_into_policy_chain(
    config: &GlobalConfig,
    metadata: &VmMetadata,
    detected: Option<&str>,
) -> (r: Option<Vec<Step<AdoptAction>>>)
    ensures
        match metadata.network {
            None => r is None,
            Some(net) => match outside_of(opt_text(net.wan_iface), opt_str(detected)) {
                None => r is None,
                Some(wan) => r is Some && plan(r->0@) == adopting(
                    namespace(config.instance_id@),
                    net.tap_device@,
                    wan,
                ),
            },
        },
{
    let net = match &metadata.network {
        Some(n) => n,
        None => {
            return None;
        },
    };
    let wan = match outside(&net.wan_iface, detected) {
        Some(w) => w,
        None => {
            return None;
        },
    };
    let ns = config.instance_namespace();
    let names = chains(ns);
    let tag = comment(ns);
    let in_chain = VmRules {
        chain: Some(names.forward.as_str()),
        tap_device: net.tap_device.as_str(),
        guest_ip: net.guest_ip.as_str(),
        wan_iface: wan,
        comment: tag.as_str(),
    };
    let builtin = VmRules {
        chain: None,
        tap_device: net.tap_device.as_str(),
        guest_ip: net.guest_ip.as_str(),
        wan_iface: wan,
        comment: tag.as_str(),
    };
    let steps = with_warnings(ensure(ns), AdoptFailure::Setup);
    let steps = then_all(steps, with_warnings(in_chain.add_forwarding(), AdoptFailure::Add));
    let steps = then_all(steps, with_warnings(builtin.remove_forwarding(), AdoptFailure::Add));
    let ghost before = plan(steps@);
    let steps = then_must_or(
        steps,
        AdoptAction::Record(names.forward.clone()),
        AdoptAction::Warn(AdoptFailure::Record),
    );
    assert(plan(steps@) =~= before + seq![
        must_or(
            AdoptView::Record(names.forward@),
            seq![AdoptView::Warn(AdoptFailure::Record)],
        ),
    ]);
    Some(steps)
}

/// How many steps come before a rule is removed.
pub open spec fn before_removing(ns: Option<Seq<char>>) -> int {
    (setup(ns).len() + 2) as int
}

/// A machine is never without its rules: one is removed, and the chain recorded, only
/// after the chains were set up and the rules added there, all with success. What
/// fails before that ends it with a warning, and nothing is removed or recorded.
pub proof fn law_never_without_rules<E>(
    steps: Seq<Step<AdoptAction>>,
    did: spec_fn(Position) -> Result<(), E>,
    ns: Option<Seq<char>>,
    tap_device: Seq<char>,
    wan: Seq<char>,
    p: int,
)
    requires
        plan(steps) == adopting(ns, tap_device, wan),
        0 <= p < performed(steps, succeeding(did), 0).len(),
        ({
            let a = performed(steps, succeeding(did), 0)[p]@;
            a is Record || (a is Network && a->Network_0 is RemoveRule)
        }),
    ensures
        all_good(did, before_removing(ns)),
{
    let ok = succeeding(did);
    let n = before_removing(ns);
    let all = plan(steps);
    let done = performed(steps, ok, 0);
    assert(all.len() == steps.len());
    law_performed_up_to_the_failure(steps, ok, 0);
    assert forall|k: int| 0 <= k < n implies !(#[trigger] steps[k]).tolerate
        && !(steps[k].action@ is Record) && !(steps[k].action@ is Network
        && steps[k].action@->Network_0 is RemoveRule) && steps[k].undo@.len() == 1
        && steps[k].undo@[0]@ is Warn by {
        assert(all[k] == steps[k]@);
        assert(steps[k]@.undo.len() == steps[k].undo@.len());
        assert(steps[k]@.undo[0] == steps[k].undo@[0]@);
        if k < setup(ns).len() {
            assert(setup(ns)[k].action is EnableForwarding || setup(ns)[k].action is EnsureChain
                || setup(ns)[k].action is EnsureRule);
        }
    }
    match first_failure(steps, ok, 0) {
        Some(f) => {
            if f < n {
                if p <= f {
                    assert(done[p] == steps.subrange(0, f + 1)[p].action);
                    assert(!steps[p].tolerate);
                } else {
                    assert(done[p] == steps[f].undo@[p - (f + 1)]);
                }
            }
            assert(f >= n);
            assert forall|k: int| 0 <= k < n implies (#[trigger] did(
                Position::Step(k as usize),
            )) is Ok by {
                assert(ok(k) || steps[k].tolerate);
            }
        },
        None => {
            assert forall|k: int| 0 <= k < n implies (#[trigger] did(
                Position::Step(k as usize),
            )) is Ok by {
                assert(ok(k) || steps[k].tolerate);
            }
        },
    }
}

/// The warning about chains that could not be set up.
pub fn setup_warning(e: &Error) -> (r: String)
    ensures
        r@ == "Warning: could not set up firewall chains: "@ + error_text(e@),
{
    let cause = e.to_string();
    "Warning: could not set up firewall chains: ".to_owned().concat(cause.as_str())
}

/// The warning about rules that could not be added to the chain.
pub fn add_warning(name: &str, chain: &str, e: &Error) -> (r: String)
    ensures
        r@ == "Warning: VM '"@ + name@ + "' still has its firewall rules outside '"@ + chain@
            + "' and may have lost network access ("@ + error_text(e@)
            + "). Restart it with 'ember vm stop "@ + name@ + " && ember vm start "@ + name@
            + "'."@,
{
    let cause = e.to_string();
    "Warning: VM '".to_owned().concat(name).concat(
        "' still has its firewall rules outside '",
    ).concat(chain).concat("' and may have lost network access (").concat(cause.as_str()).concat(
        "). Restart it with 'ember vm stop ",
    ).concat(name).concat(" && ember vm start ").concat(name).concat("'.")
}

/// Records the chain that holds the rules of a machine, when it has a network.
pub fn record_chain(m: &mut VmMetadata, chain: &str)
    ensures
        match old(m).network {
            None => *final(m) == *old(m),
            Some(net) => {
                &&& final(m).network is Some
                &&& opt_text(final(m).network->0.firewall_chain) == Some(chain@)
                &&& final(m).network->0 == (NetworkInfo {
                    firewall_chain: final(m).network->0.firewall_chain,
                    ..net
                })
                &&& *final(m) == (VmMetadata { network: final(m).network, ..*old(m) })
            },
        },
{
    match &m.network {
        None => {},
        Some(net) => {
            let mut net = net.clone();
            net.firewall_chain = Some(chain.to_owned());
            m.network = Some(net);
        },
    }
}

/// The warning about a record that could not be changed.
pub fn update_warning(name: &str, e: &Error) -> (r: String)
    ensures
        r@ == "Warning: failed to update VM '"@ + name@ + "' state: "@ + error_text(e@),
{
    let cause = e.to_string();
    "Warning: failed to update VM '".to_owned().concat(name).concat("' state: ").concat(
        cause.as_str(),
    )
}

/// The warning about a chain that could not be recorded.
pub fn record_warning(name: &str, e: &Error) -> (r: String)
    ensures
        r@ == "Warning: failed to record the firewall chain for VM '"@ + name@ + "': "@
            + error_text(e@),
{
    let cause = e.to_string();
    "Warning: failed to record the firewall chain for VM '".to_owned().concat(name).concat(
        "': ",
    ).concat(cause.as_str())
}

/// A machine that runs, or that is not said to run, is left alone.
pub proof fn law_others_are_left_alone(vm: VmMetadata, i: int, alive: bool, configured: bool)
    requires
        runs(vm, alive) || !vm.status.spec_is_active(),
    ensures
        about(vm, i, alive, configured) == Seq::<ReconcileView>::empty(),
{
}

/// A machine that is said to run and does not is marked stopped, and that comes
/// last.
pub proof fn law_the_dead_are_marked(vm: VmMetadata, i: int, alive: bool, configured: bool)
    requires
        vm.status.spec_is_active(),
        !runs(vm, alive),
    ensures
        about(vm, i, alive, configured).len() > 0,
        about(vm, i, alive, configured).last() == ReconcileView::MarkStopped(i),
{
}

/// Once all is done that there is to do, there is nothing left to do.
pub proof fn law_reconciling_is_idempotent(vm: VmMetadata, i: int, alive: bool, configured: bool)
    ensures
        about(
            VmMetadata { status: VmStatus::Stopped, pid: None, network: None, ..vm },
            i,
            alive,
            configured,
        ) == Seq::<ReconcileView>::empty(),
{
}

/// No device of a machine that runs is taken for unused, and every other one
/// is.
pub proof fn law_unused_devices(devices: Seq<Seq<char>>, active: Seq<Seq<char>>, n: int)
    requires
        0 <= n <= devices.len(),
    ensures
        forall|d: Seq<char>| #[trigger]
            unused(devices, active, n).contains(d) <==> devices.take(n).contains(d)
                && !active.contains(d),
    decreases n,
{
    if n > 0 {
        law_unused_devices(devices, active, n - 1);
        let before = unused(devices, active, n - 1);
        let x = devices[n - 1];
        let less = devices.take(n - 1);
        assert(devices.take(n) =~= devices.take(n - 1).push(x));
        assert forall|d: Seq<char>| #[trigger]
            unused(devices, active, n).contains(d) <==> devices.take(n).contains(d)
                && !active.contains(d) by {
            assert(before.contains(d) <==> devices.take(n - 1).contains(d) && !active.contains(d));
            if devices.take(n).contains(d) {
                let k = choose|k: int| 0 <= k < n && devices.take(n)[k] == d;
                if k < n - 1 {
                    assert(devices.take(n - 1)[k] == d);
                }
            }
            if devices.take(n - 1).contains(d) {
                let k = choose|k: int| 0 <= k < less.len() && less[k] == d;
                assert(devices.take(n)[k] == d);
            }
            if d == x {
                assert(devices.take(n)[n - 1] == d);
                assert(before.push(x)[before.len() as int] == x);
            }
            if before.contains(d) {
                let k = choose|k: int| 0 <= k < before.len() && before[k] == d;
                assert(before.push(x)[k] == d);
            }
            if before.push(x).contains(d) {
                let k = choose|k: int| 0 <= k <= before.len() && before.push(x)[k] == d;
                if k < before.len() {
                    assert(before[k] == d);
                }
            }
        }
    } else {
        assert(devices.take(0) =~= seq![]);
    }
}

} // verus!
