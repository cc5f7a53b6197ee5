//! Running machines on macOS.

use vstd::prelude::*;
use vstd::string::*;

use crate::backend::StartedVm;
use crate::command::{given, Invocation, InvocationView};
use crate::config::GlobalConfig;
use crate::error::{outcome, Error, ErrorView};
use crate::path::{join, joined};
use crate::text::{dec, dec_signed, decimal, decimal_signed, opt_text, trim, trimmed};
use crate::vm::{NetworkInfo, VmMetadata};

verus! {

/// What a kernel is told, unless asked for something else.
pub const DEFAULT_BOOT_ARGS: &'static str = "console=hvc0 root=/dev/vda rw";

/// How long a machine may take to report that it runs.
pub const READY_TIMEOUT_SECS: u64 = 30;

/// How long a machine may take to shut down.
pub const GRACEFUL_SHUTDOWN_MS: u64 = 10000;

/// How long a process may take to end once it was killed.
pub const FORCE_KILL_MS: u64 = 5000;

/// Machines that run on macOS.
#[derive(Debug, Clone, Copy)]
pub struct MacosVm;

/// The network of machines that run on macOS.
#[derive(Debug, Clone, Copy)]
pub struct MacosNetwork;

/// What a machine is told of its kernel.
pub open spec fn boot_args_of(vm: VmMetadata) -> Seq<char> {
    match vm.boot_args {
        Some(a) => a@,
        None => DEFAULT_BOOT_ARGS@,
    }
}

/// The call that runs a machine.
pub open spec fn start_call(vm: VmMetadata, state_dir: Seq<char>, ready_fd: int) -> InvocationView {
    InvocationView {
        program: "ember-vz"@,
        args: seq![
            "start"@,
            "--kernel"@,
            vm.kernel_path@,
            "--disk"@,
            vm.disk_path@,
            "--cpus"@,
            dec(vm.cpus as nat),
            "--memory"@,
            dec(vm.memory_mib as nat),
            "--boot-args"@,
            boot_args_of(vm),
            "--network"@,
            "shared"@,
            "--serial-log"@,
            joined(
                joined(joined(state_dir, "vms"@), vm.name@),
                "console.log"@,
            ),
            "--ready-fd"@,
            dec_signed(ready_fd),
        ],
        label: "ember-vz"@,
        start_label: "ember-vz"@,
    }
}

impl MacosVm {
    /// The call that runs a machine. It writes the address of its network device to
    /// the file descriptor `ready_fd` once it runs.
    pub fn start(vm: &VmMetadata, config: &GlobalConfig, ready_fd: i32) -> (r: Invocation)
        ensures
            r@ == start_call(*vm, config.state_dir@, ready_fd as int),
    {
        let dir = join(config.state_dir.as_str(), "vms");
        let dir = join(dir.as_str(), vm.name.as_str());
        let log = join(dir.as_str(), "console.log");
        let cpus = decimal(vm.cpus as u64);
        let memory = decimal(vm.memory_mib as u64);
        let fd = decimal_signed(ready_fd);
        let boot_args = match &vm.boot_args {
            Some(a) => a.as_str(),
            None => DEFAULT_BOOT_ARGS,
        };
        Invocation::new("ember-vz", "ember-vz").arg("start").arg("--kernel").arg(
            vm.kernel_path.as_str(),
        ).arg("--disk").arg(vm.disk_path.as_str()).arg("--cpus").arg(cpus.as_str()).arg(
            "--memory",
        ).arg(memory.as_str()).arg("--boot-args").arg(boot_args).arg("--network").arg("shared").arg(
            "--serial-log",
        ).arg(log.as_str()).arg("--ready-fd").arg(fd.as_str())
    }
}

/// What waiting for a machine to report led to.
#[derive(Debug, PartialEq)]
pub enum Ready {
    /// Waiting failed.
    PollFailed(String),
    TimedOut,
    /// The line could not be read.
    ReadFailed(String),
    /// It wrote this line.
    Line(String),
}

/// The address of the network device of a machine, or why there is none.
pub open spec fn reported(ready: Ready) -> Result<Seq<char>, ErrorView> {
    match ready {
        Ready::PollFailed(why) => Err(ErrorView::Network("poll on ready-fd failed: "@ + why@)),
        Ready::TimedOut => Err(
            ErrorView::Network(
                "timed out waiting for ember-vz to report VM readiness ("@ + dec(
                    READY_TIMEOUT_SECS as nat,
                ) + "s)"@,
            ),
        ),
        Ready::ReadFailed(why) => Err(
            ErrorView::Network("failed to read MAC from ready-fd: "@ + why@),
        ),
        Ready::Line(line) => if trimmed(line@).len() == 0 {
            Err(
                ErrorView::Network(
                    "ember-vz closed ready-fd without writing MAC address (VM may have crashed)"@,
                ),
            )
        } else {
            Ok(trimmed(line@))
        },
    }
}

/// The address of the network device of a machine that reported.
pub fn read_mac_from_ready_fd(ready: &Ready) -> (r: Result<String, Error>)
    ensures
        match r {
            Ok(mac) => reported(*ready) == Ok::<Seq<char>, ErrorView>(mac@),
            Err(e) => reported(*ready) == Err::<Seq<char>, ErrorView>(e@),
        },
{
    match ready {
        Ready::PollFailed(why) => Err(
            Error::Network("poll on ready-fd failed: ".to_owned().concat(why.as_str())),
        ),
        Ready::TimedOut => {
            let n = decimal(READY_TIMEOUT_SECS);
            Err(
                Error::Network(
                    "timed out waiting for ember-vz to report VM readiness (".to_owned().concat(
                        n.as_str(),
                    ).concat("s)"),
                ),
            )
        },
        Ready::ReadFailed(why) => Err(
            Error::Network("failed to read MAC from ready-fd: ".to_owned().concat(why.as_str())),
        ),
        Ready::Line(line) => {
            let mac = trim(line.as_str());
            if mac.is_empty() {
                Err(
                    Error::Network(
                        "ember-vz closed ready-fd without writing MAC address (VM may have crashed)".to_owned(),
                    ),
                )
            } else {
                Ok(mac.to_owned())
            }
        },
    }
}

/// Whether `r` is the network of a machine that runs: what was known of it before,
/// with the address of its device.
pub open spec fn connected(before: Option<NetworkInfo>, mac: Seq<char>, r: NetworkInfo) -> bool {
    &&& opt_text(r.guest_mac) == Some(mac)
    &&& match before {
        Some(net) => r == (NetworkInfo { guest_mac: r.guest_mac, ..net }),
        None => {
            &&& r.tap_device@ == ""@
            &&& r.host_ip@ == ""@
            &&& r.guest_ip@ == ""@
            &&& r.netmask@ == ""@
            &&& r.wan_iface is None
            &&& r.firewall_chain is None
        },
    }
}

/// The network of a machine that runs: what was known of it before, with the
/// address of its device.
pub fn started_network(vm: &VmMetadata, mac: &str) -> (r: NetworkInfo)
    ensures
        connected(vm.network, mac@, r),
{
    match &vm.network {
        Some(net) => {
            let mut net = net.clone();
            net.guest_mac = Some(mac.to_owned());
            net
        },
        None => NetworkInfo {
            tap_device: "".to_owned(),
            host_ip: "".to_owned(),
            guest_ip: "".to_owned(),
            netmask: "".to_owned(),
            guest_mac: Some(mac.to_owned()),
            wan_iface: None,
            firewall_chain: None,
        },
    }
}

/// Why a machine did not start, and what is to be done about its process.
#[derive(Debug)]
pub struct StartFailure {
    pub kill: StopAction,
    pub error: Error,
}

impl MacosVm {
    /// A machine whose process was started, once it reported or did not. The
    /// process of one that did not is killed.
    pub fn finish_start(vm: &VmMetadata, pid: u32, ready: &Ready) -> (r: Result<
        StartedVm,
        StartFailure,
    >)
        ensures
            match (r, reported(*ready)) {
                (Ok(s), Ok(mac)) => s.pid == pid && connected(vm.network, mac, s.network),
                (Err(f), Err(e)) => f.kill == StopAction::Kill(pid) && f.error@ == e,
                _ => false,
            },
    {
        match read_mac_from_ready_fd(ready) {
            Ok(mac) => Ok(StartedVm { pid, network: started_network(vm, mac.as_str()) }),
            Err(error) => Err(StartFailure { kill: StopAction::Kill(pid), error }),
        }
    }
}

/// The error for a machine without a process.
pub open spec fn no_pid(name: Seq<char>) -> ErrorView {
    ErrorView::Network("vm '"@ + name + "' has no PID"@)
}

/// The process of a machine, or the error for one without.
pub fn pid_of(vm: &VmMetadata) -> (r: Result<u32, Error>)
    ensures
        outcome(r) == (match vm.pid {
            Some(pid) => Ok::<u32, ErrorView>(pid),
            None => Err(no_pid(vm.name@)),
        }),
{
    match vm.pid {
        Some(pid) => Ok(pid),
        None => Err(
            Error::Network("vm '".to_owned().concat(vm.name.as_str()).concat("' has no PID")),
        ),
    }
}

/// What is sent to a process.
#[derive(Debug, Clone, Copy, PartialEq, Eq, Structural)]
pub enum Signal {
    Terminate,
    Kill,
}

impl Signal {
    /// What the signal is called.
    pub open spec fn named(self) -> Seq<char> {
        match self {
            Signal::Terminate => "SIGTERM"@,
            Signal::Kill => "SIGKILL"@,
        }
    }
}

/// Something to do to stop a machine.
#[derive(Debug, Clone, Copy, PartialEq, Eq, Structural)]
pub enum StopAction {
    /// Ask the process to end.
    Terminate(u32),
    /// Kill the process.
    Kill(u32),
    /// Wait for the process to end, so many milliseconds at most.
    Wait(u32, u64),
    /// There is nothing more to do.
    Done,
    /// Fail with the error for a signal that could not be sent to this process.
    Fail(Signal, u32),
}

/// Where stopping a machine stands.
#[derive(Debug, Clone, Copy, PartialEq, Eq, Structural)]
pub enum StopState {
    Terminating(u32),
    WaitingForShutdown(u32),
    /// The process is killed because it did not end in time.
    Killing(u32),
    /// The process is killed because that was asked for.
    KillingAtOnce(u32),
    WaitingForKill(u32),
    Stopped,
}

/// What stopping a machine starts with.
pub open spec fn first_of_stop(pid: u32, running: bool, force: bool) -> (StopState, StopAction) {
    if !running {
        (StopState::Stopped, StopAction::Done)
    } else if force {
        (StopState::KillingAtOnce(pid), StopAction::Kill(pid))
    } else {
        (StopState::Terminating(pid), StopAction::Terminate(pid))
    }
}

fn begin_stop(vm: &VmMetadata, running: bool, force: bool) -> (r: Result<
    (StopState, StopAction),
    Error,
>)
    ensures
        outcome(r) == (match vm.pid {
            Some(pid) => Ok::<(StopState, StopAction), ErrorView>(
                first_of_stop(pid, running, force),
            ),
            None => Err(no_pid(vm.name@)),
        }),
{
    match pid_of(vm) {
        Err(e) => Err(e),
        Ok(pid) => {
            if !running {
                Ok((StopState::Stopped, StopAction::Done))
            } else if force {
                Ok((StopState::KillingAtOnce(pid), StopAction::Kill(pid)))
            } else {
                Ok((StopState::Terminating(pid), StopAction::Terminate(pid)))
            }
        },
    }
}

impl MacosVm {
    /// What stopping a machine starts with: nothing is done to one that does not
    /// run.
    pub fn stop(vm: &VmMetadata, running: bool) -> (r: Result<(StopState, StopAction), Error>)
        ensures
            outcome(r) == (match vm.pid {
                Some(pid) => Ok::<(StopState, StopAction), ErrorView>(
                    first_of_stop(pid, running, false),
                ),
                None => Err(no_pid(vm.name@)),
            }),
    {
        begin_stop(vm, running, false)
    }

    /// What stopping a machine at once starts with.
    pub fn force_stop(vm: &VmMetadata, running: bool) -> (r: Result<
        (StopState, StopAction),
        Error,
    >)
        ensures
            outcome(r) == (match vm.pid {
                Some(pid) => Ok::<(StopState, StopAction), ErrorView>(
                    first_of_stop(pid, running, true),
                ),
                None => Err(no_pid(vm.name@)),
            }),
    {
        begin_stop(vm, running, true)
    }
}

/// What stopping a machine goes on with, given whether the last action
/// succeeded; for a wait, whether the process ended. That the process cannot be
/// killed counts only where killing it was asked for.
pub open spec fn next_of_stop(state: StopState, ok: bool) -> (StopState, StopAction) {
    match state {
        StopState::Terminating(pid) => if ok {
            (StopState::WaitingForShutdown(pid), StopAction::Wait(pid, GRACEFUL_SHUTDOWN_MS))
        } else {
            (StopState::Stopped, StopAction::Fail(Signal::Terminate, pid))
        },
        StopState::WaitingForShutdown(pid) => if ok {
            (StopState::Stopped, StopAction::Done)
        } else {
            (StopState::Killing(pid), StopAction::Kill(pid))
        },
        StopState::KillingAtOnce(pid) => if ok {
            (StopState::WaitingForKill(pid), StopAction::Wait(pid, FORCE_KILL_MS))
        } else {
            (StopState::Stopped, StopAction::Fail(Signal::Kill, pid))
        },
        StopState::Killing(pid) => (
            StopState::WaitingForKill(pid),
            StopAction::Wait(pid, FORCE_KILL_MS),
        ),
        StopState::WaitingForKill(_) => (StopState::Stopped, StopAction::Done),
        StopState::Stopped => (StopState::Stopped, StopAction::Done),
    }
}

/// What stopping a machine goes on with.
pub fn continue_stop(state: StopState, ok: bool) -> (r: (StopState, StopAction))
    ensures
        r == next_of_stop(state, ok),
{
    match state {
        StopState::Terminating(pid) => {
            if ok {
                (StopState::WaitingForShutdown(pid), StopAction::Wait(pid, GRACEFUL_SHUTDOWN_MS))
            } else {
                (StopState::Stopped, StopAction::Fail(Signal::Terminate, pid))
            }
        },
        StopState::KillingAtOnce(pid) => {
            if ok {
                (StopState::WaitingForKill(pid), StopAction::Wait(pid, FORCE_KILL_MS))
            } else {
                (StopState::Stopped, StopAction::Fail(Signal::Kill, pid))
            }
        },
        StopState::WaitingForShutdown(pid) => {
            if ok {
                (StopState::Stopped, StopAction::Done)
            } else {
                (StopState::Killing(pid), StopAction::Kill(pid))
            }
        },
        StopState::Killing(pid) => (
            StopState::WaitingForKill(pid),
            StopAction::Wait(pid, FORCE_KILL_MS),
        ),
        StopState::WaitingForKill(_) => (StopState::Stopped, StopAction::Done),
        StopState::Stopped => (StopState::Stopped, StopAction::Done),
    }
}

/// The error for a signal that could not be sent.
pub fn signal_error(signal: Signal, pid: u32, why: &str) -> (r: Error)
    ensures
        r@ == ErrorView::Network(
            "failed to send "@ + signal.named() + " to ember-vz (pid "@ + dec(pid as nat) + "): "@
                + why@,
        ),
{
    let name: &str = match signal {
        Signal::Terminate => "SIGTERM",
        Signal::Kill => "SIGKILL",
    };
    let n = decimal(pid as u64);
    Error::Network(
        "failed to send ".to_owned().concat(name).concat(" to ember-vz (pid ").concat(
            n.as_str(),
        ).concat("): ").concat(why),
    )
}

/// What is left of stopping a machine, at most.
pub open spec fn stop_rank(state: StopState) -> nat {
    match state {
        StopState::Terminating(_) => 4,
        StopState::WaitingForShutdown(_) => 3,
        StopState::Killing(_) => 2,
        StopState::KillingAtOnce(_) => 2,
        StopState::WaitingForKill(_) => 1,
        StopState::Stopped => 0,
    }
}

/// Stopping a machine comes to an end, whatever happens on the way.
pub proof fn law_stopping_ends(state: StopState, ok: bool)
    requires
        state != StopState::Stopped,
    ensures
        stop_rank(next_of_stop(state, ok).0) < stop_rank(state),
        next_of_stop(state, ok).1 is Done || next_of_stop(state, ok).1 is Fail <==> next_of_stop(
            state,
            ok,
        ).0 == StopState::Stopped,
{
}

/// A process is killed only when that was asked for or it did not end in time.
pub proof fn law_killed_as_a_last_resort(state: StopState, ok: bool)
    requires
        next_of_stop(state, ok).1 is Kill,
    ensures
        state is WaitingForShutdown,
        !ok,
{
}

impl MacosNetwork {
    /// The network of an installation.
    pub fn new() -> (r: MacosNetwork)
        ensures
            r == MacosNetwork,
    {
        MacosNetwork
    }

    /// The network that machines share on macOS: their addresses come from the
    /// host, so that of a machine is not known when it starts.
    pub fn setup(&self) -> (r: NetworkInfo)
        ensures
            r.tap_device@ == ""@,
            r.host_ip@ == "192.168.64.1"@,
            r.guest_ip@ == "pending"@,
            r.netmask@ == "255.255.255.0"@,
            r.guest_mac is None,
            r.wan_iface is None,
            r.firewall_chain is None,
    {
        NetworkInfo {
            tap_device: "".to_owned(),
            host_ip: "192.168.64.1".to_owned(),
            guest_ip: "pending".to_owned(),
            netmask: "255.255.255.0".to_owned(),
            guest_mac: None,
            wan_iface: None,
            firewall_chain: None,
        }
    }
}

/// A machine is run as its record says: with its kernel and what that is told, with its
/// disk, its processors and its memory; it writes to a log in its own directory, and says
/// when it runs where that is waited for.
pub proof fn law_a_machine_is_run_as_recorded(
    vm: VmMetadata,
    state_dir: Seq<char>,
    ready_fd: int,
)
    ensures
        ({
            let c = start_call(vm, state_dir, ready_fd);
            &&& c.program == "ember-vz"@ && c.args.len() > 0 && c.args[0] == "start"@
            &&& given(c.args, "--kernel"@, vm.kernel_path@)
            &&& given(c.args, "--disk"@, vm.disk_path@)
            &&& given(c.args, "--cpus"@, dec(vm.cpus as nat))
            &&& given(c.args, "--memory"@, dec(vm.memory_mib as nat))
            &&& vm.boot_args matches Some(b) ==> given(c.args, "--boot-args"@, b@)
            &&& vm.boot_args is None ==> given(
                c.args,
                "--boot-args"@,
                "console=hvc0 root=/dev/vda rw"@,
            )
            &&& given(
                c.args,
                "--serial-log"@,
                joined(crate::store::vm_dir_of(state_dir, vm.name@), "console.log"@),
            )
            &&& given(c.args, "--ready-fd"@, dec_signed(ready_fd))
        }),
{
    let a = start_call(vm, state_dir, ready_fd).args;
    assert(a[1] == "--kernel"@ && a[3] == "--disk"@ && a[5] == "--cpus"@ && a[7] == "--memory"@
        && a[9] == "--boot-args"@ && a[13] == "--serial-log"@ && a[15] == "--ready-fd"@);
}

} // verus!
