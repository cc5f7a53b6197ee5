//! The program that runs machines.

use vstd::prelude::*;
use vstd::string::*;

use crate::command::{given, Invocation, InvocationView};
use crate::error::answer;
use crate::path::{extended, renamed, with_extension, with_file_name};
use crate::text::{
    copy_text, dec, decimal, lemma_pieces_more, lemma_pieces_one, opt_text, pieces,
};

verus! {

/// What a kernel is told, unless asked for something else.
pub const DEFAULT_BOOT_ARGS: &'static str = "console=ttyS0 reboot=k panic=1 pci=off";

/// What a process may take beyond the memory of its machine, in MiB.
pub const MEMORY_HEADROOM_MIB: u32 = 128;

/// How long a socket may take to show.
pub const SOCKET_TIMEOUT_MS: u64 = 5000;

/// The pause between two looks at a socket.
pub const SOCKET_POLL_MS: u64 = 10;

/// The pause between two looks at a process.
pub const EXIT_POLL_MS: u64 = 50;

/// The arguments of the program itself.
pub open spec fn own_args(socket: Seq<char>, log: Seq<char>) -> Seq<Seq<char>> {
    seq!["--api-sock"@, socket, "--log-path"@, log, "--level"@, "Info"@]
}

/// The limits that a machine runs under.
pub open spec fn scope_args(vcpu_count: u32, mem_size_mib: u32) -> Seq<Seq<char>> {
    seq![
        "--scope"@,
        "--quiet"@,
        "--slice=ember.slice"@,
        "-p"@,
        "MemoryMax="@ + dec((mem_size_mib + MEMORY_HEADROOM_MIB) as nat) + "M"@,
        "-p"@,
        "MemorySwapMax=0"@,
        "-p"@,
        "CPUQuota="@ + dec((vcpu_count * 100) as nat) + "%"@,
        "-p"@,
        "CPUWeight=50"@,
        "-p"@,
        "IOWeight=50"@,
        "--"@,
    ]
}

/// The call that runs a machine under limits on what it may take.
pub open spec fn spawn_call(socket_path: Seq<char>, log_path: Seq<char>, vcpu_count: u32, mem_size_mib: u32) -> InvocationView {
    InvocationView {
        program: "systemd-run"@,
        args: scope_args(vcpu_count, mem_size_mib) + seq!["firecracker"@] + own_args(
            socket_path,
            log_path,
        ),
        label: "systemd-run"@,
        start_label: "systemd-run"@,
    }
}

/// The call that runs a machine under limits on what it may take.
pub fn spawn(socket_path: &str, log_path: &str, vcpu_count: u32, mem_size_mib: u32) -> (r:
    Invocation)
    requires
        mem_size_mib + MEMORY_HEADROOM_MIB <= u32::MAX,
        vcpu_count * 100 <= u32::MAX,
    ensures
        r@ == spawn_call(socket_path@, log_path@, vcpu_count, mem_size_mib),
{
    let mem = decimal((mem_size_mib + MEMORY_HEADROOM_MIB) as u64);
    let quota = decimal((vcpu_count * 100) as u64);
    let mem = "MemoryMax=".to_owned().concat(mem.as_str()).concat("M");
    let quota = "CPUQuota=".to_owned().concat(quota.as_str()).concat("%");
    let call = Invocation::new("systemd-run", "systemd-run").arg("--scope").arg("--quiet").arg(
        "--slice=ember.slice",
    ).arg("-p").arg(mem.as_str()).arg("-p").arg("MemorySwapMax=0").arg("-p").arg(
        quota.as_str(),
    ).arg("-p").arg("CPUWeight=50").arg("-p").arg("IOWeight=50").arg("--");
    assert(call@.args =~= scope_args(vcpu_count, mem_size_mib));
    let call = call.arg("firecracker").arg("--api-sock").arg(socket_path).arg("--log-path").arg(
        log_path,
    ).arg("--level").arg("Info");
    assert(call@.args =~= scope_args(vcpu_count, mem_size_mib) + seq!["firecracker"@] + own_args(
        socket_path@,
        log_path@,
    ));
    call
}

/// The call that runs a machine without limits.
pub open spec fn plain_call(socket_path: Seq<char>, log_path: Seq<char>) -> InvocationView {
    InvocationView {
        program: "firecracker"@,
        args: own_args(socket_path, log_path),
        label: "firecracker"@,
        start_label: "firecracker"@,
    }
}

/// The call that runs a machine without limits.
pub fn spawn_unlimited(socket_path: &str, log_path: &str) -> (r: Invocation)
    ensures
        r@ == plain_call(socket_path@, log_path@),
{
    Invocation::new("firecracker", "firecracker").arg("--api-sock").arg(socket_path).arg(
        "--log-path",
    ).arg(log_path).arg("--level").arg("Info")
}

/// The error for a machine that could not be run under limits.
pub fn spawn_error(why: &str) -> (r: String)
    ensures
        r@ == "failed to spawn firecracker under systemd-run: "@ + why@
            + "\nHint: are 'systemd-run' and 'firecracker' installed and in PATH?"@,
{
    "failed to spawn firecracker under systemd-run: ".to_owned().concat(why).concat(
        "\nHint: are 'systemd-run' and 'firecracker' installed and in PATH?",
    )
}

/// The error for a machine that could not be run.
pub fn spawn_unlimited_error(why: &str) -> (r: String)
    ensures
        r@ == "failed to spawn firecracker: "@ + why@
            + "\nHint: is the 'firecracker' binary installed and in PATH?"@,
{
    "failed to spawn firecracker: ".to_owned().concat(why).concat(
        "\nHint: is the 'firecracker' binary installed and in PATH?",
    )
}

/// The file that what a machine prints goes to: it lies beside the log.
pub fn console_log(log_path: &str) -> (r: String)
    ensures
        r@ == renamed(log_path@, "console.log"@),
{
    with_file_name(log_path, "console.log")
}

/// The error for a file that what a machine prints could not go to.
pub fn console_error(path: &str) -> (r: String)
    ensures
        r@ == "failed to create console log at "@ + path@,
{
    "failed to create console log at ".to_owned().concat(path)
}

/// What to do after a look at something that is waited for.
#[derive(Debug, Clone, Copy, PartialEq, Eq, Structural)]
pub enum Poll {
    /// Look again after so many milliseconds.
    Again(u64),
    /// The wait is over; `true` when it was not in vain.
    Over(bool),
}

/// What to do after a look at a socket.
pub open spec fn socket_poll(elapsed_ms: u64, there: bool) -> Poll {
    if elapsed_ms >= SOCKET_TIMEOUT_MS {
        Poll::Over(false)
    } else if there {
        Poll::Over(true)
    } else {
        Poll::Again(SOCKET_POLL_MS)
    }
}

/// What to do after a look at a socket.
pub fn wait_for_socket(elapsed_ms: u64, there: bool) -> (r: Poll)
    ensures
        r == socket_poll(elapsed_ms, there),
{
    if elapsed_ms >= SOCKET_TIMEOUT_MS {
        Poll::Over(false)
    } else if there {
        Poll::Over(true)
    } else {
        Poll::Again(SOCKET_POLL_MS)
    }
}

/// The error for a socket that did not show. What went wrong is in the file beside
/// it.
pub fn socket_timeout(socket_path: &str) -> (r: String)
    ensures
        r@ == "firecracker API socket did not appear at "@ + socket_path@
            + " within 5s\nHint: check "@ + extended(socket_path@, "log"@) + " for errors"@,
{
    proof {
        reveal_strlit("log");
    }
    let log_path = with_extension(socket_path, "log");
    "firecracker API socket did not appear at ".to_owned().concat(socket_path).concat(
        " within 5s\nHint: check ",
    ).concat(log_path.as_str()).concat(" for errors")
}

/// What to do after a look at a process that is to end.
pub open spec fn exit_poll(elapsed_ms: u64, timeout_ms: u64, alive: bool) -> Poll {
    if !alive {
        Poll::Over(true)
    } else if elapsed_ms >= timeout_ms {
        Poll::Over(false)
    } else {
        Poll::Again(EXIT_POLL_MS)
    }
}

/// What to do after a look at a process that is to end. At the last look it may
/// just have ended.
pub fn wait_for_exit(elapsed_ms: u64, timeout_ms: u64, alive: bool) -> (r: Poll)
    ensures
        r == exit_poll(elapsed_ms, timeout_ms, alive),
{
    if elapsed_ms < timeout_ms {
        if !alive {
            Poll::Over(true)
        } else {
            Poll::Again(EXIT_POLL_MS)
        }
    } else {
        Poll::Over(!alive)
    }
}

/// How killing a process went. That it is gone already is no failure.
#[derive(Debug, PartialEq)]
pub enum KillResult {
    Sent,
    NoSuchProcess,
    Failed(String),
}

/// Whether a process is as good as killed.
pub fn kill(pid: u32, result: &KillResult) -> (r: Result<(), String>)
    ensures
        answer(r) == (match result {
            KillResult::Failed(why) => Err::<(), Seq<char>>(
                "failed to kill firecracker process (pid "@ + dec(pid as nat) + "): "@ + why@,
            ),
            _ => Ok(()),
        }),
{
    match result {
        KillResult::Sent => Ok(()),
        KillResult::NoSuchProcess => Ok(()),
        KillResult::Failed(why) => {
            let n = decimal(pid as u64);
            Err(
                "failed to kill firecracker process (pid ".to_owned().concat(n.as_str()).concat(
                    "): ",
                ).concat(why.as_str()),
            )
        },
    }
}

/// How a machine is connected.
#[derive(Debug, PartialEq)]
pub struct VmNetworkConfig {
    pub tap_device: String,
    pub guest_ip: String,
    pub gateway_ip: String,
    pub netmask: String,
    pub guest_mac: Option<String>,
}

/// What a machine is made of.
#[derive(Debug, PartialEq)]
pub struct VmConfig {
    pub vcpu_count: u32,
    pub mem_size_mib: u32,
    pub kernel_image_path: String,
    pub boot_args: String,
    pub rootfs_path: String,
    pub network: Option<VmNetworkConfig>,
}

/// Something to tell the program, in this order.
#[derive(Debug, PartialEq)]
pub enum ApiRequest {
    MachineConfig { vcpu_count: u32, mem_size_mib: u32 },
    BootSource { kernel_image_path: String, boot_args: String },
    Drive { drive_id: String, path_on_host: String, is_root_device: bool, is_read_only: bool },
    NetworkInterface { iface_id: String, host_dev_name: String, guest_mac: Option<String> },
    InstanceStart,
}

/// An [`ApiRequest`], its strings taken by their texts.
#[verifier::ext_equal]
pub enum ApiView {
    MachineConfig { vcpu_count: u32, mem_size_mib: u32 },
    BootSource { kernel_image_path: Seq<char>, boot_args: Seq<char> },
    Drive {
        drive_id: Seq<char>,
        path_on_host: Seq<char>,
        is_root_device: bool,
        is_read_only: bool,
    },
    NetworkInterface {
        iface_id: Seq<char>,
        host_dev_name: Seq<char>,
        guest_mac: Option<Seq<char>>,
    },
    InstanceStart,
}

impl View for ApiRequest {
    type V = ApiView;

    open spec fn view(&self) -> ApiView {
        match self {
            ApiRequest::MachineConfig { vcpu_count, mem_size_mib } => ApiView::MachineConfig {
                vcpu_count: *vcpu_count,
                mem_size_mib: *mem_size_mib,
            },
            ApiRequest::BootSource { kernel_image_path, boot_args } => ApiView::BootSource {
                kernel_image_path: kernel_image_path@,
                boot_args: boot_args@,
            },
            ApiRequest::Drive { drive_id, path_on_host, is_root_device, is_read_only } =>
                ApiView::Drive {
                drive_id: drive_id@,
                path_on_host: path_on_host@,
                is_root_device: *is_root_device,
                is_read_only: *is_read_only,
            },
            ApiRequest::NetworkInterface { iface_id, host_dev_name, guest_mac } =>
                ApiView::NetworkInterface {
                iface_id: iface_id@,
                host_dev_name: host_dev_name@,
                guest_mac: opt_text(*guest_mac),
            },
            ApiRequest::InstanceStart => ApiView::InstanceStart,
        }
    }
}

/// The views of a list of requests.
pub open spec fn request_views(list: Seq<ApiRequest>) -> Seq<ApiView> {
    list.map_values(|r: ApiRequest| r@)
}

impl VmConfig {
    /// A machine without a network, whose kernel is told the usual.
    pub fn new(
        vcpu_count: u32,
        mem_size_mib: u32,
        kernel_image_path: &str,
        rootfs_path: &str,
    ) -> (r: VmConfig)
        ensures
            r.vcpu_count == vcpu_count,
            r.mem_size_mib == mem_size_mib,
            r.kernel_image_path@ == kernel_image_path@,
            r.boot_args@ == DEFAULT_BOOT_ARGS@,
            r.rootfs_path@ == rootfs_path@,
            r.network is None,
    {
        VmConfig {
            vcpu_count,
            mem_size_mib,
            kernel_image_path: kernel_image_path.to_owned(),
            boot_args: DEFAULT_BOOT_ARGS.to_owned(),
            rootfs_path: rootfs_path.to_owned(),
            network: None,
        }
    }

    /// The machine, its kernel told something else.
    pub fn with_boot_args(self, args: &str) -> (r: VmConfig)
        ensures
            r.boot_args@ == args@,
            r == (VmConfig { boot_args: r.boot_args, ..self }),
    {
        let mut r = self;
        r.boot_args = args.to_owned();
        r
    }

    /// The machine with a network.
    pub fn with_network(self, network: VmNetworkConfig) -> (r: VmConfig)
        ensures
            r == (VmConfig { network: Some(network), ..self }),
    {
        let mut r = self;
        r.network = Some(network);
        r
    }

    /// What the kernel is told, its network included.
    pub open spec fn kernel_args(self) -> Seq<char> {
        match self.network {
            Some(net) => self.boot_args@ + " ip="@ + net.guest_ip@ + "::"@ + net.gateway_ip@
                + ":"@ + net.netmask@ + "::eth0:off"@,
            None => self.boot_args@,
        }
    }

    /// What the kernel is told, its network included.
    pub fn full_boot_args(&self) -> (r: String)
        ensures
            r@ == self.kernel_args(),
    {
        match &self.network {
            Some(net) => self.boot_args.clone().concat(" ip=").concat(
                net.guest_ip.as_str(),
            ).concat("::").concat(net.gateway_ip.as_str()).concat(":").concat(
                net.netmask.as_str(),
            ).concat("::eth0:off"),
            None => self.boot_args.clone(),
        }
    }

    /// What the program is told of the machine.
    pub open spec fn requests(self) -> Seq<ApiView> {
        seq![
            ApiView::MachineConfig {
                vcpu_count: self.vcpu_count,
                mem_size_mib: self.mem_size_mib,
            },
            ApiView::BootSource {
                kernel_image_path: self.kernel_image_path@,
                boot_args: self.kernel_args(),
            },
            ApiView::Drive {
                drive_id: "rootfs"@,
                path_on_host: self.rootfs_path@,
                is_root_device: true,
                is_read_only: false,
            },
        ] + (match self.network {
            None => seq![],
            Some(net) => seq![
                ApiView::NetworkInterface {
                    iface_id: "eth0"@,
                    host_dev_name: net.tap_device@,
                    guest_mac: opt_text(net.guest_mac),
                },
            ],
        })
    }

    /// What the program is told of the machine, in this order.
    pub fn configure(&self) -> (r: Vec<ApiRequest>)
        ensures
            request_views(r@) == self.requests(),
    {
        let mut r: Vec<ApiRequest> = Vec::new();
        r.push(
            ApiRequest::MachineConfig {
                vcpu_count: self.vcpu_count,
                mem_size_mib: self.mem_size_mib,
            },
        );
        r.push(
            ApiRequest::BootSource {
                kernel_image_path: self.kernel_image_path.clone(),
                boot_args: self.full_boot_args(),
            },
        );
        r.push(
            ApiRequest::Drive {
                drive_id: "rootfs".to_owned(),
                path_on_host: self.rootfs_path.clone(),
                is_root_device: true,
                is_read_only: false,
            },
        );
        match &self.network {
            None => {},
            Some(net) => {
                r.push(
                    ApiRequest::NetworkInterface {
                        iface_id: "eth0".to_owned(),
                        host_dev_name: net.tap_device.clone(),
                        guest_mac: copy_text(&net.guest_mac),
                    },
                );
            },
        }
        assert(request_views(r@) =~= self.requests());
        r
    }

    /// What the program is told for the machine to run, in this order.
    pub fn configure_and_start(&self) -> (r: Vec<ApiRequest>)
        ensures
            request_views(r@) == self.requests().push(ApiView::InstanceStart),
    {
        let mut r = self.configure();
        let ghost before = r@;
        r.push(ApiRequest::InstanceStart);
        assert(request_views(r@) =~= request_views(before).push(ApiView::InstanceStart));
        r
    }
}

// ---------------------------------------------------------------------
// What the program makes of it
// ---------------------------------------------------------------------

/// A disk of a machine, as the program has it.
#[verifier::ext_equal]
pub struct Disk {
    pub id: Seq<char>,
    pub path: Seq<char>,
    pub root: bool,
    pub writable: bool,
}

/// A connection of a machine, as the program has it.
#[verifier::ext_equal]
pub struct Port {
    pub guest_name: Seq<char>,
    pub host_device: Seq<char>,
    pub mac: Option<Seq<char>>,
}

/// What the program has been told of a machine.
#[verifier::ext_equal]
pub struct Machine {
    pub cpus: Option<u32>,
    pub memory_mib: Option<u32>,
    pub kernel: Option<Seq<char>>,
    pub kernel_args: Seq<char>,
    pub disks: Seq<Disk>,
    pub ports: Seq<Port>,
    pub booted: bool,
}

/// The machine of a program that was told nothing yet.
pub open spec fn blank() -> Machine {
    Machine {
        cpus: None,
        memory_mib: None,
        kernel: None,
        kernel_args: seq![],
        disks: seq![],
        ports: seq![],
        booted: false,
    }
}

/// What the program makes of one request; `None` where it refuses. A machine boots once,
/// when it has processors, a kernel and a disk to boot from, and is not changed then.
pub open spec fn heard(m: Machine, r: ApiView) -> Option<Machine> {
    if m.booted {
        None
    } else {
        match r {
            ApiView::MachineConfig { vcpu_count, mem_size_mib } => Some(
                Machine { cpus: Some(vcpu_count), memory_mib: Some(mem_size_mib), ..m },
            ),
            ApiView::BootSource { kernel_image_path, boot_args } => Some(
                Machine { kernel: Some(kernel_image_path), kernel_args: boot_args, ..m },
            ),
            ApiView::Drive { drive_id, path_on_host, is_root_device, is_read_only } => Some(
                Machine {
                    disks: m.disks.push(
                        Disk {
                            id: drive_id,
                            path: path_on_host,
                            root: is_root_device,
                            writable: !is_read_only,
                        },
                    ),
                    ..m
                },
            ),
            ApiView::NetworkInterface { iface_id, host_dev_name, guest_mac } => Some(
                Machine {
                    ports: m.ports.push(
                        Port {
                            guest_name: iface_id,
                            host_device: host_dev_name,
                            mac: guest_mac,
                        },
                    ),
                    ..m
                },
            ),
            ApiView::InstanceStart => if m.cpus is Some && m.kernel is Some && (exists|i: int|
                0 <= i < m.disks.len() && (#[trigger] m.disks[i]).root) {
                Some(Machine { booted: true, ..m })
            } else {
                None
            },
        }
    }
}

/// What the program makes of requests, one after the other.
pub open spec fn heard_all(m: Machine, list: Seq<ApiView>) -> Option<Machine>
    decreases list.len(),
{
    if list.len() == 0 {
        Some(m)
    } else {
        match heard_all(m, list.drop_last()) {
            Some(x) => heard(x, list.last()),
            None => None,
        }
    }
}

/// A machine boots with the processors, the memory and the kernel of its
/// configuration. It has one disk, which is the one it boots from and which it can
/// write to, and one connection where it has a network.
pub proof fn law_a_machine_boots_as_configured(c: VmConfig)
    ensures
        ({
            let end = heard_all(blank(), c.requests().push(ApiView::InstanceStart));
            &&& end is Some
            &&& end->0.booted
            &&& end->0.cpus == Some(c.vcpu_count)
            &&& end->0.memory_mib == Some(c.mem_size_mib)
            &&& end->0.kernel == Some(c.kernel_image_path@)
            &&& end->0.kernel_args == c.kernel_args()
            &&& end->0.disks == seq![
                Disk { id: "rootfs"@, path: c.rootfs_path@, root: true, writable: true },
            ]
            &&& end->0.ports == (match c.network {
                None => seq![],
                Some(net) => seq![
                    Port {
                        guest_name: "eth0"@,
                        host_device: net.tap_device@,
                        mac: opt_text(net.guest_mac),
                    },
                ],
            })
        }),
{
    let all = c.requests();
    let s1 = all.take(1);
    let s2 = all.take(2);
    let s3 = all.take(3);
    assert(s1.drop_last() =~= Seq::empty());
    assert(s2.drop_last() =~= s1);
    assert(s3.drop_last() =~= s2);
    let m0 = blank();
    let m1 = heard(m0, all[0])->0;
    let m2 = heard(m1, all[1])->0;
    let m3 = heard(m2, all[2])->0;
    assert(heard_all(m0, Seq::empty()) == Some(m0));
    assert(heard_all(m0, s1) == Some(m1));
    assert(heard_all(m0, s2) == Some(m2));
    assert(heard_all(m0, s3) == Some(m3));
    assert(m3.disks[0].root);
    if c.network is Some {
        assert(all.drop_last() =~= s3);
        assert(heard_all(m0, all) == heard(m3, all[3]));
    } else {
        assert(all =~= s3);
    }
    assert(all.push(ApiView::InstanceStart).drop_last() =~= all);
    let m4 = heard_all(m0, all)->0;
    assert(m4.disks[0].root);
}

/// The kernel of a machine with a network is told its address, the gateway and the
/// netmask, each in the field where a kernel looks for it, and to use them as they
/// are; of one without it is told nothing of the kind.
pub proof fn law_the_kernel_is_told_the_network(c: VmConfig)
    ensures
        match c.network {
            None => c.kernel_args() == c.boot_args@,
            Some(net) => {
                let no_colon = |t: Seq<char>| !t.contains(':');
                no_colon(net.guest_ip@) && no_colon(net.gateway_ip@) && no_colon(net.netmask@)
                    ==> exists|told: Seq<char>|
                    {
                        &&& c.kernel_args() == c.boot_args@ + " ip="@ + told
                        &&& #[trigger] pieces(told, ':') == seq![
                            net.guest_ip@,
                            seq![],
                            net.gateway_ip@,
                            net.netmask@,
                            seq![],
                            "eth0"@,
                            "off"@,
                        ]
                    }
            },
        },
{
    match c.network {
        None => {},
        Some(net) => {
            let g = net.guest_ip@;
            let w = net.gateway_ip@;
            let m = net.netmask@;
            let told = g + "::"@ + w + ":"@ + m + "::eth0:off"@;
            assert(c.kernel_args() =~= c.boot_args@ + " ip="@ + told);
            if !g.contains(':') && !w.contains(':') && !m.contains(':') {
                reveal_strlit("::");
                reveal_strlit(":");
                reveal_strlit("::eth0:off");
                reveal_strlit("eth0");
                reveal_strlit("off");
                let none = Seq::<char>::empty();
                let t2 = g + ":"@ + none;
                let t3 = t2 + ":"@ + w;
                let t4 = t3 + ":"@ + m;
                let t5 = t4 + ":"@ + none;
                let t6 = t5 + ":"@ + "eth0"@;
                let t7 = t6 + ":"@ + "off"@;
                assert(told =~= t7);
                assert(!"eth0"@.contains(':'));
                assert(!"off"@.contains(':'));
                lemma_pieces_one(g, ':');
                lemma_pieces_more(g, none, ':');
                lemma_pieces_more(t2, w, ':');
                lemma_pieces_more(t3, m, ':');
                lemma_pieces_more(t4, none, ':');
                lemma_pieces_more(t5, "eth0"@, ':');
                lemma_pieces_more(t6, "off"@, ':');
                assert(":"@ =~= seq![':']);
                assert(pieces(told, ':') =~= seq![g, none, w, m, none, "eth0"@, "off"@]);
            }
        },
    }
}

/// A machine that runs under limits may take the memory that it has and a little
/// more, and no swap, and as much time of the processors as it has processors; it is
/// spoken to and writes its log where it was said to.
pub proof fn law_limits_leave_room(
    vcpu_count: u32,
    mem_size_mib: u32,
    socket: Seq<char>,
    log: Seq<char>,
)
    ensures
        ({
            let limits = scope_args(vcpu_count, mem_size_mib);
            let own = own_args(socket, log);
            &&& given(limits, "-p"@, "MemoryMax="@ + dec((mem_size_mib + 128) as nat) + "M"@)
            &&& given(limits, "-p"@, "MemorySwapMax=0"@)
            &&& given(limits, "-p"@, "CPUQuota="@ + dec((vcpu_count * 100) as nat) + "%"@)
            &&& limits.contains("--scope"@)
            &&& limits.last() == "--"@
            &&& given(own, "--api-sock"@, socket)
            &&& given(own, "--log-path"@, log)
        }),
{
    let limits = scope_args(vcpu_count, mem_size_mib);
    let own = own_args(socket, log);
    assert(limits[0] == "--scope"@);
    assert(limits[3] == "-p"@);
    assert(limits[5] == "-p"@);
    assert(limits[7] == "-p"@);
    assert(own[0] == "--api-sock"@);
    assert(own[2] == "--log-path"@);
}

/// Under limits runs what would run without: the same program with the same arguments,
/// behind all that is said of the limits. It is spoken to at the socket, and writes to the
/// log.
pub proof fn law_limits_change_nothing_else(
    socket: Seq<char>,
    log: Seq<char>,
    vcpus: u32,
    mem: u32,
)
    ensures
        ({
            let l = spawn_call(socket, log, vcpus, mem);
            let p = plain_call(socket, log);
            let n = l.args.len() - p.args.len();
            &&& l.program == "systemd-run"@ && p.program == "firecracker"@
            &&& n >= 2 && l.args[n - 2] == "--"@ && l.args[n - 1] == p.program
            &&& l.args.skip(n) == p.args
            &&& l.args.contains("--scope"@)
            &&& given(p.args, "--api-sock"@, socket)
            &&& given(p.args, "--log-path"@, log)
        }),
{
    let l = spawn_call(socket, log, vcpus, mem);
    let p = plain_call(socket, log);
    let n = l.args.len() - p.args.len();
    let k = scope_args(vcpus, mem).len() as int;
    assert(n == k + 1);
    assert(l.args.skip(n) =~= p.args);
    assert(l.args[k] == "firecracker"@);
    assert(l.args[k - 1] == "--"@);
    assert(l.args[0] == scope_args(vcpus, mem)[0]);
    assert(p.args[0] == "--api-sock"@);
    assert(p.args[2] == "--log-path"@);
}

/// Whoever waits for a socket or for the end of a process goes on only while neither has
/// come and there is time left, with a pause before each look. What has come in time is
/// not missed, and a process that has ended has ended however long it took.
pub proof fn law_waiting_ends(elapsed: u64, timeout: u64, come: bool)
    ensures
        socket_poll(elapsed, come) is Again <==> !come && elapsed < 5000,
        socket_poll(elapsed, come) == Poll::Over(true) <==> come && elapsed < 5000,
        socket_poll(elapsed, come) matches Poll::Again(ms) ==> ms > 0,
        exit_poll(elapsed, timeout, !come) is Again <==> !come && elapsed < timeout,
        exit_poll(elapsed, timeout, !come) == Poll::Over(true) <==> come,
        exit_poll(elapsed, timeout, !come) matches Poll::Again(ms) ==> ms > 0,
{
}

} // verus!
