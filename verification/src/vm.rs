//! The record of a virtual machine.

use vstd::prelude::*;
use vstd::string::*;

use crate::error::{outcome, Error, ErrorView};
use crate::text::{copy_text, is_hex};

verus! {

/// The state of a machine.
#[derive(Clone, Copy, Debug, PartialEq, Eq, Structural)]
pub enum VmStatus {
    /// It was created and never started.
    Created,
    Running,
    Stopped,
    Paused,
}

impl VmStatus {
    /// The word for the state.
    pub open spec fn text(self) -> Seq<char> {
        match self {
            VmStatus::Created => "created"@,
            VmStatus::Running => "running"@,
            VmStatus::Stopped => "stopped"@,
            VmStatus::Paused => "paused"@,
        }
    }

    /// The word for the state.
    pub fn to_string(&self) -> (r: String)
        ensures
            r@ == self.text(),
    {
        match self {
            VmStatus::Created => "created".to_owned(),
            VmStatus::Running => "running".to_owned(),
            VmStatus::Stopped => "stopped".to_owned(),
            VmStatus::Paused => "paused".to_owned(),
        }
    }

    /// Whether a process runs the machine.
    pub open spec fn spec_is_active(self) -> bool {
        self == VmStatus::Running || self == VmStatus::Paused
    }

    /// Whether a process runs the machine.
    #[verifier::when_used_as_spec(spec_is_active)]
    pub fn is_active(self) -> (r: bool)
        ensures
            r == self.spec_is_active(),
    {
        match self {
            VmStatus::Running => true,
            VmStatus::Paused => true,
            _ => false,
        }
    }
}

/// How a machine is connected.
#[derive(Debug, PartialEq)]
pub struct NetworkInfo {
    /// The device on the host; empty where the host manages it.
    pub tap_device: String,
    pub host_ip: String,
    /// The address of the machine; `pending` until it is known.
    pub guest_ip: String,
    pub netmask: String,
    pub guest_mac: Option<String>,
    /// The interface through which the machine reaches the outside.
    pub wan_iface: Option<String>,
    /// The firewall chain that holds its rules; `None` for rules in the
    /// builtin chains.
    pub firewall_chain: Option<String>,
}

impl Clone for NetworkInfo {
    fn clone(&self) -> (r: NetworkInfo)
        ensures
            r == *self,
    {
        NetworkInfo {
            tap_device: self.tap_device.clone(),
            host_ip: self.host_ip.clone(),
            guest_ip: self.guest_ip.clone(),
            netmask: self.netmask.clone(),
            guest_mac: copy_text(&self.guest_mac),
            wan_iface: copy_text(&self.wan_iface),
            firewall_chain: copy_text(&self.firewall_chain),
        }
    }
}

/// How to log in to a machine.
#[derive(Debug, PartialEq)]
pub struct SshConfig {
    pub user: String,
    /// The file with the private key.
    pub key: String,
}

impl Clone for SshConfig {
    fn clone(&self) -> (r: SshConfig)
        ensures
            r == *self,
    {
        SshConfig { user: self.user.clone(), key: self.key.clone() }
    }
}

/// What is recorded of a machine.
#[derive(Debug, PartialEq)]
pub struct VmMetadata {
    pub name: String,
    pub id: String,
    pub status: VmStatus,
    /// The image that it was made from.
    pub image: String,
    pub cpus: u32,
    pub memory_mib: u32,
    pub disk_size_gib: u32,
    pub kernel_path: String,
    pub disk_path: String,
    pub boot_args: Option<String>,
    pub subnet: Option<String>,
    pub network: Option<NetworkInfo>,
    pub pid: Option<u32>,
    pub api_socket: String,
    pub created_at: String,
    pub ssh: SshConfig,
    /// The machine that it was copied from.
    pub parent_vm: Option<String>,
    pub thin_id: Option<u64>,
}

/// The id of no machine.
pub open spec fn nil_id() -> Seq<char> {
    "00000000-0000-0000-0000-000000000000"@
}

impl Clone for VmMetadata {
    fn clone(&self) -> (r: VmMetadata)
        ensures
            r == *self,
    {
        VmMetadata {
            name: self.name.clone(),
            id: self.id.clone(),
            status: self.status,
            image: self.image.clone(),
            cpus: self.cpus,
            memory_mib: self.memory_mib,
            disk_size_gib: self.disk_size_gib,
            kernel_path: self.kernel_path.clone(),
            disk_path: self.disk_path.clone(),
            boot_args: copy_text(&self.boot_args),
            subnet: copy_text(&self.subnet),
            network: match &self.network {
                Some(n) => Some(n.clone()),
                None => None,
            },
            pid: self.pid,
            api_socket: self.api_socket.clone(),
            created_at: self.created_at.clone(),
            ssh: self.ssh.clone(),
            parent_vm: copy_text(&self.parent_vm),
            thin_id: self.thin_id,
        }
    }
}

impl VmMetadata {
    /// Whether this is the record that stands in for one that is not there.
    pub open spec fn is_placeholder(self) -> bool {
        &&& self.name@.len() == 0
        &&& self.id@ == nil_id()
        &&& self.status == VmStatus::Stopped
        &&& self.image@.len() == 0
        &&& self.cpus == 0
        &&& self.memory_mib == 0
        &&& self.disk_size_gib == 0
        &&& self.kernel_path@.len() == 0
        &&& self.disk_path@.len() == 0
        &&& self.boot_args is None
        &&& self.subnet is None
        &&& self.network is None
        &&& self.pid is None
        &&& self.api_socket@.len() == 0
        &&& self.created_at@.len() == 0
        &&& self.ssh.user@.len() == 0
        &&& self.ssh.key@.len() == 0
        &&& self.parent_vm is None
        &&& self.thin_id is None
    }

    /// A record to take things down with, where only a few of its fields are
    /// known.
    pub fn default_for_teardown() -> (r: VmMetadata)
        ensures
            r.is_placeholder(),
    {
        VmMetadata {
            name: String::new(),
            id: "00000000-0000-0000-0000-000000000000".to_owned(),
            status: VmStatus::Stopped,
            image: String::new(),
            cpus: 0,
            memory_mib: 0,
            disk_size_gib: 0,
            kernel_path: String::new(),
            disk_path: String::new(),
            boot_args: None,
            subnet: None,
            network: None,
            pid: None,
            api_socket: String::new(),
            created_at: String::new(),
            ssh: SshConfig { user: String::new(), key: String::new() },
            parent_vm: None,
            thin_id: None,
        }
    }
}

/// The error for a machine in another state than the one needed.
pub open spec fn wrong_state(
    name: Seq<char>,
    status: VmStatus,
    expected: Seq<char>,
) -> ErrorView {
    ErrorView::VmWrongState { name, actual: status.text(), expected }
}

/// The error for a machine in another state than the one needed.
pub fn wrong_state_error(name: &str, status: VmStatus, expected: &str) -> (r: Error)
    ensures
        r@ == wrong_state(name@, status, expected@),
{
    Error::VmWrongState {
        name: name.to_owned(),
        actual: status.to_string(),
        expected: expected.to_owned(),
    }
}

/// The error for what cannot be done to a machine that runs or is paused.
pub open spec fn not_stopped(m: VmMetadata, what: Seq<char>) -> ErrorView {
    ErrorView::Vm("vm '"@ + m.name@ + "' is "@ + m.status.text() + " — stop it before "@ + what)
}

/// Refuses what cannot be done to a machine that runs or is paused.
pub fn require_stopped(m: &VmMetadata, what: &str) -> (r: Result<(), Error>)
    ensures
        outcome(r) == (if m.status.spec_is_active() {
            Err::<(), ErrorView>(not_stopped(*m, what@))
        } else {
            Ok(())
        }),
{
    if m.status.is_active() {
        let status = m.status.to_string();
        Err(
            Error::Vm(
                "vm '".to_owned().concat(m.name.as_str()).concat("' is ").concat(
                    status.as_str(),
                ).concat(" — stop it before ").concat(what),
            ),
        )
    } else {
        Ok(())
    }
}

/// Whether a machine can be reached over its network, and why not.
pub open spec fn reachable(name: Seq<char>, vm: VmMetadata) -> Result<(), Seq<char>> {
    if vm.status != VmStatus::Running {
        Err(
            "vm '"@ + name + "' is "@ + vm.status.text() + " — start it first with: ember vm start "@
                + name,
        )
    } else if vm.network is None {
        Err("vm '"@ + name + "' has no network configured — cannot connect via SSH"@)
    } else {
        Ok(())
    }
}

/// The network of a machine that runs, or why it cannot be reached.
pub fn load_running_with_network(name: &str, m: &VmMetadata) -> (r: Result<NetworkInfo, String>)
    ensures
        match r {
            Ok(network) => reachable(name@, *m) is Ok && m.network == Some(network),
            Err(e) => reachable(name@, *m) == Err::<(), Seq<char>>(e@),
        },
{
    if m.status != VmStatus::Running {
        let status = m.status.to_string();
        return Err(
            "vm '".to_owned().concat(name).concat("' is ").concat(status.as_str()).concat(
                " — start it first with: ember vm start ",
            ).concat(name),
        );
    }
    match &m.network {
        None => Err(
            "vm '".to_owned().concat(name).concat(
                "' has no network configured — cannot connect via SSH",
            ),
        ),
        Some(network) => Ok(network.clone()),
    }
}

/// The record of a machine that no longer runs.
pub open spec fn stopped(m: VmMetadata) -> VmMetadata {
    VmMetadata { status: VmStatus::Stopped, pid: None, network: None, ..m }
}

/// Records that a machine no longer runs.
pub fn mark_stopped(m: &mut VmMetadata)
    ensures
        *final(m) == stopped(*old(m)),
{
    m.status = VmStatus::Stopped;
    m.pid = None;
    m.network = None;
}

/// Whether `s` is a random UUID in its hyphenated form.
pub open spec fn is_random_uuid(s: Seq<char>) -> bool {
    &&& s.len() == 36
    &&& forall|i: int|
        0 <= i < 36 ==> if i == 8 || i == 13 || i == 18 || i == 23 {
            #[trigger] s[i] == '-'
        } else {
            is_hex(s[i])
        }
    &&& s[14] == '4'
    &&& s[19] == '8' || s[19] == '9' || s[19] == 'a' || s[19] == 'b'
}

/// `uuid::Uuid::new_v4` and the `Display` of its result: a random UUID of
/// version 4, in small hexadecimal digits with hyphens between its five groups.
#[verifier::external_body]
fn random_uuid() -> (r: String)
    ensures
        is_random_uuid(r@),
{
    uuid::Uuid::new_v4().to_string()
}

/// An id for a new machine.
pub fn fresh_id() -> (r: String)
    ensures
        is_random_uuid(r@),
{
    random_uuid()
}

} // verus!
