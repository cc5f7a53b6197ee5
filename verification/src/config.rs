//! The configuration of an installation.

use vstd::prelude::*;
use vstd::string::*;

use crate::error::answer;
use crate::text::{dec, decimal, hex4, hexadecimal4, is_hex, same};

verus! {

/// What holds the disks of virtual machines and images.
#[derive(Debug, Clone, Copy, PartialEq, Eq, Structural)]
pub enum StorageKind {
    Zfs,
    Btrfs,
    DmThin,
}

impl Default for StorageKind {
    fn default() -> (r: StorageKind)
        ensures
            r == StorageKind::Zfs,
    {
        StorageKind::Zfs
    }
}

/// The kind of storage that a name stands for.
pub open spec fn storage_kind(s: Seq<char>) -> Result<StorageKind, Seq<char>> {
    if s == "zfs"@ {
        Ok(StorageKind::Zfs)
    } else if s == "btrfs"@ {
        Ok(StorageKind::Btrfs)
    } else if s == "dm-thin"@ || s == "dmthin"@ || s == "dm_thin"@ {
        Ok(StorageKind::DmThin)
    } else {
        Err("unknown storage backend '"@ + s + "' (expected zfs, btrfs, or dm-thin)"@)
    }
}

impl StorageKind {
    /// Reads the name of a kind of storage.
    pub fn parse(s: &str) -> (r: Result<StorageKind, String>)
        ensures
            answer(r) == storage_kind(s@),
    {
        if same(s, "zfs") {
            Ok(StorageKind::Zfs)
        } else if same(s, "btrfs") {
            Ok(StorageKind::Btrfs)
        } else if same(s, "dm-thin") || same(s, "dmthin") || same(s, "dm_thin") {
            Ok(StorageKind::DmThin)
        } else {
            Err(
                "unknown storage backend '".to_owned().concat(s).concat(
                    "' (expected zfs, btrfs, or dm-thin)",
                ),
            )
        }
    }

    /// The name of the variant.
    pub open spec fn spec_name(self) -> Seq<char> {
        match self {
            StorageKind::Zfs => "Zfs"@,
            StorageKind::Btrfs => "Btrfs"@,
            StorageKind::DmThin => "DmThin"@,
        }
    }

    /// The name of the variant.
    pub fn name(self) -> (r: String)
        ensures
            r@ == self.spec_name(),
    {
        match self {
            StorageKind::Zfs => "Zfs".to_owned(),
            StorageKind::Btrfs => "Btrfs".to_owned(),
            StorageKind::DmThin => "DmThin".to_owned(),
        }
    }
}

impl std::str::FromStr for StorageKind {
    type Err = String;

    /// Reads the name of a storage: see [`storage_kind`].
    fn from_str(s: &str) -> (r: Result<StorageKind, String>)
        ensures
            answer(r) == storage_kind(s@),
    {
        StorageKind::parse(s)
    }
}

/// What a thin pool lies on.
#[derive(Debug, Clone, Copy, PartialEq, Eq, Structural)]
pub enum DmThinMode {
    /// Files in a directory, attached through loop devices.
    File,
    /// A block device of its own.
    RawDevice,
}

/// A compression layer under a thin pool.
#[derive(Debug, Clone, Copy, PartialEq, Eq, Structural)]
pub struct VdoConfig {
    /// The bytes it lies on.
    pub physical_size: u64,
    /// The bytes it hands out.
    pub logical_size: u64,
    /// Whether it also looks for equal blocks.
    pub deduplication: bool,
}

/// What `init` settled, for every later command to read.
#[derive(Debug, PartialEq)]
pub struct GlobalConfig {
    pub storage_backend: StorageKind,
    /// The ZFS pool.
    pub pool: String,
    /// The dataset inside the pool.
    pub dataset: String,
    pub kernel_path: Option<String>,
    pub wan_iface: Option<String>,
    pub state_dir: String,
    /// What tells this installation from others on the host; empty in those
    /// that are older than the distinction.
    pub instance_id: String,
    pub ip_subnet: String,
    pub storage_path: Option<String>,
    pub dm_thin_block_size: Option<u32>,
    pub dm_thin_mode: Option<DmThinMode>,
    pub vdo: Option<VdoConfig>,
    /// The share of the processor that the machines get together.
    pub cpu_weight: Option<u32>,
}

/// The subnet of installations that have none of their own.
pub fn default_ip_subnet() -> (r: String)
    ensures
        r@ == "10.100.0.0/16"@,
{
    "10.100.0.0/16".to_owned()
}

/// The FNV-1a hash of some bytes, in 32 bits.
pub open spec fn fnv(bytes: Seq<u8>) -> u32
    decreases bytes.len(),
{
    if bytes.len() == 0 {
        0x811c_9dc5
    } else {
        (fnv(bytes.drop_last()) ^ (bytes.last() as u32)).wrapping_mul(0x0100_0193)
    }
}

/// The FNV-1a hash of some bytes, in 32 bits.
pub fn fnv1a_32(bytes: &[u8]) -> (r: u32)
    ensures
        r == fnv(bytes@),
{
    let mut h: u32 = 0x811c_9dc5;
    let mut i: usize = 0;
    while i < bytes.len()
        invariant
            i <= bytes.len(),
            h == fnv(bytes@.take(i as int)),
        decreases bytes.len() - i,
    {
        assert(bytes@.take(i + 1).drop_last() =~= bytes@.take(i as int));
        h = (h ^ (bytes[i] as u32)).wrapping_mul(0x0100_0193);
        i = i + 1;
    }
    assert(bytes@.take(i as int) =~= bytes@);
    h
}

/// What tells installations on one host apart: a hash of where each keeps its
/// state.
pub open spec fn instance_id_of(state_dir: Seq<char>) -> Seq<char> {
    hex4((fnv(vstd::utf8::encode_utf8(state_dir)) % 0x1_0000) as nat)
}

/// What tells installations on one host apart: a hash of where each keeps its
/// state. `state_dir` is the canonical form of that directory.
pub fn derive_instance_id(state_dir: &str) -> (r: String)
    ensures
        r@ == instance_id_of(state_dir@),
{
    let h: u32 = fnv1a_32(state_dir.as_bytes());
    hexadecimal4((h % 0x1_0000) as u16)
}

/// The subnet of an installation that was given none.
pub fn derive_ip_subnet(instance_id: &str) -> (r: String)
    ensures
        r@ == "10."@ + dec(
            (fnv(vstd::utf8::encode_utf8(instance_id@)) / 256 % 256) as nat,
        ) + ".0.0/16"@,
{
    let h: u32 = fnv1a_32(instance_id.as_bytes());
    let slot = decimal((h / 256 % 256) as u64);
    "10.".to_owned().concat(slot.as_str()).concat(".0.0/16")
}

/// The name in the namespace of an installation, when it has one.
pub open spec fn namespace(instance_id: Seq<char>) -> Option<Seq<char>> {
    if instance_id.len() == 0 {
        None
    } else {
        Some(instance_id)
    }
}

/// An optional text.
pub open spec fn opt_str(o: Option<&str>) -> Option<Seq<char>> {
    match o {
        Some(s) => Some(s@),
        None => None,
    }
}

impl GlobalConfig {
    /// The instance id; `None` in installations that are older than it.
    pub fn instance_namespace(&self) -> (r: Option<&str>)
        ensures
            opt_str(r) == namespace(self.instance_id@),
    {
        if self.instance_id.as_str().is_empty() {
            None
        } else {
            Some(self.instance_id.as_str())
        }
    }

    /// The dataset that holds the images.
    pub fn images_dataset(&self) -> (r: String)
        ensures
            r@ == self.pool@ + "/"@ + self.dataset@ + "/images"@,
    {
        self.pool.clone().concat("/").concat(self.dataset.as_str()).concat("/images")
    }

    /// The dataset that holds the disks of the machines.
    pub fn vms_dataset(&self) -> (r: String)
        ensures
            r@ == self.pool@ + "/"@ + self.dataset@ + "/vms"@,
    {
        self.pool.clone().concat("/").concat(self.dataset.as_str()).concat("/vms")
    }

    /// The device-mapper name of the thin pool.
    pub fn dm_thin_pool_name(&self) -> (r: String)
        ensures
            r@ == "ember-"@ + self.instance_id@ + "-pool"@,
    {
        "ember-".to_owned().concat(self.instance_id.as_str()).concat("-pool")
    }

    /// What the device-mapper names of images start with.
    pub fn dm_thin_image_prefix(&self) -> (r: String)
        ensures
            r@ == "ember-"@ + self.instance_id@ + "-img-"@,
    {
        "ember-".to_owned().concat(self.instance_id.as_str()).concat("-img-")
    }

    /// What the device-mapper names of machines start with.
    pub fn dm_thin_vm_prefix(&self) -> (r: String)
        ensures
            r@ == "ember-"@ + self.instance_id@ + "-vm-"@,
    {
        "ember-".to_owned().concat(self.instance_id.as_str()).concat("-vm-")
    }

    /// What the names of TAP devices start with.
    pub fn tap_prefix(&self) -> (r: String)
        ensures
            r@ == "em"@ + self.instance_id@ + "-"@,
    {
        "em".to_owned().concat(self.instance_id.as_str()).concat("-")
    }

    /// The comment on the firewall rules of this installation.
    pub fn iptables_comment(&self) -> (r: String)
        ensures
            r@ == "ember:"@ + self.instance_id@,
    {
        "ember:".to_owned().concat(self.instance_id.as_str())
    }
}

/// A derived instance id is four hexadecimal digits.
pub proof fn law_instance_id_is_four_hex_digits(n: nat)
    ensures
        hex4(n).len() == 4,
        forall|i: int| 0 <= i < 4 ==> is_hex(#[trigger] hex4(n)[i]),
{
}

/// With a derived instance id the name of a TAP device, whose last part has
/// seven characters, keeps within the fifteen that the kernel allows.
pub proof fn law_tap_name_fits(n: nat, id: Seq<char>)
    requires
        id.len() == 7,
    ensures
        ("em"@ + hex4(n) + "-"@ + id).len() <= 15,
{
    reveal_strlit("em");
    reveal_strlit("-");
}

} // verus!
