//! ZFS volumes.

use vstd::prelude::*;
use vstd::string::*;

use crate::command::{Invocation, InvocationView};
use crate::text::{dec, decimal};

verus! {

/// Asks whether a volume is there: the call succeeds when it is.
pub fn query(zvol: &str) -> (r: Invocation)
    ensures
        r@ == (InvocationView {
            program: "zfs"@,
            args: seq!["list"@, "-H"@, "-t"@, "volume"@, "-o"@, "name"@, zvol@],
            label: "zfs list"@,
            start_label: "zfs list"@,
        }),
{
    Invocation::new("zfs", "zfs list").arg("list").arg("-H").arg("-t").arg("volume").arg("-o").arg(
        "name",
    ).arg(zvol)
}

/// The call that makes a volume.
pub open spec fn create_call(zvol: Seq<char>, size_mib: u64) -> InvocationView {
    InvocationView {
        program: "zfs"@,
        args: seq!["create"@, "-p"@, "-V"@, dec(size_mib as nat) + "M"@, zvol],
        label: "zfs create"@,
        start_label: "zfs create"@,
    }
}

/// The call that makes a volume.
pub fn create(zvol: &str, size_mib: u64) -> (r: Invocation)
    ensures
        r@ == create_call(zvol@, size_mib),
{
    let size = decimal(size_mib).concat("M");
    Invocation::new("zfs", "zfs create").arg("create").arg("-p").arg("-V").arg(
        size.as_str(),
    ).arg(zvol)
}

/// The call that destroys a volume; with `recursive`, all that hangs on it as
/// well.
pub open spec fn destroy_call(zvol: Seq<char>, recursive: bool) -> InvocationView {
    InvocationView {
        program: "zfs"@,
        args: if recursive {
            seq!["destroy"@, "-r"@, zvol]
        } else {
            seq!["destroy"@, zvol]
        },
        label: "zfs destroy"@,
        start_label: "zfs destroy"@,
    }
}

/// The call that destroys a volume; with `recursive`, all that hangs on it as
/// well.
pub fn destroy(zvol: &str, recursive: bool) -> (r: Invocation)
    ensures
        r@ == destroy_call(zvol@, recursive),
{
    let call = Invocation::new("zfs", "zfs destroy").arg("destroy");
    if recursive {
        call.arg("-r").arg(zvol)
    } else {
        call.arg(zvol)
    }
}

/// The call that makes a volume from a snapshot.
pub open spec fn clone_call(snapshot: Seq<char>, new_zvol: Seq<char>) -> InvocationView {
    InvocationView {
        program: "zfs"@,
        args: seq!["clone"@, "-p"@, snapshot, new_zvol],
        label: "zfs clone"@,
        start_label: "zfs clone"@,
    }
}

/// The call that makes a volume from a snapshot.
pub fn clone(snapshot: &str, new_zvol: &str) -> (r: Invocation)
    ensures
        r@ == clone_call(snapshot@, new_zvol@),
{
    Invocation::new("zfs", "zfs clone").arg("clone").arg("-p").arg(snapshot).arg(new_zvol)
}

/// The call that makes a volume larger or smaller.
pub open spec fn set_volsize_call(zvol: Seq<char>, size_gib: u32) -> InvocationView {
    InvocationView {
        program: "zfs"@,
        args: seq!["set"@, "volsize="@ + dec(size_gib as nat) + "G"@, zvol],
        label: "zfs set volsize"@,
        start_label: "zfs set"@,
    }
}

/// The call that makes a volume larger or smaller.
pub fn set_volsize(zvol: &str, size_gib: u32) -> (r: Invocation)
    ensures
        r@ == set_volsize_call(zvol@, size_gib),
{
    let n = decimal(size_gib as u64);
    let size = "volsize=".to_owned().concat(n.as_str()).concat("G");
    let call = Invocation::new("zfs", "zfs set volsize").started_as("zfs set");
    call.arg("set").arg(size.as_str()).arg(zvol)
}

/// Where a volume shows as a device.
pub open spec fn device_path_of(zvol: Seq<char>) -> Seq<char> {
    "/dev/zvol/"@ + zvol
}

/// Where a volume shows as a device.
pub fn device_path(zvol: &str) -> (r: String)
    ensures
        r@ == device_path_of(zvol@),
{
    "/dev/zvol/".to_owned().concat(zvol)
}

} // verus!
