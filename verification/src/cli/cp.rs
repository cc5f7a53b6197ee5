//! Copying files between the host and machines.

use vstd::prelude::*;
use vstd::string::*;

use crate::text::{around, lemma_first_index, split_once};
use crate::vm::{load_running_with_network, reachable, VmMetadata};

verus! {

/// From where to where to copy.
#[derive(Debug)]
pub struct CpArgs {
    pub src: String,
    pub dst: String,
}

/// The machine and the path that an argument names. One that starts with a
/// colon is a path on the host.
pub open spec fn place_of(arg: Seq<char>) -> (Option<Seq<char>>, Seq<char>) {
    match around(arg, ':') {
        Some((name, path)) => if name.len() == 0 {
            (None, arg)
        } else {
            (Some(name), path)
        },
        None => (None, arg),
    }
}

/// An optional machine and a path, by their texts.
pub open spec fn place_text(p: (Option<&str>, &str)) -> (Option<Seq<char>>, Seq<char>) {
    (
        match p.0 {
            Some(n) => Some(n@),
            None => None,
        },
        p.1@,
    )
}

/// The machine and the path that an argument names.
pub fn parse_path(arg: &str) -> (r: (Option<&str>, &str))
    ensures
        place_text(r) == place_of(arg@),
{
    match split_once(arg, ':') {
        Some((name, path)) => {
            if name.is_empty() {
                (None, arg)
            } else {
                (Some(name), path)
            }
        },
        None => (None, arg),
    }
}

/// What to copy.
#[derive(Debug, PartialEq)]
pub struct Copy {
    pub vm_name: String,
    pub local_path: String,
    pub remote_path: String,
    /// Whether to copy from the host to the machine.
    pub uploading: bool,
}

/// A [`Copy`], its strings taken by their texts.
#[verifier::ext_equal]
pub struct CopyView {
    pub vm_name: Seq<char>,
    pub local_path: Seq<char>,
    pub remote_path: Seq<char>,
    pub uploading: bool,
}

impl View for Copy {
    type V = CopyView;

    open spec fn view(&self) -> CopyView {
        CopyView {
            vm_name: self.vm_name@,
            local_path: self.local_path@,
            remote_path: self.remote_path@,
            uploading: self.uploading,
        }
    }
}

/// What to copy, or why not: exactly one side has to be in a machine, and to
/// name a path there.
pub open spec fn copy_of(src: Seq<char>, dst: Seq<char>) -> Result<CopyView, Seq<char>> {
    let (src_vm, src_path) = place_of(src);
    let (dst_vm, dst_path) = place_of(dst);
    let chosen = match (src_vm, dst_vm) {
        (None, Some(name)) => Ok(
            CopyView {
                vm_name: name,
                local_path: src_path,
                remote_path: dst_path,
                uploading: true,
            },
        ),
        (Some(name), None) => Ok(
            CopyView {
                vm_name: name,
                local_path: dst_path,
                remote_path: src_path,
                uploading: false,
            },
        ),
        (Some(_), Some(_)) => Err(
            "VM-to-VM copy is not supported — copy to local first, then to the other VM"@,
        ),
        (None, None) => Err(
            "neither path specifies a VM — prefix with <vm-name>: for remote paths"@,
        ),
    };
    match chosen {
        Err(e) => Err(e),
        Ok(c) => if c.remote_path.len() == 0 {
            Err("remote path cannot be empty — use <vm-name>:<path>"@)
        } else {
            Ok(c)
        },
    }
}

/// What to copy, or why not.
pub fn run(args: &CpArgs) -> (r: Result<Copy, String>)
    ensures
        match r {
            Ok(c) => copy_of(args.src@, args.dst@) == Ok::<CopyView, Seq<char>>(c@),
            Err(e) => copy_of(args.src@, args.dst@) == Err::<CopyView, Seq<char>>(e@),
        },
{
    let (src_vm, src_path) = parse_path(args.src.as_str());
    let (dst_vm, dst_path) = parse_path(args.dst.as_str());
    let chosen = match (src_vm, dst_vm) {
        (None, Some(name)) => Copy {
            vm_name: name.to_owned(),
            local_path: src_path.to_owned(),
            remote_path: dst_path.to_owned(),
            uploading: true,
        },
        (Some(name), None) => Copy {
            vm_name: name.to_owned(),
            local_path: dst_path.to_owned(),
            remote_path: src_path.to_owned(),
            uploading: false,
        },
        (Some(_), Some(_)) => {
            return Err(
                "VM-to-VM copy is not supported — copy to local first, then to the other VM".to_owned(),
            );
        },
        (None, None) => {
            return Err(
                "neither path specifies a VM — prefix with <vm-name>: for remote paths".to_owned(),
            );
        },
    };
    if chosen.remote_path.as_str().is_empty() {
        return Err("remote path cannot be empty — use <vm-name>:<path>".to_owned());
    }
    Ok(chosen)
}

/// Where to connect to, as whom and with which key.
#[derive(Debug, PartialEq)]
pub struct Login {
    pub guest_ip: String,
    pub user: String,
    pub key: String,
}

/// Whether `l` is where to connect to for a machine.
pub open spec fn logs_in(l: Login, m: VmMetadata) -> bool {
    &&& l.guest_ip@ == m.network->0.guest_ip@
    &&& l.user@ == m.ssh.user@
    &&& l.key@ == m.ssh.key@
}

/// Where to connect to for a copy, or why the machine cannot be reached.
pub fn login(c: &Copy, m: &VmMetadata) -> (r: Result<Login, String>)
    ensures
        match r {
            Ok(l) => reachable(c.vm_name@, *m) is Ok && logs_in(l, *m),
            Err(e) => reachable(c.vm_name@, *m) == Err::<(), Seq<char>>(e@),
        },
{
    let network = load_running_with_network(c.vm_name.as_str(), m)?;
    Ok(Login { guest_ip: network.guest_ip, user: m.ssh.user.clone(), key: m.ssh.key.clone() })
}

/// One way to copy.
#[derive(Debug, Clone, Copy, PartialEq, Eq, Structural)]
pub enum Transfer {
    Upload,
    UploadDir,
    Download,
    DownloadDir,
}

/// How to copy, to the machine or from it, and a directory or not.
pub open spec fn transfer_of(uploading: bool, is_dir: bool) -> Transfer {
    match (uploading, is_dir) {
        (true, true) => Transfer::UploadDir,
        (true, false) => Transfer::Upload,
        (false, true) => Transfer::DownloadDir,
        (false, false) => Transfer::Download,
    }
}

/// How to copy, given whether what is copied is a directory: the local path is
/// looked at when uploading, the path in the machine when downloading.
pub fn transfer(c: &Copy, is_dir: bool) -> (r: Transfer)
    ensures
        r == transfer_of(c.uploading, is_dir),
{
    if c.uploading {
        if is_dir {
            Transfer::UploadDir
        } else {
            Transfer::Upload
        }
    } else if is_dir {
        Transfer::DownloadDir
    } else {
        Transfer::Download
    }
}

/// A machine and a path, written with a colon between them, are read as that
/// machine and that path.
pub proof fn law_remote_path_round_trip(name: Seq<char>, path: Seq<char>)
    requires
        name.len() > 0,
        !name.contains(':'),
    ensures
        place_of(name + ":"@ + path) == (Some(name), path),
{
    reveal_strlit(":");
    let arg = name + ":"@ + path;
    crate::text::lemma_around(name, ':', path);
    assert(arg =~= name + seq![':'] + path);
}

/// From a path on the host to one in a machine it is copied there, and the other way round
/// from there; between two machines and on the host alone nothing is copied. One connects
/// to the machine itself, as its user and with its key.
pub proof fn law_one_side_is_in_a_machine(
    name: Seq<char>,
    path: Seq<char>,
    local: Seq<char>,
    other: Seq<char>,
    is_dir: bool,
    l: Login,
    m: VmMetadata,
)
    requires
        name.len() > 0,
        !name.contains(':'),
        path.len() > 0,
        !local.contains(':'),
        !other.contains(':'),
        logs_in(l, m),
    ensures
        copy_of(local, name + ":"@ + path) == Ok::<CopyView, Seq<char>>(
            CopyView { vm_name: name, local_path: local, remote_path: path, uploading: true },
        ),
        copy_of(name + ":"@ + path, local) == Ok::<CopyView, Seq<char>>(
            CopyView { vm_name: name, local_path: local, remote_path: path, uploading: false },
        ),
        copy_of(name + ":"@ + path, name + ":"@ + path) is Err,
        copy_of(local, other) is Err,
        transfer_of(true, is_dir) is Upload || transfer_of(true, is_dir) is UploadDir,
        transfer_of(false, is_dir) is Download || transfer_of(false, is_dir) is DownloadDir,
        is_dir <==> transfer_of(true, is_dir) is UploadDir,
        is_dir <==> transfer_of(false, is_dir) is DownloadDir,
        l.guest_ip@ == m.network->0.guest_ip@ && l.user@ == m.ssh.user@ && l.key@ == m.ssh.key@,
{
    law_remote_path_round_trip(name, path);
    lemma_first_index(local, ':');
    lemma_first_index(other, ':');
}

} // verus!
