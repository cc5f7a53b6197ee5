//! What is recorded of machines, and what follows from it.

use vstd::prelude::*;
use vstd::string::*;

use super::lifecycle::{
    admission, committed, is_renamed, rm_refusal, running, selected, starting, update_refusal,
    updated,
};
use super::vm::{
    addressed, copy_sizes, is_copy_record, is_new_record, resolved_of, CopySizes, CpArgs,
    CreateArgs, CreateFacts, ResolvedView, RmArgs, StatusFilter, UpdateConfigArgs, VmFile,
};
use crate::backend::{StartedVm, VolumeHandle};
use crate::path::joined;
use crate::store::vm_dir_of;
use crate::text::opt_text;
use crate::vm::{reachable, stopped, VmMetadata, VmStatus};

verus! {

/// A machine that is spoken to in its own directory, and of which nothing runs.
pub open spec fn at_rest(m: VmMetadata, state_dir: Seq<char>) -> bool {
    &&& m.status == VmStatus::Created
    &&& m.pid is None
    &&& m.network is None
    &&& m.api_socket@ == joined(vm_dir_of(state_dir, m.name@), "firecracker.sock"@)
}

/// A new machine is at rest, lies on the disk that was made for it, and is what was asked
/// for. It is nobody's copy.
pub proof fn law_a_new_machine(
    r: VmMetadata,
    asked: ResolvedView,
    state_dir: Seq<char>,
    pending: VmMetadata,
    facts: CreateFacts,
)
    requires
        is_new_record(r, asked, state_dir, pending, facts),
    ensures
        at_rest(r, state_dir),
        r.name@ == asked.name,
        r.disk_path@ == pending.disk_path@ && r.thin_id == pending.thin_id,
        r.cpus == asked.cpus && r.memory_mib == asked.memory && r.disk_size_gib == asked.disk_size,
        r.image@ == facts.image_ref@ && r.kernel_path@ == facts.kernel_path@,
        r.created_at@ == facts.created_at@,
        opt_text(r.boot_args) == asked.boot_args && opt_text(r.subnet) == asked.network,
        asked.ssh_user matches Some(u) ==> r.ssh.user@ == u,
        asked.ssh_user is None ==> r.ssh.user@ == facts.detected_ssh_user@,
        asked.ssh_key matches Some(k) ==> r.ssh.key@ == k,
        asked.ssh_key is None && facts.default_privkey is Some ==> r.ssh.key@
            == facts.default_privkey->0@,
        r.parent_vm is None,
{
}

/// A copy is at rest and lies on a disk of its own. It is what its source is, but for what
/// was asked for otherwise, and knows its source by its name. Whoever could log in to the
/// source can log in to the copy.
pub proof fn law_a_copied_machine(
    r: VmMetadata,
    args: CpArgs,
    source: VmMetadata,
    sizes: CopySizes,
    state_dir: Seq<char>,
    pending: VmMetadata,
    kernel_path: Option<Seq<char>>,
    created_at: Seq<char>,
)
    requires
        is_copy_record(r, args, source, sizes, state_dir, pending, kernel_path, created_at),
        copy_sizes(args, source) == Ok::<CopySizes, Seq<char>>(sizes),
    ensures
        at_rest(r, state_dir),
        r.name@ == args.name@,
        r.disk_path@ == pending.disk_path@ && r.thin_id == pending.thin_id,
        r.created_at@ == created_at,
        opt_text(r.parent_vm) == Some(args.source@),
        r.image@ == source.image@ && r.ssh == source.ssh,
        opt_text(r.boot_args) == opt_text(source.boot_args),
        args.cpus is None ==> r.cpus == source.cpus,
        args.cpus matches Some(n) ==> r.cpus == n,
        args.memory is None ==> r.memory_mib == source.memory_mib,
        args.memory matches Some(n) ==> r.memory_mib * 1048576 == n.bytes(),
        args.disk_size is None ==> r.disk_size_gib == source.disk_size_gib,
        args.disk_size matches Some(n) ==> r.disk_size_gib * 1073741824 == n.bytes(),
        args.network is None ==> opt_text(r.subnet) == opt_text(source.subnet),
        args.network is Some ==> opt_text(r.subnet) == opt_text(args.network),
        kernel_path is None ==> r.kernel_path@ == source.kernel_path@,
        kernel_path matches Some(k) ==> r.kernel_path@ == k,
{
}

/// A machine that gets another name is spoken to in the directory of that name and lies on
/// the disk that was renamed with it; all else stays. One that gets its old name and disk
/// back is what it was.
pub proof fn law_a_renamed_machine(
    before: VmMetadata,
    after: VmMetadata,
    again: VmMetadata,
    new_name: Seq<char>,
    handle: VolumeHandle,
    old_handle: VolumeHandle,
    state_dir: Seq<char>,
)
    requires
        is_renamed(before, after, new_name, handle, state_dir),
        is_renamed(after, again, before.name@, old_handle, state_dir),
        old_handle.disk_path@ == before.disk_path@,
        old_handle.thin_id == before.thin_id,
        at_rest(before, state_dir),
    ensures
        at_rest(after, state_dir),
        after.name@ == new_name,
        after.disk_path@ == handle.disk_path@ && after.thin_id == handle.thin_id,
        after.id == before.id && after.image == before.image && after.cpus == before.cpus,
        after.memory_mib == before.memory_mib && after.disk_size_gib == before.disk_size_gib,
        after.parent_vm == before.parent_vm && after.ssh == before.ssh,
        again.name@ == before.name@,
        again.api_socket@ == before.api_socket@,
        again.disk_path@ == before.disk_path@,
        again == (VmMetadata {
            name: again.name,
            api_socket: again.api_socket,
            disk_path: again.disk_path,
            ..before
        }),
{
}

/// A machine that was started runs, with the process and the network that it was started
/// with. One that was stopped does not, and has neither; nothing else of it has changed.
pub proof fn law_running_and_stopping(m: VmMetadata, started: StartedVm)
    ensures
        running(m, started).status.spec_is_active(),
        running(m, started).status == VmStatus::Running,
        running(m, started).pid == Some(started.pid),
        running(m, started).network == Some(started.network),
        !stopped(m).status.spec_is_active(),
        stopped(m).pid is None && stopped(m).network is None,
        stopped(running(m, started)) == stopped(m),
        (VmMetadata { status: m.status, pid: m.pid, network: m.network, ..running(m, started) })
            == m,
        (VmMetadata { status: m.status, pid: m.pid, network: m.network, ..stopped(m) }) == m,
        reachable(m.name@, running(m, started)) is Ok,
        reachable(m.name@, stopped(m)) is Err,
{
}

/// What is asked of a machine on its network is asked only of one that runs and has one;
/// and its address has to be known.
pub proof fn law_who_can_be_reached(name: Seq<char>, m: VmMetadata)
    ensures
        reachable(name, m) is Ok <==> m.status == VmStatus::Running && m.network is Some,
        addressed(name, m) is Ok <==> m.status == VmStatus::Running && m.network is Some
            && m.network->0.guest_ip@ != "pending"@,
{
}

/// What the file says counts where the arguments say nothing; what can be said in the file
/// alone comes from there. A machine is refused only without an image, or with a size that
/// is not whole.
pub proof fn law_the_file_fills_in(args: CreateArgs, file: VmFile, home: Option<Seq<char>>)
    ensures
        match resolved_of(args, Some(file), home) {
            Ok(r) => {
                &&& r.name == args.name@ && r.no_start == args.no_start
                &&& args.image is None ==> Some(r.image) == opt_text(file.image)
                &&& args.cpus is None && file.cpus is Some ==> r.cpus == file.cpus->0
                &&& args.cpus is None && file.cpus is None ==> r.cpus == 1
                &&& args.memory is None && file.memory is Some ==> r.memory * 1048576
                    == file.memory->0.bytes()
                &&& args.disk_size is None && file.disk_size is Some ==> r.disk_size * 1073741824
                    == file.disk_size->0.bytes()
                &&& args.kernel is None ==> r.kernel == opt_text(file.kernel)
                &&& args.network is None ==> r.network == opt_text(file.subnet)
                &&& r.boot_args == opt_text(file.boot_args)
                &&& r.ssh_user == opt_text(file.ssh_user)
                &&& r.ssh_key is Some <==> file.ssh_key is Some
                &&& file.ssh_key matches Some(k) ==> k@.len() > 0 && k@[0] != '~' ==> r.ssh_key
                    == Some(k@)
            },
            Err(_) => {
                ||| args.image is None && file.image is None
                ||| args.memory matches Some(n) && (n.bytes() % 1048576 != 0 || n.bytes() / 1048576
                    > u32::MAX)
                ||| args.memory is None && (file.memory matches Some(n) && (n.bytes() % 1048576 != 0
                    || n.bytes() / 1048576 > u32::MAX))
                ||| args.disk_size matches Some(n) && (n.bytes() % 1073741824 != 0 || n.bytes()
                    / 1073741824 > u32::MAX)
                ||| args.disk_size is None && (file.disk_size matches Some(n) && (n.bytes()
                    % 1073741824 != 0 || n.bytes() / 1073741824 > u32::MAX))
            },
        },
{
    reveal_strlit("~");
    let f = Some(file);
    assert(super::vm::from_file(f, |v: VmFile| v.image) == file.image);
    assert(super::vm::from_file(f, |v: VmFile| v.memory) == file.memory);
    assert(super::vm::from_file(f, |v: VmFile| v.disk_size) == file.disk_size);
    assert(super::vm::from_file(f, |v: VmFile| v.cpus) == file.cpus);
    assert(super::vm::from_file(f, |v: VmFile| v.kernel) == file.kernel);
    assert(super::vm::from_file(f, |v: VmFile| v.subnet) == file.subnet);
    assert(super::vm::from_file(f, |v: VmFile| v.boot_args) == file.boot_args);
    assert(super::vm::from_file(f, |v: VmFile| v.ssh_user) == file.ssh_user);
    assert(super::vm::from_file(f, |v: VmFile| v.ssh_key) == file.ssh_key);
}

/// A change to a machine changes what was asked for and nothing else: neither who it is
/// nor its disk, its state or its network. The same change made again changes nothing.
pub proof fn law_only_what_was_asked_changes(
    m: VmMetadata,
    args: UpdateConfigArgs,
    kernel_path: Option<Seq<char>>,
    home: Option<Seq<char>>,
    after: VmMetadata,
    again: VmMetadata,
)
    requires
        update_refusal(args, m) is None,
        updated(m, args, kernel_path, home, after),
        updated(after, args, kernel_path, home, again),
    ensures
        !m.status.spec_is_active(),
        after.name == m.name && after.id == m.id && after.status == m.status,
        after.disk_path == m.disk_path && after.disk_size_gib == m.disk_size_gib,
        after.network == m.network && after.subnet == m.subnet && after.image == m.image,
        after.api_socket == m.api_socket && after.parent_vm == m.parent_vm && after.thin_id
            == m.thin_id && after.pid == m.pid && after.created_at == m.created_at,
        args.cpus is None ==> after.cpus == m.cpus,
        args.cpus matches Some(n) ==> after.cpus == n && n > 0,
        args.memory is None ==> after.memory_mib == m.memory_mib,
        args.memory matches Some(n) ==> after.memory_mib * 1048576 == n.bytes(),
        kernel_path is None ==> after.kernel_path@ == m.kernel_path@,
        kernel_path matches Some(k) ==> after.kernel_path@ == k,
        args.boot_args is None ==> opt_text(after.boot_args) == opt_text(m.boot_args),
        args.boot_args matches Some(b) ==> if b@.len() == 0 {
            after.boot_args is None
        } else {
            opt_text(after.boot_args) == Some(b@)
        },
        args.ssh_user is None ==> after.ssh.user@ == m.ssh.user@,
        args.ssh_user matches Some(u) ==> after.ssh.user@ == u@,
        args.ssh_key is None ==> after.ssh.key@ == m.ssh.key@,
        again.cpus == after.cpus && again.memory_mib == after.memory_mib,
        again.kernel_path@ == after.kernel_path@ && again.ssh.user@ == after.ssh.user@,
        again.ssh.key@ == after.ssh.key@ && opt_text(again.boot_args) == opt_text(
            after.boot_args,
        ),
{
}

/// Machines count with their memory while they run or are paused, and not otherwise.
pub proof fn law_what_runs_counts(vms: Seq<VmMetadata>, m: VmMetadata)
    ensures
        committed(seq![], 0) == 0,
        committed(vms.push(m), vms.len() as int + 1) == committed(vms, vms.len() as int) + (
        match m.status {
            VmStatus::Running => m.memory_mib as nat,
            VmStatus::Paused => m.memory_mib as nat,
            VmStatus::Created => 0nat,
            VmStatus::Stopped => 0nat,
        }),
{
    lemma_committed_of_the_first(vms, m, vms.len() as int);
}

proof fn lemma_committed_of_the_first(vms: Seq<VmMetadata>, m: VmMetadata, n: int)
    requires
        0 <= n <= vms.len(),
    ensures
        committed(vms.push(m), n) == committed(vms, n),
    decreases n,
{
    if n > 0 {
        lemma_committed_of_the_first(vms, m, n - 1);
    }
}

/// A machine is started only when a fifth of the memory of the host is left to others then;
/// and one that was created or stopped is refused for no other reason. Where the memory
/// of the host is not known, it is started.
pub proof fn law_a_fifth_is_left(
    name: Seq<char>,
    m: VmMetadata,
    vms: Seq<VmMetadata>,
    host: u32,
    unknown: String,
)
    ensures
        starting(name, m, vms, Ok(host)) is Ok <==> {
            &&& m.status == VmStatus::Created || m.status == VmStatus::Stopped
            &&& (committed(vms, vms.len() as int) + m.memory_mib) * 5 <= host * 4
        },
        starting(name, m, vms, Err(unknown)) is Ok <==> m.status == VmStatus::Created || m.status
            == VmStatus::Stopped,
        admission(vms, name, m.memory_mib, host) is Ok <==> (committed(vms, vms.len() as int)
            + m.memory_mib) * 5 <= host * 4,
{
}

/// A listing shows every machine in one of the states that are looked for, each once and in
/// the order in which they come, and no other; all of them where none is looked for.
pub proof fn law_what_is_looked_for_is_shown(
    vms: Seq<VmMetadata>,
    filters: Seq<StatusFilter>,
    n: int,
)
    requires
        0 <= n <= vms.len(),
    ensures
        ({
            let s = selected(vms, filters, n);
            &&& forall|i: int|
                0 <= i < n && filters.len() == 0 ==> #[trigger] s.contains(i)
            &&& forall|i: int, k: int|
                0 <= i < n && 0 <= k < filters.len() && looks_for(
                    #[trigger] filters[k],
                    (#[trigger] vms[i]).status,
                ) ==> s.contains(i)
            &&& forall|j: int|
                0 <= j < s.len() ==> 0 <= #[trigger] s[j] < n && (filters.len() == 0 || exists|
                    k: int,
                |
                    0 <= k < filters.len() && looks_for(#[trigger] filters[k], vms[s[j]].status))
            &&& forall|i: int, j: int| 0 <= i < j < s.len() ==> #[trigger] s[i] < #[trigger] s[j]
        }),
    decreases n,
{
    if n > 0 {
        law_what_is_looked_for_is_shown(vms, filters, n - 1);
        let before = selected(vms, filters, n - 1);
        let s = selected(vms, filters, n);
        if super::lifecycle::wanted(filters, vms[n - 1].status) {
            assert(s == before.push(n - 1));
            assert(s[before.len() as int] == n - 1);
            assert forall|i: int| before.contains(i) implies #[trigger] s.contains(i) by {
                let j = choose|j: int| 0 <= j < before.len() && before[j] == i;
                assert(s[j] == i);
            }
            assert(s.contains(n - 1));
            if filters.len() > 0 {
                let k = choose|k: int|
                    0 <= k < filters.len() && (#[trigger] filters[k]).status()
                        == vms[n - 1].status;
                assert(looks_for(filters[k], vms[n - 1].status));
            }
            assert forall|j: int| 0 <= j < s.len() implies 0 <= #[trigger] s[j] < n && (
            filters.len() == 0 || exists|k: int|
                0 <= k < filters.len() && looks_for(#[trigger] filters[k], vms[s[j]].status)) by {
                if j < before.len() {
                    assert(s[j] == before[j]);
                }
            }
        } else {
            assert forall|k: int| 0 <= k < filters.len() implies !looks_for(
                #[trigger] filters[k],
                vms[n - 1].status,
            ) by {
                assert(filters[k].status() != vms[n - 1].status);
            }
        }
    }
}

/// Whether a state is the one that is looked for.
pub open spec fn looks_for(filter: StatusFilter, status: VmStatus) -> bool {
    match filter {
        StatusFilter::Created => status == VmStatus::Created,
        StatusFilter::Running => status == VmStatus::Running,
        StatusFilter::Stopped => status == VmStatus::Stopped,
        StatusFilter::Paused => status == VmStatus::Paused,
    }
}

/// A machine that runs or is paused, or that others depend on, is deleted by force alone;
/// any other is deleted.
pub proof fn law_deleting_takes_force(
    args: RmArgs,
    m: VmMetadata,
    dependents: Vec<String>,
)
    ensures
        rm_refusal(args, m, Ok(dependents)) is Some <==> !args.force && (m.status
            == VmStatus::Running || m.status == VmStatus::Paused || dependents@.len() > 0),
{
}

} // verus!
