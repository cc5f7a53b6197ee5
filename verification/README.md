# ember

Manages lightweight virtual machines from the command line: their disks, their
networks, their snapshots, and the images and kernels that they are made from.

The crate has two parts.

* `src/` is the library. It holds what ember decides and computes: how sizes,
  addresses and the output of tools are read, what is refused and why, which
  programs are called with which arguments, in which order things are done and
  what is undone when one of them fails. All of it is verified with Verus.
* `app/` is the program. It parses the command line, reads and writes files, runs
  programs and talks to machines, as the library tells it to.

## How the library is laid out

| Modules | What they are about |
|---|---|
| `text`, `number`, `size`, `path`, `calendar` | texts, figures, sizes, paths and dates |
| `command`, `procedure`, `rollback`, `error` | programs to call, steps to carry out and to undo, errors |
| `config`, `vm`, `image`, `backend`, `usage` | the records that an installation keeps |
| `store`, `transaction` | the files of the state, and what holds when several processes change one |
| `ip`, `iptables`, `vm_rules`, `policy`, `firewall`, `network`, `reconcile` | addresses and firewall rules |
| `zfs`, `dm`, `thin`, `thin_tools`, `vdo`, `dm_thin_storage`, `storage`, `mount`, `linux_image` | storage on Linux |
| `macos_image`, `macos_storage`, `macos_vm`, `extents` | storage and machines on macOS |
| `firecracker`, `cgroup`, `ssh_exec`, `kernel` | machines that run, and the kernels they boot |
| `cli` | the commands |

A plan is a list of steps (`procedure`): an action, what to do in its place when
it fails, and whether the rest goes on then. Whoever carries out a plan asks for
the first action and, each time it is told how one went, for the next. That the
order is the one that the plan says is proved in `procedure`; what the plans say
is in the contracts of the functions that make them.

Proof functions whose name starts with `law_` state what holds of the library as a
whole, such as that no change to a file of the state is lost, that a disk that
could not be set up leaves nothing behind, or that a size that is written out
reads back as itself.
