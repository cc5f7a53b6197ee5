//! ZFS datasets.

use vstd::prelude::*;

use crate::command::{Invocation, InvocationView};

verus! {

/// Asks whether a dataset is there: the call succeeds when it is.
pub fn query(dataset: &str) -> (r: Invocation)
    ensures
        r@ == (InvocationView {
            program: "zfs"@,
            args: seq!["list"@, "-H"@, "-o"@, "name"@, dataset@],
            label: "zfs list"@,
            start_label: "zfs list"@,
        }),
{
    Invocation::new("zfs", "zfs list").arg("list").arg("-H").arg("-o").arg("name").arg(dataset)
}

/// The call that makes a dataset.
pub open spec fn create_call(dataset: Seq<char>) -> InvocationView {
    InvocationView {
        program: "zfs"@,
        args: seq!["create"@, "-p"@, "-o"@, "mountpoint=none"@, dataset],
        label: "zfs create"@,
        start_label: "zfs create"@,
    }
}

/// The call that makes a dataset.
pub fn create(dataset: &str) -> (r: Invocation)
    ensures
        r@ == create_call(dataset@),
{
    Invocation::new("zfs", "zfs create").arg("create").arg("-p").arg("-o").arg(
        "mountpoint=none",
    ).arg(dataset)
}

} // verus!
