//! Thin volumes of a pool.

use vstd::prelude::*;
use vstd::string::*;

use crate::command::{Invocation, InvocationView};
use crate::dm;
use crate::dm::{
    device_path_of, dmsetup, is_already_exists, message_call, resume_call, suspend_call, wrote,
};
use crate::error::Error;
use crate::procedure::{must, must_or, no_steps, plan, then_must, then_must_or, Step, StepView};
use crate::text::{chars_of, dec, decimal, is_digit};

verus! {

/// What the device-mapper names of images start with, in installations without
/// an id.
pub open spec fn image_prefix_text() -> Seq<char> {
    "ember-img-"@
}

/// What the device-mapper names of machines start with, in installations
/// without an id.
pub open spec fn vm_prefix_text() -> Seq<char> {
    "ember-vm-"@
}

/// What the device-mapper names of images start with.
pub open spec fn image_prefix_of(instance_id: Option<Seq<char>>) -> Seq<char> {
    match instance_id {
        None => image_prefix_text(),
        Some(id) => "ember-"@ + id + "-img-"@,
    }
}

/// What the device-mapper names of images start with.
pub fn image_prefix(instance_id: Option<&str>) -> (r: String)
    ensures
        r@ == image_prefix_of(crate::config::opt_str(instance_id)),
{
    match instance_id {
        None => "ember-img-".to_owned(),
        Some(id) => "ember-".to_owned().concat(id).concat("-img-"),
    }
}

/// What the device-mapper names of machines start with.
pub open spec fn vm_prefix_of(instance_id: Option<Seq<char>>) -> Seq<char> {
    match instance_id {
        None => vm_prefix_text(),
        Some(id) => "ember-"@ + id + "-vm-"@,
    }
}

/// What the device-mapper names of machines start with.
pub fn vm_prefix(instance_id: Option<&str>) -> (r: String)
    ensures
        r@ == vm_prefix_of(crate::config::opt_str(instance_id)),
{
    match instance_id {
        None => "ember-vm-".to_owned(),
        Some(id) => "ember-".to_owned().concat(id).concat("-vm-"),
    }
}

/// `rand::random` for `NonZeroU64`: a random number, drawn again for as long as
/// it is zero. All that is claimed of it is that it is not zero.
#[verifier::external_body]
fn random_nonzero() -> (r: u64)
    ensures
        r != 0,
{
    rand::random::<std::num::NonZeroU64>().get()
}

/// A random id for a volume. Zero is never an id.
pub fn fresh_thin_id() -> (r: u64)
    ensures
        r != 0,
{
    random_nonzero()
}

/// The message that creates a volume.
pub open spec fn create_thin_message(id: nat) -> Seq<char> {
    "create_thin "@ + dec(id)
}

/// The message that creates a volume with the given id.
pub fn create_thin(pool_name: &str, id: u64) -> (r: Invocation)
    ensures
        r@ == message_call(pool_name@, create_thin_message(id as nat)),
{
    let digits = decimal(id);
    let msg = "create_thin ".to_owned().concat(digits.as_str());
    dm::message(pool_name, msg.as_str())
}

/// An id for a new volume, and the message that creates it. What becomes of
/// the message is for [`after_allocation`].
pub fn allocate(pool_name: &str) -> (r: (u64, Invocation))
    ensures
        r.0 != 0,
        r.1@ == message_call(pool_name@, create_thin_message(r.0 as nat)),
{
    let id: u64 = fresh_thin_id();
    (id, create_thin(pool_name, id))
}

/// The message that creates a snapshot.
pub open spec fn create_snap_message(id: nat, src_id: nat) -> Seq<char> {
    "create_snap "@ + dec(id) + " "@ + dec(src_id)
}

/// The message that creates a snapshot with the given id.
pub fn create_snap(pool_name: &str, id: u64, src_id: u64) -> (r: Invocation)
    ensures
        r@ == message_call(pool_name@, create_snap_message(id as nat, src_id as nat)),
{
    let digits = decimal(id);
    let src_digits = decimal(src_id);
    let msg = "create_snap ".to_owned().concat(digits.as_str()).concat(" ").concat(
        src_digits.as_str(),
    );
    dm::message(pool_name, msg.as_str())
}

/// An id for a new snapshot, and the message that creates it. What becomes of
/// the message is for [`after_allocation`].
pub fn allocate_snap(pool_name: &str, src_id: u64) -> (r: (u64, Invocation))
    ensures
        r.0 != 0,
        r.1@ == message_call(pool_name@, create_snap_message(r.0 as nat, src_id as nat)),
{
    let id: u64 = fresh_thin_id();
    (id, create_snap(pool_name, id, src_id))
}

/// How an allocation goes on.
#[derive(Debug)]
pub enum Allocation {
    /// The volume is there.
    Done(u64),
    /// The id was taken: try another.
    Again,
    /// It cannot be done.
    Failed(Error),
}

/// How an allocation goes on once the message with the id was sent.
pub fn after_allocation(id: u64, sent: Result<(), Error>) -> (r: Allocation)
    ensures
        match sent {
            Ok(()) => r == Allocation::Done(id),
            Err(e) => if wrote(e@, "File exists"@) {
                r is Again
            } else {
                r == Allocation::Failed(e)
            },
        },
{
    match sent {
        Ok(()) => Allocation::Done(id),
        Err(e) => {
            if is_already_exists(&e) {
                Allocation::Again
            } else {
                Allocation::Failed(e)
            }
        },
    }
}

/// The message that deletes a volume.
pub open spec fn delete_message(id: nat) -> Seq<char> {
    "delete "@ + dec(id)
}

/// The message that deletes a volume.
pub fn delete(pool_name: &str, thin_id: u64) -> (r: Invocation)
    ensures
        r@ == message_call(pool_name@, delete_message(thin_id as nat)),
{
    let digits = decimal(thin_id);
    let msg = "delete ".to_owned().concat(digits.as_str());
    dm::message(pool_name, msg.as_str())
}

/// Where a volume shows.
pub fn device_path(name: &str) -> (r: String)
    ensures
        r@ == device_path_of(name@),
{
    dm::device_path(name)
}

/// Asks whether a volume is active: the call succeeds when it is.
pub fn is_active(name: &str) -> (r: Invocation)
    ensures
        r@ == dmsetup(seq!["info"@, "--noheadings"@, name@], "dmsetup info"@),
{
    dm::device_exists(name)
}

/// The device-mapper table of a volume.
pub open spec fn thin_table_of(pool_name: Seq<char>, thin_id: nat, sectors: nat) -> Seq<char> {
    "0 "@ + dec(sectors) + " thin "@ + device_path_of(pool_name) + " "@ + dec(thin_id)
}

/// The device-mapper table of a volume.
pub fn thin_table(pool_name: &str, thin_id: u64, size_sectors: u64) -> (r: String)
    ensures
        r@ == thin_table_of(pool_name@, thin_id as nat, size_sectors as nat),
{
    let sectors = decimal(size_sectors);
    let id = decimal(thin_id);
    let pool = dm::device_path(pool_name);
    "0 ".to_owned().concat(sectors.as_str()).concat(" thin ").concat(pool.as_str()).concat(
        " ",
    ).concat(id.as_str())
}

/// The call that activates a volume.
pub open spec fn activate_call(
    name: Seq<char>,
    pool_name: Seq<char>,
    thin_id: nat,
    sectors: nat,
) -> InvocationView {
    dmsetup(
        seq!["create"@, name, "--table"@, thin_table_of(pool_name, thin_id, sectors)],
        "dmsetup create thin"@,
    )
}

/// Activates a volume.
pub fn activate(name: &str, pool_name: &str, thin_id: u64, size_sectors: u64) -> (r: Invocation)
    ensures
        r@ == activate_call(name@, pool_name@, thin_id as nat, size_sectors as nat),
{
    let table = thin_table(pool_name, thin_id, size_sectors);
    dm::call("create", "dmsetup create thin").arg(name).arg("--table").arg(
        table.as_str(),
    )
}

/// The call that deactivates a volume.
pub open spec fn deactivate_call(name: Seq<char>) -> InvocationView {
    dmsetup(seq!["remove"@, name], "dmsetup remove"@)
}

/// Deactivates a volume.
pub fn deactivate(name: &str) -> (r: Invocation)
    ensures
        r@ == deactivate_call(name@),
{
    dm::call("remove", "dmsetup remove").arg(name)
}

/// Suspends a volume.
pub fn suspend(name: &str) -> (r: Invocation)
    ensures
        r@ == suspend_call(name@),
{
    dm::suspend(name)
}

/// Resumes a volume.
pub fn resume(name: &str) -> (r: Invocation)
    ensures
        r@ == resume_call(name@),
{
    dm::resume(name)
}

/// The call that loads a table beside the live one of a volume.
pub open spec fn load_thin_call(
    name: Seq<char>,
    pool_name: Seq<char>,
    thin_id: nat,
    sectors: nat,
) -> InvocationView {
    dmsetup(
        seq!["load"@, name, "--table"@, thin_table_of(pool_name, thin_id, sectors)],
        "dmsetup load thin"@,
    )
}

/// How a volume gets another size while it stands still.
pub open spec fn reloading(
    name: Seq<char>,
    pool_name: Seq<char>,
    thin_id: nat,
    sectors: nat,
) -> Seq<StepView<InvocationView>> {
    seq![
        must(suspend_call(name)),
        must_or(load_thin_call(name, pool_name, thin_id, sectors), seq![resume_call(name)]),
        must(resume_call(name)),
    ]
}

/// Gives a volume another size while it stands still. When that is refused, it
/// goes on with the old one.
pub fn reload_size(name: &str, pool_name: &str, thin_id: u64, new_size_sectors: u64) -> (r: Vec<
    Step<Invocation>,
>)
    ensures
        plan(r@) == reloading(name@, pool_name@, thin_id as nat, new_size_sectors as nat),
{
    let table = thin_table(pool_name, thin_id, new_size_sectors);
    let load = dm::call("load", "dmsetup load thin").arg(name).arg(
        "--table",
    ).arg(table.as_str());
    assert(load@ =~= load_thin_call(name@, pool_name@, thin_id as nat, new_size_sectors as nat));
    let steps = then_must(no_steps(), suspend(name));
    let steps = then_must_or(steps, load, resume(name));
    then_must(steps, resume(name))
}

/// Whether a device-mapper name may hold `c`.
pub open spec fn is_name_char(c: char) -> bool {
    is_digit(c) || 'a' <= c <= 'z' || 'A' <= c <= 'Z' || c == '-' || c == '_'
}

/// `s` with an underscore in place of what a device-mapper name may not hold.
pub open spec fn sanitized(s: Seq<char>) -> Seq<char> {
    s.map_values(
        |c: char|
            if is_name_char(c) {
                c
            } else {
                '_'
            },
    )
}

/// `name` with an underscore in place of what a device-mapper name may not
/// hold.
pub fn sanitize_dm_name(name: &str) -> (r: String)
    ensures
        r@ == sanitized(name@),
{
    let v = chars_of(name);
    let mut r = String::new();
    let mut i: usize = 0;
    assert(r@ =~= sanitized(name@).take(0));
    while i < v.len()
        invariant
            i <= v.len(),
            v@ == name@,
            r@ == sanitized(name@).take(i as int),
        decreases v.len() - i,
    {
        let c = v[i];
        let keep = (c >= '0' && c <= '9') || (c >= 'a' && c <= 'z') || (c >= 'A' && c <= 'Z') || c
            == '-' || c == '_';
        assert(sanitized(name@).take(i + 1) =~= sanitized(name@).take(i as int).push(
            sanitized(name@)[i as int],
        ));
        if keep {
            r.push(c);
        } else {
            r.push('_');
        }
        i = i + 1;
    }
    assert(sanitized(name@).take(i as int) =~= sanitized(name@));
    r
}

/// A name that is made fit is fit, has as many characters, and is left alone
/// when it was fit.
pub proof fn law_sanitized(s: Seq<char>)
    ensures
        sanitized(s).len() == s.len(),
        forall|i: int| 0 <= i < s.len() ==> is_name_char(#[trigger] sanitized(s)[i]),
        (forall|i: int| 0 <= i < s.len() ==> is_name_char(#[trigger] s[i])) ==> sanitized(s) == s,
        sanitized(sanitized(s)) == sanitized(s),
{
    if forall|i: int| 0 <= i < s.len() ==> is_name_char(#[trigger] s[i]) {
        assert(sanitized(s) =~= s);
    }
    assert(sanitized(sanitized(s)) =~= sanitized(s));
}

/// The device-mapper name of what is called `name`, below a prefix.
pub fn dm_name(prefix: &str, name: &str) -> (r: String)
    ensures
        r@ == prefix@ + sanitized(name@),
{
    let clean = sanitize_dm_name(name);
    prefix.to_owned().concat(clean.as_str())
}

/// The device-mapper name that an image has while it is written, below a
/// prefix.
pub fn staging_dm_name(prefix: &str, name: &str) -> (r: String)
    ensures
        r@ == prefix@ + sanitized(name@) + "-staging"@,
{
    dm_name(prefix, name).concat("-staging")
}

/// The device-mapper name of a machine.
pub fn vm_dm_name(vm_name: &str) -> (r: String)
    ensures
        r@ == vm_prefix_text() + sanitized(vm_name@),
{
    dm_name("ember-vm-", vm_name)
}

/// The device-mapper name of an image.
pub fn image_dm_name(image_name: &str) -> (r: String)
    ensures
        r@ == image_prefix_text() + sanitized(image_name@),
{
    dm_name("ember-img-", image_name)
}

/// The device-mapper name that an image has while it is written.
pub fn image_staging_dm_name(image_name: &str) -> (r: String)
    ensures
        r@ == image_prefix_text() + sanitized(image_name@) + "-staging"@,
{
    staging_dm_name("ember-img-", image_name)
}

/// Where the disk of a machine shows.
pub fn vm_device_path(vm_name: &str) -> (r: String)
    ensures
        r@ == device_path_of(vm_prefix_text() + sanitized(vm_name@)),
{
    let name = vm_dm_name(vm_name);
    device_path(name.as_str())
}

} // verus!
