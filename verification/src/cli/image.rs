//! Images: pulling, building, listing and deleting them.

use vstd::prelude::*;
use vstd::string::*;

use super::fmt::{left, left_in, right, right_in};
use super::lifecycle::{join_texts, joined_texts};
use super::vm::OutputFormat;
use crate::command::{nothing, with};
use crate::config::GlobalConfig;
use crate::error::{error_text, Error};
use crate::image::{new_entry, EntryView, ImageEntry};
use crate::procedure::{
    and, first_failure, law_failure_stops, law_performed_up_to_the_failure, may, must, must_or,
    no_actions, no_steps, performed, plan, then_all, then_may, then_must, then_must_undo, views, Step, StepView,
};
use crate::text::{dec, decimal, lemma_texts_push, same, texts};
use crate::vm::VmMetadata;
use crate::zfs::storage::{datasets_of, LinuxStorage};

verus! {

#[derive(Debug)]
pub struct PullArgs {
    pub reference: String,
}

#[derive(Debug)]
pub struct BuildArgs {
    pub name: String,
    pub dockerfile: Option<String>,
}

#[derive(Debug)]
pub struct ListArgs {
    pub format: OutputFormat,
}

#[derive(Debug)]
pub struct DeleteArgs {
    pub name: String,
    pub force: bool,
}

#[derive(Debug)]
pub struct InspectArgs {
    pub name: String,
    pub format: OutputFormat,
}

/// A command about images.
#[derive(Debug)]
pub enum ImageCommand {
    Pull(PullArgs),
    Build(BuildArgs),
    List(ListArgs),
    Delete(DeleteArgs),
    Inspect(InspectArgs),
}

// ---------------------------------------------------------------------
// Finding
// ---------------------------------------------------------------------

/// Whether an image of this name is there.
pub open spec fn has_image(images: Seq<ImageEntry>, local_name: Seq<char>) -> bool {
    exists|i: int| 0 <= i < images.len() && (#[trigger] images[i]).local_name@ == local_name
}

/// The number of the first image of a name.
pub fn find(images: &Vec<ImageEntry>, local_name: &str) -> (r: Option<usize>)
    ensures
        match r {
            Some(i) => {
                &&& i < images@.len()
                &&& images@[i as int].local_name@ == local_name@
                &&& forall|k: int|
                    0 <= k < i ==> (#[trigger] images@[k]).local_name@ != local_name@
            },
            None => !has_image(images@, local_name@),
        },
{
    let mut i: usize = 0;
    while i < images.len()
        invariant
            i <= images.len(),
            forall|k: int| 0 <= k < i ==> (#[trigger] images@[k]).local_name@ != local_name@,
        decreases images.len() - i,
    {
        if same(images[i].local_name.as_str(), local_name) {
            return Some(i);
        }
        i = i + 1;
    }
    None
}

/// The name under which an image is there: as a reference would be kept, or as
/// it is.
pub open spec fn local_name_of(images: Seq<ImageEntry>, name: Seq<char>, as_reference: Seq<char>) -> Result<
    Seq<char>,
    Seq<char>,
> {
    if has_image(images, as_reference) {
        Ok(as_reference)
    } else if has_image(images, name) {
        Ok(name)
    } else {
        Err(
            "image '"@ + name
                + "' not found locally\nHint: run 'ember image list' to see available images, or 'ember image pull "@
                + name + "' to pull it"@,
        )
    }
}

/// The name under which an image is there. `as_reference` is the name that it
/// would be kept under if `name` was a reference to pull.
pub fn resolve_local_name(images: &Vec<ImageEntry>, name: &str, as_reference: &str) -> (r: Result<
    String,
    String,
>)
    ensures
        match r {
            Ok(n) => local_name_of(images@, name@, as_reference@) == Ok::<Seq<char>, Seq<char>>(n@),
            Err(e) => local_name_of(images@, name@, as_reference@) == Err::<Seq<char>, Seq<char>>(
                e@,
            ),
        },
{
    let first = find(images, as_reference);
    if first.is_some() {
        assert(has_image(images@, as_reference@));
        return Ok(as_reference.to_owned());
    }
    let second = find(images, name);
    if second.is_some() {
        assert(has_image(images@, name@));
        return Ok(name.to_owned());
    }
    Err(
        "image '".to_owned().concat(name).concat(
            "' not found locally\nHint: run 'ember image list' to see available images, or 'ember image pull ",
        ).concat(name).concat("' to pull it"),
    )
}

/// The number of the image that is meant by a name, or the words that it is not
/// there.
pub fn pick(images: &Vec<ImageEntry>, name: &str, as_reference: &str) -> (r: Result<usize, String>)
    ensures
        match r {
            Ok(i) => {
                &&& i < images@.len()
                &&& local_name_of(images@, name@, as_reference@) == Ok::<Seq<char>, Seq<char>>(
                    images@[i as int].local_name@,
                )
                &&& forall|k: int|
                    0 <= k < i ==> (#[trigger] images@[k]).local_name@
                        != images@[i as int].local_name@
            },
            Err(e) => local_name_of(images@, name@, as_reference@) == Err::<Seq<char>, Seq<char>>(
                e@,
            ),
        },
{
    let local_name = resolve_local_name(images, name, as_reference)?;
    match find(images, local_name.as_str()) {
        Some(i) => Ok(i),
        None => Err(not_found(name)),
    }
}

// ---------------------------------------------------------------------
// Pulling and building
// ---------------------------------------------------------------------

/// Something to do about an image.
#[derive(Debug, PartialEq)]
pub enum ImageAction {
    /// Tell the user.
    Say(String),
    /// Tell the user that something went wrong.
    Warn(String),
    /// Fetch the image and unpack it.
    PullLayers,
    /// Build the image and unpack it.
    BuildLayers,
    /// Put a key for logging in into what was unpacked.
    InjectKey(String),
    InjectResolvConf,
    InjectInittab,
    /// Make a file system of so many MiB from what was unpacked.
    CreateFilesystem(u64),
    /// Make a volume of so many MiB.
    CreateVolume(String, u64),
    /// Write the file system to the volume, and take a snapshot of it.
    WriteVolume(String),
    DestroyVolume(String),
    /// Keep the record of the image.
    SaveEntry(ImageEntry),
    /// Remove the record of the image.
    RemoveEntry(String),
    /// Kill a process.
    Kill(u32),
    /// Wait for a process to end.
    WaitForExit(u32),
    /// Destroy the volume of a machine. When that fails the user is warned: see
    /// [`destroy_warning`].
    DestroyVmVolume(String),
    RemoveSocket(String),
    /// Let the devices of the host come to rest.
    Settle,
    /// Remove the record of a machine.
    DeleteRecord(String),
    /// Fail with these words.
    Refuse(String),
}

/// An [`ImageAction`], its strings taken by their texts.
#[verifier::ext_equal]
pub enum ImageView {
    Say(Seq<char>),
    Warn(Seq<char>),
    PullLayers,
    BuildLayers,
    InjectKey(Seq<char>),
    InjectResolvConf,
    InjectInittab,
    CreateFilesystem(u64),
    CreateVolume(Seq<char>, u64),
    WriteVolume(Seq<char>),
    DestroyVolume(Seq<char>),
    SaveEntry(EntryView),
    RemoveEntry(Seq<char>),
    Kill(u32),
    WaitForExit(u32),
    DestroyVmVolume(Seq<char>),
    RemoveSocket(Seq<char>),
    Settle,
    DeleteRecord(Seq<char>),
    Refuse(Seq<char>),
}

impl View for ImageAction {
    type V = ImageView;

    open spec fn view(&self) -> ImageView {
        match self {
            ImageAction::Say(s) => ImageView::Say(s@),
            ImageAction::Warn(s) => ImageView::Warn(s@),
            ImageAction::PullLayers => ImageView::PullLayers,
            ImageAction::BuildLayers => ImageView::BuildLayers,
            ImageAction::InjectKey(p) => ImageView::InjectKey(p@),
            ImageAction::InjectResolvConf => ImageView::InjectResolvConf,
            ImageAction::InjectInittab => ImageView::InjectInittab,
            ImageAction::CreateFilesystem(n) => ImageView::CreateFilesystem(*n),
            ImageAction::CreateVolume(v, n) => ImageView::CreateVolume(v@, *n),
            ImageAction::WriteVolume(v) => ImageView::WriteVolume(v@),
            ImageAction::DestroyVolume(v) => ImageView::DestroyVolume(v@),
            ImageAction::SaveEntry(e) => ImageView::SaveEntry(e@),
            ImageAction::RemoveEntry(n) => ImageView::RemoveEntry(n@),
            ImageAction::Kill(p) => ImageView::Kill(*p),
            ImageAction::WaitForExit(p) => ImageView::WaitForExit(*p),
            ImageAction::DestroyVmVolume(v) => ImageView::DestroyVmVolume(v@),
            ImageAction::RemoveSocket(p) => ImageView::RemoveSocket(p@),
            ImageAction::Settle => ImageView::Settle,
            ImageAction::DeleteRecord(n) => ImageView::DeleteRecord(n@),
            ImageAction::Refuse(s) => ImageView::Refuse(s@),
        }
    }
}

/// The public key of whoever makes an image: where it should be, and whether it
/// is there.
#[derive(Debug)]
pub struct KeyProbe {
    pub path: String,
    pub there: bool,
}

/// What is done about the key for logging in.
pub open spec fn key_plan(key: Option<KeyProbe>) -> Seq<StepView<ImageView>> {
    match key {
        None => seq![],
        Some(k) => if k.there {
            seq![
                must(
                    ImageView::Say("  Injecting SSH public key from "@ + k.path@ + "..."@),
                ),
                must(ImageView::InjectKey(k.path@)),
            ]
        } else {
            seq![
                must(
                    ImageView::Say(
                        "  Warning: SSH public key not found at "@ + k.path@
                            + ", skipping injection."@,
                    ),
                ),
            ]
        },
    }
}

fn then_key(steps: Vec<Step<ImageAction>>, key: &Option<KeyProbe>) -> (r: Vec<Step<ImageAction>>)
    ensures
        plan(r@) == plan(steps@) + key_plan(*key),
{
    let ghost before = plan(steps@);
    let mut r = steps;
    match key {
        None => {},
        Some(k) => {
            if k.there {
                let t = "  Injecting SSH public key from ".to_owned().concat(
                    k.path.as_str(),
                ).concat("...");
                r = then_must(r, ImageAction::Say(t));
                r = then_must(r, ImageAction::InjectKey(k.path.clone()));
            } else {
                let t = "  Warning: SSH public key not found at ".to_owned().concat(
                    k.path.as_str(),
                ).concat(", skipping injection.");
                r = then_must(r, ImageAction::Say(t));
            }
        },
    }
    assert(plan(r@) =~= before + key_plan(*key));
    r
}

/// What the user is told of an image that is there already.
pub fn already_pulled(reference: &str, local_name: &str) -> (r: String)
    ensures
        r@ == "Image '"@ + reference@ + "' already exists locally as '"@ + local_name@ + "'."@,
{
    "Image '".to_owned().concat(reference).concat("' already exists locally as '").concat(
        local_name,
    ).concat("'.")
}

/// How an image is pulled and unpacked, unless it is there.
pub open spec fn pull_plan(
    there: bool,
    reference: Seq<char>,
    local_name: Seq<char>,
    key: Option<KeyProbe>,
) -> Seq<StepView<ImageView>> {
    if there {
        seq![
            must(
                ImageView::Say(
                    "Image '"@ + reference + "' already exists locally as '"@ + local_name + "'."@,
                ),
            ),
        ]
    } else {
        seq![
            must(ImageView::Say("Pulling "@ + reference + "..."@)),
            must(ImageView::Say("  Downloading and unpacking layers..."@)),
            must(ImageView::PullLayers),
        ] + key_plan(key) + seq![
            must(ImageView::InjectResolvConf),
            must(ImageView::InjectInittab),
        ]
    }
}

/// How an image is pulled and unpacked, and whether there is one to be stored
/// then: one that is there is left as it is.
pub fn pull(
    images: &Vec<ImageEntry>,
    reference: &str,
    local_name: &str,
    key: &Option<KeyProbe>,
) -> (r: (Vec<Step<ImageAction>>, bool))
    ensures
        plan(r.0@) == pull_plan(
            has_image(images@, local_name@),
            reference@,
            local_name@,
            *key,
        ),
        r.1 == !has_image(images@, local_name@),
{
    if find(images, local_name).is_some() {
        let steps = then_must(
            no_steps(),
            ImageAction::Say(already_pulled(reference, local_name)),
        );
        assert(plan(steps@) =~= pull_plan(true, reference@, local_name@, *key));
        return (steps, false);
    }
    let t = "Pulling ".to_owned().concat(reference).concat("...");
    let steps = then_must(no_steps(), ImageAction::Say(t));
    let steps = then_must(
        steps,
        ImageAction::Say("  Downloading and unpacking layers...".to_owned()),
    );
    let steps = then_must(steps, ImageAction::PullLayers);
    let ghost head = plan(steps@);
    assert(head =~= seq![
        must(ImageView::Say("Pulling "@ + reference@ + "..."@)),
        must(ImageView::Say("  Downloading and unpacking layers..."@)),
        must(ImageView::PullLayers),
    ]);
    let steps = then_key(steps, key);
    let ghost mid = plan(steps@);
    let steps = then_must(steps, ImageAction::InjectResolvConf);
    let steps = then_must(steps, ImageAction::InjectInittab);
    assert(plan(steps@) =~= mid + seq![
        must(ImageView::InjectResolvConf),
        must(ImageView::InjectInittab),
    ]);
    (steps, true)
}

/// Whether what an image is to be built from is there, where one says what.
pub open spec fn source_is_there(args: BuildArgs, there: bool) -> bool {
    args.dockerfile is None || there
}

/// How an image is built and unpacked, unless it is there or there is nothing to
/// build it from.
pub open spec fn build_plan(
    there: bool,
    args: BuildArgs,
    local_name: Seq<char>,
    dockerfile_there: bool,
    key: Option<KeyProbe>,
) -> Seq<StepView<ImageView>> {
    if there {
        seq![must(ImageView::Say("Image '"@ + local_name + "' already exists locally."@))]
    } else {
        seq![must(ImageView::Say("Building image '"@ + args.name@ + "'..."@))] + (
        if source_is_there(args, dockerfile_there) {
            seq![
                must(ImageView::Say("  Building container image..."@)),
                must(ImageView::BuildLayers),
            ] + key_plan(key) + seq![must(ImageView::InjectResolvConf)]
        } else {
            seq![must(ImageView::Refuse("Dockerfile not found: "@ + args.dockerfile->0@))]
        })
    }
}

/// How an image is built and unpacked, and whether there is one to be stored
/// then. `dockerfile_there` says whether what it is to be built from is there,
/// where the arguments say what.
pub fn build(
    images: &Vec<ImageEntry>,
    args: &BuildArgs,
    local_name: &str,
    dockerfile_there: bool,
    key: &Option<KeyProbe>,
) -> (r: (Vec<Step<ImageAction>>, bool))
    ensures
        plan(r.0@) == build_plan(
            has_image(images@, local_name@),
            *args,
            local_name@,
            dockerfile_there,
            *key,
        ),
        r.1 == (!has_image(images@, local_name@) && source_is_there(*args, dockerfile_there)),
{
    if find(images, local_name).is_some() {
        let t = "Image '".to_owned().concat(local_name).concat("' already exists locally.");
        let steps = then_must(no_steps(), ImageAction::Say(t));
        assert(plan(steps@) =~= build_plan(true, *args, local_name@, dockerfile_there, *key));
        return (steps, false);
    }
    let t = "Building image '".to_owned().concat(args.name.as_str()).concat("'...");
    let steps = then_must(no_steps(), ImageAction::Say(t));
    match &args.dockerfile {
        Some(p) => {
            if !dockerfile_there {
                let why = "Dockerfile not found: ".to_owned().concat(p.as_str());
                let steps = then_must(steps, ImageAction::Refuse(why));
                assert(plan(steps@) =~= build_plan(
                    false,
                    *args,
                    local_name@,
                    dockerfile_there,
                    *key,
                ));
                return (steps, false);
            }
        },
        None => {},
    }
    let ghost first = plan(steps@);
    let steps = then_must(
        steps,
        ImageAction::Say("  Building container image...".to_owned()),
    );
    let steps = then_must(steps, ImageAction::BuildLayers);
    let ghost head = seq![
        must(ImageView::Say("  Building container image..."@)),
        must(ImageView::BuildLayers),
    ];
    assert(plan(steps@) =~= first + head);
    let steps = then_key(steps, key);
    assert(plan(steps@) =~= first + (head + key_plan(*key)));
    let steps = then_must(steps, ImageAction::InjectResolvConf);
    assert(plan(steps@) =~= first + (head + key_plan(*key) + seq![
        must(ImageView::InjectResolvConf),
    ]));
    (steps, true)
}

/// What the user is told once an image is pulled.
pub fn pulled_text(reference: &str, local_name: &str) -> (r: String)
    ensures
        r@ == "Image '"@ + reference@ + "' pulled successfully as '"@ + local_name@ + "'."@,
{
    "Image '".to_owned().concat(reference).concat("' pulled successfully as '").concat(
        local_name,
    ).concat("'.")
}

/// What the user is told once an image is built.
pub fn built_text(local_name: &str) -> (r: String)
    ensures
        r@ == "Image '"@ + local_name@ + "' built successfully."@,
{
    "Image '".to_owned().concat(local_name).concat("' built successfully.")
}

/// The error for an image that is not there.
pub fn not_found(name: &str) -> (r: String)
    ensures
        r@ == "image '"@ + name@
            + "' not found locally\nHint: run 'ember image list' to see available images"@,
{
    "image '".to_owned().concat(name).concat(
        "' not found locally\nHint: run 'ember image list' to see available images",
    )
}

/// What undoes a volume.
pub open spec fn undo_volume(zvol: Seq<char>) -> Seq<ImageView> {
    seq![
        ImageView::Warn("Operation failed, rolling back..."@),
        ImageView::Warn("  Cleaning up ZFS zvol..."@),
        ImageView::DestroyVolume(zvol),
    ]
}

fn undo_volume_actions(zvol: &str) -> (r: Vec<ImageAction>)
    ensures
        views(r@) == undo_volume(zvol@),
{
    let r = and(
        no_actions(),
        ImageAction::Warn("Operation failed, rolling back...".to_owned()),
    );
    let r = and(r, ImageAction::Warn("  Cleaning up ZFS zvol...".to_owned()));
    let r = and(r, ImageAction::DestroyVolume(zvol.to_owned()));
    assert(views(r@) =~= undo_volume(zvol@));
    r
}

/// How what was unpacked becomes an image: a file system is made from it and
/// written to a volume, and the image is recorded. The volume is destroyed again
/// when anything fails after it was made. In the end the user is told `done`.
pub open spec fn storing(zvol: Seq<char>, size_mib: u64, entry: EntryView, done: Seq<char>) -> Seq<
    StepView<ImageView>,
> {
    seq![
        must(ImageView::Say("  Creating ext4 image ("@ + dec(size_mib as nat) + " MiB)..."@)),
        must(ImageView::CreateFilesystem(size_mib)),
        must(ImageView::Say("  Creating zvol "@ + zvol + "..."@)),
        must(ImageView::CreateVolume(zvol, size_mib)),
        must_or(
            ImageView::Say("  Writing image to zvol and creating @base snapshot..."@),
            undo_volume(zvol),
        ),
        must_or(ImageView::WriteVolume(zvol), undo_volume(zvol)),
        must_or(ImageView::SaveEntry(entry), undo_volume(zvol)),
        must(ImageView::Say(done)),
    ]
}

fn store_image(zvol: &str, entry: ImageEntry, done: String) -> (r: Vec<Step<ImageAction>>)
    ensures
        plan(r@) == storing(zvol@, entry.size_mib, entry@, done@),
{
    let size_mib: u64 = entry.size_mib;
    let n = decimal(size_mib);
    let t = "  Creating ext4 image (".to_owned().concat(n.as_str()).concat(" MiB)...");
    let steps = then_must(no_steps(), ImageAction::Say(t));
    let steps = then_must(steps, ImageAction::CreateFilesystem(size_mib));
    let t = "  Creating zvol ".to_owned().concat(zvol).concat("...");
    let steps = then_must(steps, ImageAction::Say(t));
    let steps = then_must(steps, ImageAction::CreateVolume(zvol.to_owned(), size_mib));
    let steps = then_must_undo(
        steps,
        ImageAction::Say("  Writing image to zvol and creating @base snapshot...".to_owned()),
        undo_volume_actions(zvol),
    );
    let steps = then_must_undo(
        steps,
        ImageAction::WriteVolume(zvol.to_owned()),
        undo_volume_actions(zvol),
    );
    let steps = then_must_undo(
        steps,
        ImageAction::SaveEntry(entry),
        undo_volume_actions(zvol),
    );
    then_must(steps, ImageAction::Say(done))
}

/// The volume of an image of an installation.
pub open spec fn volume_of(config: GlobalConfig, local_name: Seq<char>) -> Seq<char> {
    config.pool@ + "/"@ + config.dataset@ + "/images"@ + "/"@ + local_name
}

fn volume(config: &GlobalConfig, local_name: &str) -> (r: String)
    ensures
        r@ == volume_of(*config, local_name@),
{
    config.images_dataset().concat("/").concat(local_name)
}

/// How an image that was pulled as `reference` is stored and recorded.
pub open spec fn store_pulled_plan(
    config: GlobalConfig,
    reference: Seq<char>,
    local_name: Seq<char>,
    size_mib: u64,
    now: Seq<char>,
) -> Seq<StepView<ImageView>> {
    storing(
        volume_of(config, local_name),
        size_mib,
        EntryView {
            reference: reference,
            local_name,
            disk_path: volume_of(config, local_name),
            size_mib,
            pulled_at: now,
            thin_id: None,
        },
        "Image '"@ + reference + "' pulled successfully as '"@ + local_name + "'."@,
    )
}

/// How an image that was pulled as `reference` and unpacked is stored under its
/// name, on a volume of `size_mib` MiB, and recorded. `now` is when it was pulled.
pub fn store_pulled(
    config: &GlobalConfig,
    reference: &str,
    local_name: &str,
    size_mib: u64,
    now: &str,
) -> (r: Vec<Step<ImageAction>>)
    ensures
        plan(r@) == store_pulled_plan(*config, reference@, local_name@, size_mib, now@),
{
    let zvol = volume(config, local_name);
    let entry = new_entry(reference, local_name, zvol.as_str(), size_mib, now);
    store_image(zvol.as_str(), entry, pulled_text(reference, local_name))
}

/// How an image that was built as `name` is stored and recorded.
pub open spec fn store_built_plan(
    config: GlobalConfig,
    name: Seq<char>,
    local_name: Seq<char>,
    size_mib: u64,
    now: Seq<char>,
) -> Seq<StepView<ImageView>> {
    storing(
        volume_of(config, local_name),
        size_mib,
        EntryView {
            reference: name,
            local_name,
            disk_path: volume_of(config, local_name),
            size_mib,
            pulled_at: now,
            thin_id: None,
        },
        "Image '"@ + local_name + "' built successfully."@,
    )
}

/// How an image that was built as `name` and unpacked is stored under its local
/// name, on a volume of `size_mib` MiB, and recorded. `now` is when it was built.
pub fn store_built(
    config: &GlobalConfig,
    name: &str,
    local_name: &str,
    size_mib: u64,
    now: &str,
) -> (r: Vec<Step<ImageAction>>)
    ensures
        plan(r@) == store_built_plan(*config, name@, local_name@, size_mib, now@),
{
    let zvol = volume(config, local_name);
    let entry = new_entry(name, local_name, zvol.as_str(), size_mib, now);
    store_image(zvol.as_str(), entry, built_text(local_name))
}

/// An image is stored on the volume that the disks of machines are cloned from,
/// and that is destroyed with the image.
pub proof fn law_machines_are_cloned_from_what_was_stored(
    config: GlobalConfig,
    s: LinuxStorage,
    local_name: Seq<char>,
)
    requires
        datasets_of(s, config),
    ensures
        volume_of(config, local_name) == s.image_volume(local_name),
{
}

/// An image is recorded only when its volume was made and written; and where that
/// volume was made but the image was not recorded, the volume is destroyed last.
pub proof fn law_what_is_recorded_was_written(
    steps: Seq<Step<ImageAction>>,
    zvol: Seq<char>,
    size_mib: u64,
    entry: EntryView,
    done: Seq<char>,
    ok: spec_fn(int) -> bool,
)
    requires
        plan(steps) == storing(zvol, size_mib, entry, done),
    ensures
        ({
            let did = views(performed(steps, ok, 0));
            &&& did.contains(ImageView::SaveEntry(entry)) ==> ok(3) && ok(5)
            &&& ok(0) && ok(1) && ok(2) && ok(3) && !(ok(4) && ok(5) && ok(6)) ==> did.len() > 0
                && did.last() == ImageView::DestroyVolume(zvol)
        }),
{
    let p = storing(zvol, size_mib, entry, done);
    let did = performed(steps, ok, 0);
    assert(steps.len() == plan(steps).len());
    assert forall|k: int| 0 <= k < 8 implies (#[trigger] steps[k])@ == p[k] by {
        assert(plan(steps)[k] == steps[k]@);
    }
    assert forall|k: int| 0 <= k < 8 implies !(#[trigger] steps[k]).tolerate by {
        assert(!p[k].tolerate);
        assert(steps[k]@.tolerate == steps[k].tolerate);
    }
    law_performed_up_to_the_failure(steps, ok, 0);
    match first_failure(steps, ok, 0) {
        Some(f) => {
            let acts = steps.subrange(0, f + 1).map_values(|s: Step<ImageAction>| s.action);
            assert(did == acts + steps[f].undo@);
            assert(views(steps[f].undo@) == p[f].undo);
            assert forall|j: int| 0 <= j < views(did).len() implies #[trigger] views(did)[j] == (
            if j <= f {
                p[j].action
            } else {
                p[f].undo[j - f - 1]
            }) by {
                if j <= f {
                    assert(did[j] == steps[j].action);
                    assert(steps[j]@.action == p[j].action);
                } else {
                    assert(did[j] == steps[f].undo@[j - f - 1]);
                    assert(views(steps[f].undo@)[j - f - 1] == steps[f].undo@[j - f - 1]@);
                }
            }
            if !ok(4) || !ok(5) || !ok(6) {
                if ok(0) && ok(1) && ok(2) && ok(3) {
                    assert(f >= 4) by {
                        assert(ok(0) && ok(1) && ok(2) && ok(3));
                    }
                    assert(f <= 6) by {
                        assert(!steps[4].tolerate && !steps[5].tolerate && !steps[6].tolerate);
                    }
                    assert(p[f].undo == undo_volume(zvol));
                    assert(views(did).len() == f + 4);
                    assert(views(did)[f + 3] == p[f].undo[2]);
                }
            }
            if views(did).contains(ImageView::SaveEntry(entry)) {
                let j = choose|j: int|
                    0 <= j < views(did).len() && views(did)[j] == ImageView::SaveEntry(entry);
                assert(j == 6 && f >= 6);
                assert(!steps[3].tolerate && !steps[5].tolerate);
            }
        },
        None => {
            assert(!steps[3].tolerate && !steps[4].tolerate && !steps[5].tolerate
                && !steps[6].tolerate);
        },
    }
}

// ---------------------------------------------------------------------
// Listing
// ---------------------------------------------------------------------

/// A line about an image.
pub open spec fn image_line(e: ImageEntry) -> Seq<char> {
    left_in(e.reference@, 40) + " "@ + left_in(e.local_name@, 30) + " "@ + right_in(
        dec(e.size_mib as nat),
        5,
    ) + " MiB "@ + e.pulled_at@
}

/// The lines about images.
pub open spec fn image_lines(images: Seq<ImageEntry>) -> Seq<Seq<char>> {
    images.map_values(|e: ImageEntry| image_line(e))
}

fn line_of(e: &ImageEntry) -> (r: String)
    ensures
        r@ == image_line(*e),
{
    let b = left(e.local_name.as_str(), 30);
    let n = decimal(e.size_mib);
    let c = right(n.as_str(), 5);
    left(e.reference.as_str(), 40).concat(" ").concat(b.as_str()).concat(" ").concat(
        c.as_str(),
    ).concat(" MiB ").concat(e.pulled_at.as_str())
}

/// The lines of the table of images.
pub fn list(images: &Vec<ImageEntry>) -> (r: Vec<String>)
    ensures
        texts(r@) == (if images@.len() == 0 {
            seq!["No images found. Pull one with: ember image pull <reference>"@]
        } else {
            seq![
                left_in("REFERENCE"@, 40) + " "@ + left_in("LOCAL NAME"@, 30) + " "@ + right_in(
                    "SIZE"@,
                    8,
                ) + " PULLED"@,
            ] + image_lines(images@)
        }),
{
    if images.len() == 0 {
        return with(
            nothing(),
            "No images found. Pull one with: ember image pull <reference>",
        );
    }
    let b = left("LOCAL NAME", 30);
    let c = right("SIZE", 8);
    let head = left("REFERENCE", 40).concat(" ").concat(b.as_str()).concat(" ").concat(
        c.as_str(),
    ).concat(" PULLED");
    let mut r = with(nothing(), head.as_str());
    let ghost first = seq![head@];
    let ghost all = image_lines(images@);
    let mut i: usize = 0;
    assert(texts(r@) =~= first + all.take(0));
    while i < images.len()
        invariant
            i <= images.len(),
            all == image_lines(images@),
            texts(r@) == first + all.take(i as int),
        decreases images.len() - i,
    {
        let t = line_of(&images[i]);
        r = with(r, t.as_str());
        assert(all[i as int] == t@);
        assert(texts(r@) =~= first + all.take(i + 1));
        i = i + 1;
    }
    assert(all.take(i as int) =~= all);
    r
}

/// The lines about one image.
pub fn inspect(e: &ImageEntry) -> (r: Vec<String>)
    ensures
        texts(r@) == seq![
            "Reference:   "@ + e.reference@,
            "Local name:  "@ + e.local_name@,
            "ZFS zvol:    "@ + e.disk_path@,
            "Size:        "@ + dec(e.size_mib as nat) + " MiB"@,
            "Pulled:      "@ + e.pulled_at@,
        ],
{
    let n = decimal(e.size_mib);
    let a = "Reference:   ".to_owned().concat(e.reference.as_str());
    let b = "Local name:  ".to_owned().concat(e.local_name.as_str());
    let c = "ZFS zvol:    ".to_owned().concat(e.disk_path.as_str());
    let d = "Size:        ".to_owned().concat(n.as_str()).concat(" MiB");
    let f = "Pulled:      ".to_owned().concat(e.pulled_at.as_str());
    with(
        with(with(with(with(nothing(), a.as_str()), b.as_str()), c.as_str()), d.as_str()),
        f.as_str(),
    )
}

// ---------------------------------------------------------------------
// Deleting
// ---------------------------------------------------------------------

/// The numbers of the machines among the first `n` that were made from an image.
pub open spec fn users_of(vms: Seq<VmMetadata>, reference: Seq<char>, n: int) -> Seq<int>
    decreases n,
{
    if n <= 0 {
        seq![]
    } else if vms[n - 1].image@ == reference {
        users_of(vms, reference, n - 1).push(n - 1)
    } else {
        users_of(vms, reference, n - 1)
    }
}

/// The names of the machines among the first `n` that were made from an image.
pub open spec fn user_names(vms: Seq<VmMetadata>, reference: Seq<char>, n: int) -> Seq<Seq<char>>
    decreases n,
{
    if n <= 0 {
        seq![]
    } else if vms[n - 1].image@ == reference {
        user_names(vms, reference, n - 1).push(vms[n - 1].name@)
    } else {
        user_names(vms, reference, n - 1)
    }
}

/// The machines that go with an image that is deleted, by their numbers; or the
/// refusal to delete an image in use without force.
pub fn delete(args: &DeleteArgs, entry: &ImageEntry, vms: &Vec<VmMetadata>) -> (r: Result<
    Vec<usize>,
    String,
>)
    ensures
        match r {
            Ok(users) => {
                &&& crate::reconcile::numbers(users@) == users_of(
                    vms@,
                    entry.reference@,
                    vms@.len() as int,
                )
                &&& args.force || users@.len() == 0
            },
            Err(e) => {
                let names = user_names(vms@, entry.reference@, vms@.len() as int);
                &&& !args.force
                &&& names.len() > 0
                &&& e@ == "image '"@ + entry.reference@ + "' is in use by VM(s): "@ + joined_texts(
                    names,
                    ", "@,
                )
                    + "\nDelete them first, or use --force to delete the image and all dependent VMs."@
            },
        },
{
    let mut users: Vec<usize> = Vec::new();
    let mut names: Vec<String> = Vec::new();
    let mut i: usize = 0;
    assert(crate::reconcile::numbers(users@) =~= seq![]);
    assert(texts(names@) =~= seq![]);
    while i < vms.len()
        invariant
            i <= vms.len(),
            crate::reconcile::numbers(users@) == users_of(vms@, entry.reference@, i as int),
            texts(names@) == user_names(vms@, entry.reference@, i as int),
            users@.len() == names@.len(),
        decreases vms.len() - i,
    {
        if same(vms[i].image.as_str(), entry.reference.as_str()) {
            let ghost before = users@;
            users.push(i);
            assert(crate::reconcile::numbers(users@) =~= crate::reconcile::numbers(before).push(
                i as int,
            ));
            let n = vms[i].name.clone();
            proof {
                lemma_texts_push(names@, n);
            }
            names.push(n);
        }
        i = i + 1;
    }
    assert(texts(names@).len() == names@.len());
    if users.len() > 0 && !args.force {
        let list = join_texts(&names, ", ");
        return Err(
            "image '".to_owned().concat(entry.reference.as_str()).concat(
                "' is in use by VM(s): ",
            ).concat(list.as_str()).concat(
                "\nDelete them first, or use --force to delete the image and all dependent VMs.",
            ),
        );
    }
    Ok(users)
}

/// How an image is deleted, once nothing uses it: `volume_there` says whether
/// its volume is there.
pub open spec fn entry_plan(entry: ImageEntry, volume_there: bool) -> Seq<StepView<ImageView>> {
    (if volume_there {
        seq![
            must(ImageView::Say("Destroying zvol "@ + entry.disk_path@ + "..."@)),
            must(ImageView::DestroyVolume(entry.disk_path@)),
        ]
    } else {
        seq![]
    }) + seq![
        must(ImageView::RemoveEntry(entry.local_name@)),
        must(ImageView::Say("Image '"@ + entry.reference@ + "' deleted."@)),
    ]
}

/// How an image is deleted, once nothing uses it: `volume_there` says whether
/// its volume is there.
pub fn delete_entry(entry: &ImageEntry, volume_there: bool) -> (r: Vec<Step<ImageAction>>)
    ensures
        plan(r@) == entry_plan(*entry, volume_there),
{
    let mut steps: Vec<Step<ImageAction>> = no_steps();
    if volume_there {
        let t = "Destroying zvol ".to_owned().concat(entry.disk_path.as_str()).concat("...");
        steps = then_must(steps, ImageAction::Say(t));
        steps = then_must(steps, ImageAction::DestroyVolume(entry.disk_path.clone()));
    }
    steps = then_must(steps, ImageAction::RemoveEntry(entry.local_name.clone()));
    let t = "Image '".to_owned().concat(entry.reference.as_str()).concat("' deleted.");
    steps = then_must(steps, ImageAction::Say(t));
    assert(plan(steps@) =~= entry_plan(*entry, volume_there));
    steps
}

/// What is there of a machine.
#[derive(Debug, Clone, Copy, PartialEq, Eq, Structural)]
pub struct VmProbe {
    /// Its process.
    pub alive: bool,
    pub socket_there: bool,
    pub volume_there: bool,
}

/// How the process of a machine is ended.
pub open spec fn ending(m: VmMetadata, alive: bool, socket_there: bool) -> Seq<
    StepView<ImageView>,
> {
    if !m.status.spec_is_active() {
        seq![]
    } else {
        (if m.pid is Some && alive {
            seq![
                must(
                    ImageView::Say(
                        "  Force-killing Firecracker (pid "@ + dec(m.pid->0 as nat) + ")..."@,
                    ),
                ),
                must(ImageView::Kill(m.pid->0)),
                may(ImageView::WaitForExit(m.pid->0)),
            ]
        } else {
            seq![]
        }) + (if socket_there {
            seq![may(ImageView::RemoveSocket(m.api_socket@))]
        } else {
            seq![]
        })
    }
}

/// How a machine is deleted that goes with its image.
pub open spec fn vm_plan(m: VmMetadata, there: VmProbe) -> Seq<StepView<ImageView>> {
    seq![must(ImageView::Say("Deleting dependent VM '"@ + m.name@ + "'..."@))] + ending(
        m,
        there.alive,
        there.socket_there,
    ) + seq![may(ImageView::Settle)] + (if there.volume_there {
        seq![
            must(ImageView::Say("  Destroying zvol '"@ + m.disk_path@ + "'..."@)),
            may(ImageView::DestroyVmVolume(m.disk_path@)),
        ]
    } else {
        seq![]
    }) + seq![
        must(ImageView::DeleteRecord(m.name@)),
        must(ImageView::Say("  VM '"@ + m.name@ + "' deleted."@)),
    ]
}

/// How a machine is deleted that goes with its image.
pub fn force_delete_vm(m: &VmMetadata, there: VmProbe) -> (r: Vec<Step<ImageAction>>)
    ensures
        plan(r@) == vm_plan(*m, there),
{
    let VmProbe { alive, socket_there, volume_there } = there;
    let t = "Deleting dependent VM '".to_owned().concat(m.name.as_str()).concat("'...");
    let mut steps = then_must(no_steps(), ImageAction::Say(t));
    let ghost first = seq![must(ImageView::Say("Deleting dependent VM '"@ + m.name@ + "'..."@))];
    assert(plan(steps@) =~= first);
    if m.status.is_active() {
        match m.pid {
            Some(pid) => {
                if alive {
                    let n = decimal(pid as u64);
                    let t = "  Force-killing Firecracker (pid ".to_owned().concat(
                        n.as_str(),
                    ).concat(")...");
                    steps = then_must(steps, ImageAction::Say(t));
                    steps = then_must(steps, ImageAction::Kill(pid));
                    steps = then_may(steps, ImageAction::WaitForExit(pid));
                }
            },
            None => {},
        }
        if socket_there {
            steps = then_may(steps, ImageAction::RemoveSocket(m.api_socket.clone()));
        }
    }
    let ghost ended = first + ending(*m, alive, socket_there);
    assert(plan(steps@) =~= ended);
    steps = then_may(steps, ImageAction::Settle);
    if volume_there {
        let t = "  Destroying zvol '".to_owned().concat(m.disk_path.as_str()).concat("'...");
        steps = then_must(steps, ImageAction::Say(t));
        steps = then_may(steps, ImageAction::DestroyVmVolume(m.disk_path.clone()));
    }
    let ghost gone = ended + seq![may(ImageView::Settle)] + (if volume_there {
        seq![
            must(ImageView::Say("  Destroying zvol '"@ + m.disk_path@ + "'..."@)),
            may(ImageView::DestroyVmVolume(m.disk_path@)),
        ]
    } else {
        seq![]
    });
    assert(plan(steps@) =~= gone);
    steps = then_must(steps, ImageAction::DeleteRecord(m.name.clone()));
    let t = "  VM '".to_owned().concat(m.name.as_str()).concat("' deleted.");
    steps = then_must(steps, ImageAction::Say(t));
    assert(plan(steps@) =~= gone + seq![
        must(ImageView::DeleteRecord(m.name@)),
        must(ImageView::Say("  VM '"@ + m.name@ + "' deleted."@)),
    ]);
    steps
}

/// The warning about a volume that could not be destroyed.
pub fn destroy_warning(zvol: &str, e: &Error) -> (r: String)
    ensures
        r@ == "  Warning: failed to destroy zvol '"@ + zvol@ + "': "@ + error_text(e@),
{
    let cause = e.to_string();
    "  Warning: failed to destroy zvol '".to_owned().concat(zvol).concat("': ").concat(
        cause.as_str(),
    )
}

/// How the machines among the first `n` are deleted that were made from an image,
/// one after the other.
pub open spec fn users_plan(
    vms: Seq<VmMetadata>,
    there: Seq<VmProbe>,
    reference: Seq<char>,
    n: int,
) -> Seq<StepView<ImageView>>
    decreases n,
{
    if n <= 0 {
        seq![]
    } else if vms[n - 1].image@ == reference {
        users_plan(vms, there, reference, n - 1) + vm_plan(vms[n - 1], there[n - 1])
    } else {
        users_plan(vms, there, reference, n - 1)
    }
}

/// How an image is deleted: first all that were made from it, then its volume,
/// then its entry.
pub open spec fn delete_plan(
    entry: ImageEntry,
    vms: Seq<VmMetadata>,
    there: Seq<VmProbe>,
    volume_there: bool,
) -> Seq<StepView<ImageView>> {
    users_plan(vms, there, entry.reference@, vms.len() as int) + entry_plan(entry, volume_there)
}

/// The refusal to delete an image in use without force.
pub open spec fn delete_refusal(
    args: DeleteArgs,
    entry: ImageEntry,
    vms: Seq<VmMetadata>,
) -> Option<Seq<char>> {
    let names = user_names(vms, entry.reference@, vms.len() as int);
    if !args.force && names.len() > 0 {
        Some(
            "image '"@ + entry.reference@ + "' is in use by VM(s): "@ + joined_texts(names, ", "@)
                + "\nDelete them first, or use --force to delete the image and all dependent VMs."@,
        )
    } else {
        None
    }
}

proof fn lemma_users(vms: Seq<VmMetadata>, reference: Seq<char>, n: int)
    ensures
        users_of(vms, reference, n).len() == user_names(vms, reference, n).len(),
    decreases n,
{
    if n > 0 {
        lemma_users(vms, reference, n - 1);
    }
}

/// How an image is deleted with all that were made from it, or the refusal to.
/// `there` says of each machine what is there of it, and `volume_there` whether
/// the volume of the image is there.
pub fn delete_steps(
    args: &DeleteArgs,
    entry: &ImageEntry,
    vms: &Vec<VmMetadata>,
    there: &Vec<VmProbe>,
    volume_there: bool,
) -> (r: Result<Vec<Step<ImageAction>>, String>)
    requires
        there@.len() == vms@.len(),
    ensures
        match r {
            Ok(steps) => delete_refusal(*args, *entry, vms@) is None && plan(steps@) == delete_plan(
                *entry,
                vms@,
                there@,
                volume_there,
            ),
            Err(e) => delete_refusal(*args, *entry, vms@) == Some(e@),
        },
{
    proof {
        lemma_users(vms@, entry.reference@, vms@.len() as int);
    }
    match delete(args, entry, vms) {
        Err(e) => {
            return Err(e);
        },
        Ok(users) => {
            assert(crate::reconcile::numbers(users@).len() == users@.len());
        },
    }
    let mut steps: Vec<Step<ImageAction>> = no_steps();
    let mut i: usize = 0;
    while i < vms.len()
        invariant
            i <= vms.len(),
            there@.len() == vms@.len(),
            plan(steps@) == users_plan(vms@, there@, entry.reference@, i as int),
        decreases vms.len() - i,
    {
        if same(vms[i].image.as_str(), entry.reference.as_str()) {
            steps = then_all(steps, force_delete_vm(&vms[i], there[i]));
        }
        i = i + 1;
    }
    Ok(then_all(steps, delete_entry(entry, volume_there)))
}

/// What stands in the plan for a machine.
proof fn lemma_vm_plan(m: VmMetadata, there: VmProbe)
    ensures
        ({
            let p = vm_plan(m, there);
            &&& p.contains(must(ImageView::DeleteRecord(m.name@)))
            &&& forall|q: int| 0 <= q < p.len() ==> (#[trigger] p[q]).undo.len() == 0
            &&& forall|q: int| 0 <= q < p.len() ==> !((#[trigger] p[q]).action is RemoveEntry)
        }),
{
    let p = vm_plan(m, there);
    assert(p[p.len() - 2] == must(ImageView::DeleteRecord(m.name@)));
}

proof fn lemma_users_plan(
    vms: Seq<VmMetadata>,
    there: Seq<VmProbe>,
    reference: Seq<char>,
    n: int,
)
    requires
        0 <= n <= vms.len(),
        there.len() == vms.len(),
    ensures
        ({
            let p = users_plan(vms, there, reference, n);
            &&& forall|i: int|
                0 <= i < n && (#[trigger] vms[i]).image@ == reference ==> p.contains(
                    must(ImageView::DeleteRecord(vms[i].name@)),
                )
            &&& forall|q: int| 0 <= q < p.len() ==> (#[trigger] p[q]).undo.len() == 0
            &&& forall|q: int| 0 <= q < p.len() ==> !((#[trigger] p[q]).action is RemoveEntry)
        }),
    decreases n,
{
    if n > 0 {
        lemma_users_plan(vms, there, reference, n - 1);
        if vms[n - 1].image@ == reference {
            let a = users_plan(vms, there, reference, n - 1);
            let b = vm_plan(vms[n - 1], there[n - 1]);
            lemma_vm_plan(vms[n - 1], there[n - 1]);
            let p = a + b;
            assert forall|i: int| 0 <= i < n && (#[trigger] vms[i]).image@ == reference implies
                p.contains(must(ImageView::DeleteRecord(vms[i].name@))) by {
                let x = must(ImageView::DeleteRecord(vms[i].name@));
                if i < n - 1 {
                    let q = choose|q: int| 0 <= q < a.len() && a[q] == x;
                    assert(p[q] == x);
                } else {
                    let q = choose|q: int| 0 <= q < b.len() && b[q] == x;
                    assert(p[a.len() + q] == x);
                }
            }
        }
    }
}

/// Whether the step at the place `q` has succeeded with this action.
pub open spec fn succeeded(
    steps: Seq<Step<ImageAction>>,
    ok: spec_fn(int) -> bool,
    q: int,
    action: ImageView,
) -> bool {
    0 <= q < steps.len() && steps[q].action@ == action && ok(q)
}

/// An image goes last. Whatever fails on the way, its entry is removed only after
/// the records of all machines that were made from it were deleted and then its
/// volume was destroyed, where it had one.
pub proof fn law_image_goes_last(
    steps: Seq<Step<ImageAction>>,
    ok: spec_fn(int) -> bool,
    entry: ImageEntry,
    vms: Seq<VmMetadata>,
    there: Seq<VmProbe>,
    volume_there: bool,
    p: int,
)
    requires
        there.len() == vms.len(),
        plan(steps) == delete_plan(entry, vms, there, volume_there),
        0 <= p < performed(steps, ok, 0).len(),
        performed(steps, ok, 0)[p]@ is RemoveEntry,
    ensures
        ({
            let v = users_plan(vms, there, entry.reference@, vms.len() as int).len() + 1;
            &&& performed(steps, ok, 0)[p]@ == ImageView::RemoveEntry(entry.local_name@)
            &&& volume_there ==> v < p && succeeded(
                steps,
                ok,
                v as int,
                ImageView::DestroyVolume(entry.disk_path@),
            )
            &&& forall|i: int|
                0 <= i < vms.len() && (#[trigger] vms[i]).image@ == entry.reference@ ==> exists|
                    q: int,
                |
                    q < v && q < p && #[trigger] succeeded(
                        steps,
                        ok,
                        q,
                        ImageView::DeleteRecord(vms[i].name@),
                    )
        }),
{
    let all = plan(steps);
    let users = users_plan(vms, there, entry.reference@, vms.len() as int);
    let rest = entry_plan(entry, volume_there);
    let u = users.len() as int;
    assert(all == users + rest);
    assert(all.len() == steps.len());
    lemma_users_plan(vms, there, entry.reference@, vms.len() as int);
    assert forall|k: int| 0 <= k < steps.len() implies (#[trigger] steps[k]).undo@.len() == 0 by {
        assert(all[k] == steps[k]@);
        assert(steps[k]@.undo.len() == steps[k].undo@.len());
        if k < u {
            assert(all[k] == users[k]);
        } else {
            assert(all[k] == rest[k - u]);
        }
    }
    law_failure_stops(steps, ok, 0);
    let did = performed(steps, ok, 0);
    assert(did[p] == steps[0 + p].action);
    assert(all[p] == steps[p]@);
    if p < u {
        assert(all[p] == users[p]);
    } else {
        assert(all[p] == rest[p - u]);
    }
    assert(p == u + rest.len() - 2);
    if volume_there {
        assert(all[u + 1] == rest[1]);
        assert(all[u + 1] == steps[u + 1]@);
        assert(succeeded(steps, ok, u + 1, ImageView::DestroyVolume(entry.disk_path@)));
    }
    assert forall|i: int|
        0 <= i < vms.len() && (#[trigger] vms[i]).image@ == entry.reference@ implies exists|q: int|
        q < u + 1 && q < p && #[trigger] succeeded(
            steps,
            ok,
            q,
            ImageView::DeleteRecord(vms[i].name@),
        ) by {
        let x = must(ImageView::DeleteRecord(vms[i].name@));
        let q = choose|q: int| 0 <= q < users.len() && users[q] == x;
        assert(all[q] == users[q]);
        assert(all[q] == steps[q]@);
        assert(succeeded(steps, ok, q, ImageView::DeleteRecord(vms[i].name@)));
    }
}

} // verus!
