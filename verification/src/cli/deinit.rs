//! Taking an installation down.

use vstd::prelude::*;
use vstd::string::*;

use super::lifecycle::{join_texts, joined_texts};
use crate::error::{answer, error_text, Error};
use crate::procedure::{must, no_steps, plan, then_may, then_must, may, Step, StepView};
use crate::text::{dec, decimal, lemma_texts_push, opt_text, texts};
use crate::vm::VmMetadata;

verus! {

#[derive(Debug)]
pub struct DeinitArgs {
    pub purge: bool,
}

/// The names of machines.
pub open spec fn names_of(vms: Seq<VmMetadata>) -> Seq<Seq<char>> {
    vms.map_values(|v: VmMetadata| v.name@)
}

/// The refusal to take an installation down that still has machines.
pub open spec fn has_machines(vms: Seq<VmMetadata>) -> Seq<char> {
    "refusing to deinit while "@ + dec(vms.len()) + " VM(s) are registered: "@ + joined_texts(
        names_of(vms),
        ", "@,
    ) + "\nHint: delete them first with 'ember vm delete <name>'."@
}

fn check_no_vms(vms: &Vec<VmMetadata>) -> (r: Result<(), String>)
    ensures
        answer(r) == (if vms@.len() > 0 {
            Err::<(), Seq<char>>(has_machines(vms@))
        } else {
            Ok(())
        }),
{
    if vms.len() == 0 {
        return Ok(());
    }
    let mut names: Vec<String> = Vec::new();
    let mut i: usize = 0;
    assert(texts(names@) =~= names_of(vms@).take(0));
    while i < vms.len()
        invariant
            i <= vms.len(),
            texts(names@) == names_of(vms@).take(i as int),
        decreases vms.len() - i,
    {
        let n = vms[i].name.clone();
        proof {
            lemma_texts_push(names@, n);
        }
        names.push(n);
        assert(names_of(vms@)[i as int] == n@);
        assert(texts(names@) =~= names_of(vms@).take(i + 1));
        i = i + 1;
    }
    assert(names_of(vms@).take(i as int) =~= names_of(vms@));
    let count = decimal(vms.len() as u64);
    let list = join_texts(&names, ", ");
    Err(
        "refusing to deinit while ".to_owned().concat(count.as_str()).concat(
            " VM(s) are registered: ",
        ).concat(list.as_str()).concat(
            "\nHint: delete them first with 'ember vm delete <name>'.",
        ),
    )
}

/// Something to do to take an installation down.
#[derive(Debug, Clone, Copy, PartialEq, Eq, Structural)]
pub enum DeinitAction {
    RemoveFirewall,
    RemoveCpuGroup,
    /// Take the storage down; its files as well when told so.
    RemoveStorage(bool),
    RemoveConfig,
    /// Tell the user, given whether there was something to take down: see
    /// [`done_text`].
    Tell(bool),
}

impl View for DeinitAction {
    type V = DeinitAction;

    open spec fn view(&self) -> DeinitAction {
        *self
    }
}

/// How an installation is taken down, or the refusal to: one that has machines is
/// left as it is. Its storage has to go before its configuration does. Machines that
/// cannot be listed do not count.
pub open spec fn taking_down(
    args: DeinitArgs,
    initialized: bool,
    vms: Option<Vec<VmMetadata>>,
    config_exists: bool,
) -> Result<Seq<StepView<DeinitAction>>, Seq<char>> {
    if !initialized {
        Ok(seq![must(DeinitAction::Tell(false))])
    } else if vms is Some && vms->0@.len() > 0 {
        Err(has_machines(vms->0@))
    } else {
        Ok(
            seq![
                may(DeinitAction::RemoveFirewall),
                may(DeinitAction::RemoveCpuGroup),
                must(DeinitAction::RemoveStorage(args.purge)),
            ] + (if config_exists {
                seq![must(DeinitAction::RemoveConfig)]
            } else {
                seq![]
            }) + seq![must(DeinitAction::Tell(true))],
        )
    }
}

/// How an installation is taken down, or the refusal to. `initialized` says whether
/// there is one, `vms` are its machines where they can be listed, and
/// `config_exists` says whether the file of its configuration is there.
pub fn run(
    args: &DeinitArgs,
    initialized: bool,
    vms: &Option<Vec<VmMetadata>>,
    config_exists: bool,
) -> (r: Result<Vec<Step<DeinitAction>>, String>)
    ensures
        match r {
            Ok(steps) => taking_down(*args, initialized, *vms, config_exists) == Ok::<
                Seq<StepView<DeinitAction>>,
                Seq<char>,
            >(plan(steps@)),
            Err(e) => taking_down(*args, initialized, *vms, config_exists) == Err::<
                Seq<StepView<DeinitAction>>,
                Seq<char>,
            >(e@),
        },
{
    let ghost wanted = taking_down(*args, initialized, *vms, config_exists);
    if !initialized {
        let steps = then_must(no_steps(), DeinitAction::Tell(false));
        assert(plan(steps@) =~= wanted->Ok_0);
        return Ok(steps);
    }
    match vms {
        Some(list) => {
            check_no_vms(list)?;
        },
        None => {},
    }
    let steps = then_may(no_steps(), DeinitAction::RemoveFirewall);
    let steps = then_may(steps, DeinitAction::RemoveCpuGroup);
    let mut steps = then_must(steps, DeinitAction::RemoveStorage(args.purge));
    if config_exists {
        steps = then_must(steps, DeinitAction::RemoveConfig);
    }
    steps = then_must(steps, DeinitAction::Tell(true));
    assert(plan(steps@) =~= wanted->Ok_0);
    Ok(steps)
}

/// Nothing is taken from under machines that are registered.
pub proof fn law_machines_keep_the_installation(
    args: DeinitArgs,
    vms: Vec<VmMetadata>,
    config_exists: bool,
)
    requires
        vms@.len() > 0,
    ensures
        taking_down(args, true, Some(vms), config_exists) is Err,
{
}

/// What the user is told in the end, given whether there was something to take
/// down.
pub fn done_text(initialized: bool) -> (r: String)
    ensures
        r@ == (if initialized {
            "ember deinitialized."@
        } else {
            "ember is not initialized — nothing to tear down."@
        }),
{
    if initialized {
        "ember deinitialized.".to_owned()
    } else {
        "ember is not initialized — nothing to tear down.".to_owned()
    }
}

/// The warning when something could not be removed that the rest can do without.
pub fn removal_warning(action: DeinitAction, e: &Error) -> (r: Option<String>)
    ensures
        opt_text(r) == (match action {
            DeinitAction::RemoveFirewall => Some(
                "Warning: failed to remove firewall rules: "@ + error_text(e@),
            ),
            DeinitAction::RemoveCpuGroup => Some(
                "Warning: failed to remove the VM CPU group: "@ + error_text(e@),
            ),
            _ => None,
        }),
{
    let cause = e.to_string();
    match action {
        DeinitAction::RemoveFirewall => Some(
            "Warning: failed to remove firewall rules: ".to_owned().concat(cause.as_str()),
        ),
        DeinitAction::RemoveCpuGroup => Some(
            "Warning: failed to remove the VM CPU group: ".to_owned().concat(cause.as_str()),
        ),
        _ => None,
    }
}

/// What there is of an installation: its rules, its group, its storage and what that
/// holds, its configuration, and what the user was told.
pub struct Installed {
    pub firewall: bool,
    pub group: bool,
    pub storage: bool,
    pub files: bool,
    pub config: bool,
    pub told: Option<bool>,
}

/// What one action leaves of it.
pub open spec fn after(w: Installed, a: DeinitAction) -> Installed {
    match a {
        DeinitAction::RemoveFirewall => Installed { firewall: false, ..w },
        DeinitAction::RemoveCpuGroup => Installed { group: false, ..w },
        DeinitAction::RemoveStorage(purge) => Installed {
            storage: false,
            files: w.files && !purge,
            ..w
        },
        DeinitAction::RemoveConfig => Installed { config: false, ..w },
        DeinitAction::Tell(there) => Installed { told: Some(there), ..w },
    }
}

/// What a list of steps leaves of it when each of them succeeds.
pub open spec fn after_all(w: Installed, p: Seq<StepView<DeinitAction>>) -> Installed
    decreases p.len(),
{
    if p.len() == 0 {
        w
    } else {
        after(after_all(w, p.drop_last()), p.last().action)
    }
}

/// An installation that is taken down is gone; what its storage holds goes only when
/// that was asked for. Its configuration goes only once its storage has: when that fails,
/// nothing of the rest is done. The rules and the group cannot keep it. Where there is no
/// installation, nothing is removed.
pub proof fn law_an_installation_goes(
    args: DeinitArgs,
    initialized: bool,
    vms: Option<Vec<VmMetadata>>,
    w: Installed,
)
    requires
        w.config == initialized,
    ensures
        match taking_down(args, initialized, vms, w.config) {
            Err(_) => initialized && vms is Some && vms->0@.len() > 0,
            Ok(p) => {
                let done = after_all(w, p);
                &&& vms is Some && vms->0@.len() > 0 ==> !initialized
                &&& done.told == Some(initialized)
                &&& if initialized {
                    &&& !done.firewall && !done.group && !done.storage && !done.config
                    &&& done.files == (w.files && !args.purge)
                    &&& forall|i: int|
                        0 <= i < p.len() ==> (#[trigger] p[i]).tolerate == (p[i].action
                            is RemoveFirewall || p[i].action is RemoveCpuGroup)
                    &&& forall|i: int|
                        0 <= i <= p.len() ==> !after_all(w, #[trigger] p.take(i)).config
                            ==> !after_all(w, p.take(i)).storage
                } else {
                    done == (Installed { told: Some(false), ..w })
                }
            },
        },
{
    match taking_down(args, initialized, vms, w.config) {
        Err(_) => {},
        Ok(p) => {
            lemma_after_take(w, p);
            if initialized {
                assert(p.len() == 5);
                let w1 = after_all(w, p.take(1));
                let w2 = after_all(w, p.take(2));
                let w3 = after_all(w, p.take(3));
                let w4 = after_all(w, p.take(4));
                let w5 = after_all(w, p.take(5));
                assert(w1 == Installed { firewall: false, ..w });
                assert(w2 == Installed { group: false, ..w1 });
                assert(w3 == Installed { storage: false, files: w.files && !args.purge, ..w2 });
                assert(w4 == Installed { config: false, ..w3 });
                assert(w5 == Installed { told: Some(true), ..w4 });
                assert forall|i: int|
                    0 <= i <= p.len() && !after_all(w, #[trigger] p.take(i)).config implies !after_all(
                    w,
                    p.take(i),
                ).storage by {
                    assert(i == 0 || i == 1 || i == 2 || i == 3 || i == 4 || i == 5);
                }
            } else {
                assert(p.len() == 1);
                assert(after_all(w, p.take(1)) == Installed { told: Some(false), ..w });
            }
        },
    }
}

proof fn lemma_after_take(w: Installed, p: Seq<StepView<DeinitAction>>)
    ensures
        after_all(w, p.take(0)) == w,
        p.take(p.len() as int) == p,
        forall|i: int|
            0 < i <= p.len() ==> after_all(w, #[trigger] p.take(i)) == after(
                after_all(w, p.take(i - 1)),
                p[i - 1].action,
            ),
{
    assert(p.take(p.len() as int) =~= p);
    assert forall|i: int| 0 < i <= p.len() implies after_all(w, #[trigger] p.take(i)) == after(
        after_all(w, p.take(i - 1)),
        p[i - 1].action,
    ) by {
        assert(p.take(i).drop_last() =~= p.take(i - 1));
    }
}

} // verus!
