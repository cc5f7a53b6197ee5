//! Installations that are taken down.

use ember::cli::deinit::{done_text, removal_warning, run, DeinitAction, DeinitArgs};
use ember::error::Error;
use ember::procedure::Step;
use ember::vm::VmMetadata;

fn machine(name: &str) -> VmMetadata {
    let mut m = VmMetadata::default_for_teardown();
    m.name = name.to_string();
    m
}

fn actions(steps: &Vec<Step<DeinitAction>>) -> Vec<DeinitAction> {
    steps.iter().map(|s| s.action).collect()
}

#[test]
fn nothing_goes_while_there_are_machines() {
    let args = DeinitArgs { purge: true };
    let vms = Some(vec![machine("a"), machine("b")]);
    assert_eq!(
        run(&args, true, &vms, true).unwrap_err(),
        "refusing to deinit while 2 VM(s) are registered: a, b\n\
         Hint: delete them first with 'ember vm delete <name>'."
    );
    let steps = run(&args, false, &vms, true).unwrap();
    assert_eq!(actions(&steps), [DeinitAction::Tell(false)]);
    assert_eq!(done_text(false), "ember is not initialized — nothing to tear down.");
}

#[test]
fn storage_goes_before_the_configuration() {
    let args = DeinitArgs { purge: true };
    for vms in [Some(vec![]), None] {
        let steps = run(&args, true, &vms, true).unwrap();
        assert_eq!(
            actions(&steps),
            [
                DeinitAction::RemoveFirewall,
                DeinitAction::RemoveCpuGroup,
                DeinitAction::RemoveStorage(true),
                DeinitAction::RemoveConfig,
                DeinitAction::Tell(true),
            ]
        );
        assert!(steps[0].tolerate && steps[1].tolerate && !steps[2].tolerate);
        let steps = run(&args, true, &vms, false).unwrap();
        assert!(!actions(&steps).contains(&DeinitAction::RemoveConfig));
    }
    assert_eq!(done_text(true), "ember deinitialized.");
}

#[test]
fn what_could_not_be_removed_is_told() {
    let e = Error::State("busy".to_string());
    let told = removal_warning(DeinitAction::RemoveFirewall, &e).unwrap();
    assert!(told.starts_with("Warning: failed to remove firewall rules: "), "{told}");
    let told = removal_warning(DeinitAction::RemoveCpuGroup, &e).unwrap();
    assert!(told.starts_with("Warning: failed to remove the VM CPU group: "), "{told}");
    assert_eq!(removal_warning(DeinitAction::RemoveConfig, &e), None);
}
