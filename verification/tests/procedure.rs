//! Steps, and what is done when one of them fails.

use ember::backend::{inject_hostname, InjectAction};
use ember::dm::{reload, swap_table};
use ember::policy;
use ember::procedure::{action_at, first, next, stops, verdict, Position, Step};
use ember::ssh_exec::{ExecAction, ExecEvent, ExecState};

/// The actions that are performed when the step `fails` does not succeed.
fn performed(fails: Option<usize>) -> Vec<String> {
    let steps = inject_hostname("web");
    let mut done = Vec::new();
    let mut at = first(&steps);
    while let Some(p) = at {
        done.push(format!("{:?}", action_at(&steps, p)));
        let ok = match p {
            Position::Step(i) => Some(i) != fails,
            Position::Undo(_, _) => false,
        };
        at = next(&steps, p, ok);
    }
    done
}

#[test]
fn every_step_is_done_in_order() {
    let all = [
        InjectAction::Mount,
        InjectAction::InjectHosts("web".to_string()),
        InjectAction::Unmount,
    ];
    let names: Vec<String> = all.iter().map(|a| format!("{a:?}")).collect();
    assert_eq!(performed(None), names);
}

#[test]
fn a_mounted_disk_is_unmounted_again() {
    assert_eq!(performed(Some(0)), vec!["Mount"]);
    assert_eq!(performed(Some(1)), vec!["Mount", "InjectHosts(\"web\")", "Unmount"]);
}

#[test]
fn a_command_ends_with_its_code() {
    let mut state = ExecState::new();
    assert!(matches!(state.after(ExecEvent::Data), ExecAction::WriteOut));
    assert!(matches!(state.after(ExecEvent::ExtendedData(1)), ExecAction::WriteErr));
    assert!(matches!(state.after(ExecEvent::ExtendedData(2)), ExecAction::Wait));
    assert!(matches!(state.after(ExecEvent::ExitStatus(3)), ExecAction::Wait));
    assert!(matches!(state.after(ExecEvent::Closed), ExecAction::Finish(3)));
}

/// What is performed, and the result, when these steps and all that takes their place
/// do not succeed.
fn run<A: std::fmt::Debug>(steps: &Vec<Step<A>>, fails: &[usize]) -> (usize, Result<(), String>) {
    let mut done = 0;
    let mut outcome = Ok(());
    let mut at = first(steps);
    while let Some(p) = at {
        done += 1;
        let did = match p {
            Position::Step(i) if !fails.contains(&i) => Ok(()),
            Position::Step(i) => Err(format!("step {i}")),
            Position::Undo(_, j) => Err(format!("undo {j}")),
        };
        assert_eq!(
            stops(steps, p, did.is_ok()),
            matches!(p, Position::Step(i) if did.is_err() && !steps[i].tolerate)
        );
        at = next(steps, p, did.is_ok());
        outcome = verdict(steps, p, did, outcome);
    }
    (done, outcome)
}

#[test]
fn the_first_error_is_the_result() {
    let failed = |i: usize| Err(format!("step {i}"));
    let steps = reload("d", "0 1 zero");
    assert_eq!(run(&steps, &[]), (3, Ok(())));
    assert_eq!(run(&steps, &[0]), (1, failed(0)));
    assert_eq!(run(&steps, &[1, 2]), (3, failed(1)));
    assert_eq!(run(&steps, &[2]), (3, failed(2)));
    let steps = swap_table("d", "0 1 zero");
    assert_eq!(run(&steps, &[]), (2, Ok(())));
    assert_eq!(run(&steps, &[0]), (1, failed(0)));
    assert_eq!(run(&steps, &[1]), (2, failed(1)));
    let steps = policy::ensure(Some("a3f4"));
    assert_eq!(run(&steps, &[]), (9, Ok(())));
    assert_eq!(run(&steps, &[4, 7]), (5, failed(4)));
}
