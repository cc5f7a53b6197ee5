//! Running a command in a machine: what to do with what comes back.

use vstd::prelude::*;

verus! {

/// Something that comes back from a machine.
#[derive(Debug, Clone, Copy, PartialEq, Eq, Structural)]
pub enum ExecEvent {
    /// A piece of output.
    Data,
    /// A piece of output of this kind.
    ExtendedData(u32),
    /// The command ended with this code.
    ExitStatus(u32),
    /// Something else.
    Other,
    /// Nothing more will come.
    Closed,
}

/// What to do.
#[derive(Debug, Clone, Copy, PartialEq, Eq, Structural)]
pub enum ExecAction {
    /// Write the piece to the standard output, and wait for more.
    WriteOut,
    /// Write the piece to the standard error, and wait for more.
    WriteErr,
    /// Wait for more.
    Wait,
    /// End with this code.
    Finish(u32),
}

/// What is known of a command that runs.
#[derive(Debug, Clone, Copy, PartialEq, Eq, Structural)]
pub struct ExecState {
    pub exit_code: Option<u32>,
}

/// What is known of the exit code after events: the last one that came counts.
pub open spec fn exit_code_after(before: Option<u32>, events: Seq<ExecEvent>) -> Option<u32>
    decreases events.len(),
{
    if events.len() == 0 {
        before
    } else {
        match events.last() {
            ExecEvent::ExitStatus(c) => Some(c),
            _ => exit_code_after(before, events.drop_last()),
        }
    }
}

/// What to do about an event.
pub open spec fn action_for(state: ExecState, event: ExecEvent) -> ExecAction {
    match event {
        ExecEvent::Data => ExecAction::WriteOut,
        ExecEvent::ExtendedData(kind) => if kind == 1 {
            ExecAction::WriteErr
        } else {
            ExecAction::Wait
        },
        ExecEvent::ExitStatus(_) => ExecAction::Wait,
        ExecEvent::Other => ExecAction::Wait,
        ExecEvent::Closed => ExecAction::Finish(
            match state.exit_code {
                Some(c) => c,
                None => 1,
            },
        ),
    }
}

impl ExecState {
    /// A command that was just started.
    pub fn new() -> (r: ExecState)
        ensures
            r.exit_code is None,
    {
        ExecState { exit_code: None }
    }

    /// What to do about an event. A command whose code never came counts as
    /// failed.
    pub fn after(&mut self, event: ExecEvent) -> (r: ExecAction)
        ensures
            r == action_for(*old(self), event),
            final(self).exit_code == exit_code_after(old(self).exit_code, seq![event]),
    {
        proof {
            let events = seq![event];
            assert(events.last() == event);
            assert(events.drop_last() =~= seq![]);
            reveal_with_fuel(exit_code_after, 2);
        }
        match event {
            ExecEvent::Data => ExecAction::WriteOut,
            ExecEvent::ExtendedData(kind) => {
                if kind == 1 {
                    ExecAction::WriteErr
                } else {
                    ExecAction::Wait
                }
            },
            ExecEvent::ExitStatus(c) => {
                self.exit_code = Some(c);
                ExecAction::Wait
            },
            ExecEvent::Other => ExecAction::Wait,
            ExecEvent::Closed => {
                match self.exit_code {
                    Some(c) => ExecAction::Finish(c),
                    None => ExecAction::Finish(1),
                }
            },
        }
    }
}

/// Handling events one after the other is handling them together.
pub proof fn law_events_add_up(before: Option<u32>, a: Seq<ExecEvent>, b: Seq<ExecEvent>)
    ensures
        exit_code_after(before, a + b) == exit_code_after(exit_code_after(before, a), b),
    decreases b.len(),
{
    if b.len() == 0 {
        assert(a + b =~= a);
    } else {
        assert((a + b).last() == b.last());
        assert((a + b).drop_last() =~= a + b.drop_last());
        law_events_add_up(before, a, b.drop_last());
    }
}

/// What a command that runs somewhere else comes to: which of the events were written to
/// the standard output, which to the standard error, and the code that it ended with.
pub struct Told {
    pub state: ExecState,
    pub out: Seq<ExecEvent>,
    pub err: Seq<ExecEvent>,
    pub code: Option<u32>,
}

/// What is told after events, each handled as it comes.
pub open spec fn told(events: Seq<ExecEvent>) -> Told
    decreases events.len(),
{
    if events.len() == 0 {
        Told { state: ExecState { exit_code: None }, out: seq![], err: seq![], code: None }
    } else {
        let t = told(events.drop_last());
        let e = events.last();
        let next = ExecState { exit_code: exit_code_after(t.state.exit_code, seq![e]) };
        match action_for(t.state, e) {
            ExecAction::WriteOut => Told { state: next, out: t.out.push(e), ..t },
            ExecAction::WriteErr => Told { state: next, err: t.err.push(e), ..t },
            ExecAction::Wait => Told { state: next, ..t },
            ExecAction::Finish(c) => Told { state: next, code: Some(c), ..t },
        }
    }
}

/// All output is passed on, each kind to its place and in the order in which it came, and
/// nothing else is. The command ends when nothing more comes and not before: with the
/// code that came last, or as failed when none came.
pub proof fn law_output_is_passed_on(events: Seq<ExecEvent>)
    ensures
        told(events).out == events.filter(|e: ExecEvent| e is Data),
        told(events).err == events.filter(|e: ExecEvent| e == ExecEvent::ExtendedData(1)),
        told(events).state.exit_code == exit_code_after(None, events),
        (forall|i: int| 0 <= i < events.len() ==> !((#[trigger] events[i]) is Closed))
            ==> told(events).code is None,
        events.len() > 0 && events.last() is Closed ==> told(events).code == Some(
            match exit_code_after(None, events) {
                Some(c) => c,
                None => 1u32,
            },
        ),
    decreases events.len(),
{
    reveal(Seq::filter);
    if events.len() > 0 {
        let rest = events.drop_last();
        law_output_is_passed_on(rest);
        law_events_add_up(None, rest, seq![events.last()]);
        assert(rest + seq![events.last()] =~= events);
        assert forall|i: int| 0 <= i < rest.len() implies rest[i] == #[trigger] events[i] by {}
    }
}

} // verus!
