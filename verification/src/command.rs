//! Programs to run, and what became of them.

use vstd::prelude::*;
use vstd::string::*;

use crate::error::{outcome, Error, ErrorView};
use crate::text::{lemma_texts_push, texts, trim, trimmed};

verus! {

/// A program with its arguments.
#[derive(Debug, PartialEq)]
pub struct Invocation {
    /// The program.
    pub program: String,
    /// Its arguments.
    pub args: Vec<String>,
    /// How an error refers to it that ran and failed.
    pub label: String,
    /// How an error refers to it that could not be started.
    pub start_label: String,
}

/// An [`Invocation`], its strings taken by their texts.
#[verifier::ext_equal]
pub struct InvocationView {
    pub program: Seq<char>,
    pub args: Seq<Seq<char>>,
    pub label: Seq<char>,
    pub start_label: Seq<char>,
}

impl View for Invocation {
    type V = InvocationView;

    open spec fn view(&self) -> InvocationView {
        InvocationView {
            program: self.program@,
            args: texts(self.args@),
            label: self.label@,
            start_label: self.start_label@,
        }
    }
}

/// Whether `value` stands right behind `flag` among arguments.
pub open spec fn given(args: Seq<Seq<char>>, flag: Seq<char>, value: Seq<char>) -> bool {
    exists|i: int| 0 <= i < args.len() - 1 && #[trigger] args[i] == flag && args[i + 1] == value
}

/// The list `v` with `s` at its end.
pub fn with(v: Vec<String>, s: &str) -> (r: Vec<String>)
    ensures
        texts(r@) == texts(v@).push(s@),
{
    let mut v = v;
    let t = s.to_owned();
    proof {
        lemma_texts_push(v@, t);
    }
    v.push(t);
    v
}

/// The list without elements.
pub fn nothing() -> (r: Vec<String>)
    ensures
        texts(r@) == Seq::<Seq<char>>::empty(),
{
    let v: Vec<String> = Vec::new();
    assert(texts(v@) =~= Seq::<Seq<char>>::empty());
    v
}

impl Invocation {
    /// A program without arguments.
    pub fn new(program: &str, label: &str) -> (r: Invocation)
        ensures
            r@ == (InvocationView {
                program: program@,
                args: seq![],
                label: label@,
                start_label: label@,
            }),
    {
        Invocation {
            program: program.to_owned(),
            args: nothing(),
            label: label.to_owned(),
            start_label: label.to_owned(),
        }
    }

    /// The program with one more argument.
    pub fn arg(self, s: &str) -> (r: Invocation)
        ensures
            r@ == (InvocationView { args: self@.args.push(s@), ..self@ }),
    {
        Invocation {
            program: self.program,
            args: with(self.args, s),
            label: self.label,
            start_label: self.start_label,
        }
    }

    /// The program, called otherwise where it cannot be started.
    pub fn started_as(self, label: &str) -> (r: Invocation)
        ensures
            r@ == (InvocationView { start_label: label@, ..self@ }),
    {
        Invocation {
            program: self.program,
            args: self.args,
            label: self.label,
            start_label: label.to_owned(),
        }
    }
}

/// What a program left behind.
#[derive(Debug, PartialEq)]
pub struct CommandOutput {
    /// The exit code; `None` when a signal ended the program.
    pub exit_code: Option<i32>,
    /// What it wrote to the standard output.
    pub stdout: String,
    /// What it wrote to the standard error.
    pub stderr: String,
}

/// Whether the program ended well.
pub open spec fn succeeded(o: CommandOutput) -> bool {
    o.exit_code == Some(0i32)
}

/// The exit code, -1 in place of a missing one.
pub open spec fn code_of(o: CommandOutput) -> i32 {
    match o.exit_code {
        Some(c) => c,
        None => (-1) as i32,
    }
}

/// The error for a program that failed.
pub open spec fn command_error(label: Seq<char>, o: CommandOutput) -> ErrorView {
    ErrorView::Command { command: label, exit_code: code_of(o), stderr: trimmed(o.stderr@) }
}

impl CommandOutput {
    /// Whether the program ended well.
    pub fn success(&self) -> (r: bool)
        ensures
            r == succeeded(*self),
    {
        match self.exit_code {
            Some(c) => c == 0,
            None => false,
        }
    }

    /// The exit code, -1 in place of a missing one.
    pub fn code(&self) -> (r: i32)
        ensures
            r == code_of(*self),
    {
        match self.exit_code {
            Some(c) => c,
            None => -1,
        }
    }
}

/// The error for a program that failed.
pub fn failure(label: &str, output: &CommandOutput) -> (r: Error)
    ensures
        r@ == command_error(label@, *output),
{
    Error::Command {
        command: label.to_owned(),
        exit_code: output.code(),
        stderr: trim(output.stderr.as_str()).to_owned(),
    }
}

/// Turns a program that failed into an error.
pub fn check_command(label: &str, output: CommandOutput) -> (r: Result<CommandOutput, Error>)
    ensures
        outcome(r) == (if succeeded(output) {
            Ok::<CommandOutput, ErrorView>(output)
        } else {
            Err(command_error(label@, output))
        }),
{
    if output.success() {
        Ok(output)
    } else {
        Err(failure(label, &output))
    }
}

/// Whether a file system is in order after it was checked, and why not.
pub open spec fn fsck_verdict(o: CommandOutput) -> Result<(), ErrorView> {
    if code_of(o) >= 2 {
        Err(command_error("e2fsck"@, o))
    } else {
        Ok(())
    }
}

/// Turns a file system check that failed into an error. A check that corrected
/// what it found exits with 1, which is no failure.
pub fn check_fsck(output: &CommandOutput) -> (r: Result<(), Error>)
    ensures
        outcome(r) == fsck_verdict(*output),
{
    if output.code() >= 2 {
        Err(failure("e2fsck", output))
    } else {
        Ok(())
    }
}

/// A file system that was in order, or that was mended, is in order after it was checked;
/// one that was not mended, or that could not be checked, is not.
pub proof fn law_a_mended_filesystem_is_in_order(o: CommandOutput)
    ensures
        o.exit_code == Some(0i32) || o.exit_code == Some(1i32) ==> fsck_verdict(o) is Ok,
        o.exit_code matches Some(c) && c >= 2 ==> fsck_verdict(o) is Err,
        fsck_verdict(o) matches Err(e) ==> e matches ErrorView::Command { exit_code, .. } && Some(
            exit_code,
        ) == o.exit_code,
{
}

} // verus!
