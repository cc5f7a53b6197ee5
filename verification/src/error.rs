//! The errors of the library.

use vstd::prelude::*;
use vstd::string::*;

use crate::text::{dec_signed, decimal_signed};

verus! {

/// What can go wrong.
#[derive(Debug, PartialEq)]
pub enum Error {
    /// Networking could not be set up, or its configuration makes no sense.
    Network(String),
    /// The configuration makes no sense.
    Config(String),
    /// The stored state makes no sense.
    State(String),
    /// A virtual machine is not fit for what was asked.
    Vm(String),
    /// An image is not fit for what was asked.
    Image(String),
    /// The storage pool is not fit for what was asked.
    Pool(String),
    /// ZFS is not fit for what was asked.
    Zfs(String),
    /// A command was run and failed.
    Command { command: String, exit_code: i32, stderr: String },
    /// What was to be created is there already.
    AlreadyExists { path: String },
    /// A virtual machine is in another state than the one needed.
    VmWrongState { name: String, actual: String, expected: String },
}

/// An [`Error`], its strings taken by their texts.
#[verifier::ext_equal]
pub enum ErrorView {
    Network(Seq<char>),
    Config(Seq<char>),
    State(Seq<char>),
    Vm(Seq<char>),
    Image(Seq<char>),
    Pool(Seq<char>),
    Zfs(Seq<char>),
    Command { command: Seq<char>, exit_code: i32, stderr: Seq<char> },
    AlreadyExists { path: Seq<char> },
    VmWrongState { name: Seq<char>, actual: Seq<char>, expected: Seq<char> },
}

impl View for Error {
    type V = ErrorView;

    open spec fn view(&self) -> ErrorView {
        match *self {
            Error::Network(s) => ErrorView::Network(s@),
            Error::Config(s) => ErrorView::Config(s@),
            Error::State(s) => ErrorView::State(s@),
            Error::Vm(s) => ErrorView::Vm(s@),
            Error::Image(s) => ErrorView::Image(s@),
            Error::Pool(s) => ErrorView::Pool(s@),
            Error::Zfs(s) => ErrorView::Zfs(s@),
            Error::Command { command, exit_code, stderr } => ErrorView::Command {
                command: command@,
                exit_code,
                stderr: stderr@,
            },
            Error::AlreadyExists { path } => ErrorView::AlreadyExists { path: path@ },
            Error::VmWrongState { name, actual, expected } => ErrorView::VmWrongState {
                name: name@,
                actual: actual@,
                expected: expected@,
            },
        }
    }
}

/// The words for an error.
pub open spec fn error_text(e: ErrorView) -> Seq<char> {
    match e {
        ErrorView::Network(s) => s,
        ErrorView::Config(s) => s,
        ErrorView::State(s) => s,
        ErrorView::Vm(s) => s,
        ErrorView::Image(s) => s,
        ErrorView::Pool(s) => s,
        ErrorView::Zfs(s) => s,
        ErrorView::Command { command, exit_code, stderr } => command
            + " failed (exit code "@ + dec_signed(exit_code as int) + "): "@ + stderr,
        ErrorView::AlreadyExists { path } => path + ": already exists"@,
        ErrorView::VmWrongState { name, actual, expected } => "vm '"@ + name + "' is "@ + actual
            + " (expected "@ + expected + ")"@,
    }
}

impl Error {
    /// The words for the error.
    pub fn to_string(&self) -> (r: String)
        ensures
            r@ == error_text(self@),
    {
        match self {
            Error::Network(s) => s.clone(),
            Error::Config(s) => s.clone(),
            Error::State(s) => s.clone(),
            Error::Vm(s) => s.clone(),
            Error::Image(s) => s.clone(),
            Error::Pool(s) => s.clone(),
            Error::Zfs(s) => s.clone(),
            Error::Command { command, exit_code, stderr } => {
                let code = decimal_signed(*exit_code);
                command.clone().concat(" failed (exit code ").concat(code.as_str()).concat(
                    "): ",
                ).concat(stderr.as_str())
            },
            Error::AlreadyExists { path } => path.clone().concat(": already exists"),
            Error::VmWrongState { name, actual, expected } => "vm '".to_owned().concat(
                name.as_str(),
            ).concat("' is ").concat(actual.as_str()).concat(" (expected ").concat(
                expected.as_str(),
            ).concat(")"),
        }
    }
}

impl Clone for Error {
    fn clone(&self) -> (r: Error)
        ensures
            r == *self,
    {
        match self {
            Error::Network(s) => Error::Network(s.clone()),
            Error::Config(s) => Error::Config(s.clone()),
            Error::State(s) => Error::State(s.clone()),
            Error::Vm(s) => Error::Vm(s.clone()),
            Error::Image(s) => Error::Image(s.clone()),
            Error::Pool(s) => Error::Pool(s.clone()),
            Error::Zfs(s) => Error::Zfs(s.clone()),
            Error::Command { command, exit_code, stderr } => Error::Command {
                command: command.clone(),
                exit_code: *exit_code,
                stderr: stderr.clone(),
            },
            Error::AlreadyExists { path } => Error::AlreadyExists { path: path.clone() },
            Error::VmWrongState { name, actual, expected } => Error::VmWrongState {
                name: name.clone(),
                actual: actual.clone(),
                expected: expected.clone(),
            },
        }
    }
}

/// A result, its error taken by its view.
pub open spec fn outcome<T>(r: Result<T, Error>) -> Result<T, ErrorView> {
    match r {
        Ok(v) => Ok(v),
        Err(e) => Err(e@),
    }
}

/// A result, its message taken by its text.
pub open spec fn answer<T>(r: Result<T, String>) -> Result<T, Seq<char>> {
    match r {
        Ok(v) => Ok(v),
        Err(e) => Err(e@),
    }
}

} // verus!
