//! How a run's end shows in the exit status of the process.

use vstd::prelude::*;
use crate::git::{GifsyError, GifsyErrorView};

verus! {

/// Why the process ends with a failure.
#[derive(Debug)]
pub enum MainError {
    /// The command line names a subcommand that does not exist.
    SubcomamndUnknown,
    /// The command line names no subcommand.
    SubcommandNotFound,
    /// The working tree is no repository.
    NoRepository,
    /// A stage of the run failed: the exit status to pass on, and the cause.
    GitFailed(i32, String),
}

/// Mathematical value of a [`MainError`].
pub enum MainErrorView {
    SubcomamndUnknown,
    SubcommandNotFound,
    NoRepository,
    GitFailed(i32, Seq<char>),
}

impl View for MainError {
    type V = MainErrorView;

    open spec fn view(&self) -> MainErrorView {
        match self {
            MainError::SubcomamndUnknown => MainErrorView::SubcomamndUnknown,
            MainError::SubcommandNotFound => MainErrorView::SubcommandNotFound,
            MainError::NoRepository => MainErrorView::NoRepository,
            MainError::GitFailed(code, text) => MainErrorView::GitFailed(*code, text@),
        }
    }
}

impl MainErrorView {
    /// The exit status that stands for the failure.
    pub open spec fn code(self) -> i32 {
        match self {
            MainErrorView::SubcomamndUnknown => 1001,
            MainErrorView::SubcommandNotFound => 1002,
            MainErrorView::NoRepository => 1008,
            MainErrorView::GitFailed(code, _) => code,
        }
    }
}

impl MainError {
    /// The exit status that stands for the failure.
    pub fn code(&self) -> (r: i32)
        ensures
            r == self@.code(),
    {
        match self {
            MainError::SubcomamndUnknown => 1001,
            MainError::SubcommandNotFound => 1002,
            MainError::NoRepository => 1008,
            MainError::GitFailed(code, _) => *code,
        }
    }

    /// The failure of a stage as the end of the process: a failed command
    /// passes on its own exit code and output, every other failure ends
    /// the process with 1008 and its description.
    pub fn from(e: GifsyError) -> (r: MainError)
        ensures
            r@ == match e@ {
                GifsyErrorView::CmdFail(code, text) => MainErrorView::GitFailed(code, text),
                other => MainErrorView::GitFailed(1008, other.description()),
            },
    {
        match e {
            GifsyError::CmdFail(code, text) => MainError::GitFailed(code, text),
            other => MainError::GitFailed(1008, other.to_string()),
        }
    }
}

} // verus!
