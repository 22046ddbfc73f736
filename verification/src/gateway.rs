//! The external process gateway's result type.
//!
//! The gateway runs OS automation tools (keystroke injection, cursor query,
//! screenshot, OCR engine, presence probes) outside this library and
//! normalizes each run into a `CommandOutcome` of plain values.  A non-zero
//! exit code is a normal outcome the caller inspects; only a tool that could
//! not be launched at all is a `LaunchFailed`.

use vstd::prelude::*;

verus! {

#[derive(Debug)]
pub enum CommandOutcome {
    Launched { exit_success: bool, stdout: String, stderr: String },
    LaunchFailed { message: String },
}

impl CommandOutcome {
    /// The run launched and the tool exited successfully.
    pub open spec fn succeeded(&self) -> bool {
        self matches CommandOutcome::Launched { exit_success: true, .. }
    }

    /// What the run printed, empty for a tool that never launched.
    pub open spec fn stdout_of(&self) -> Seq<char> {
        match self {
            CommandOutcome::Launched { stdout, .. } => stdout@,
            CommandOutcome::LaunchFailed { .. } => Seq::empty(),
        }
    }
}

} // verus!
