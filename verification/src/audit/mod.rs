//! The audit program: its commands, its configuration, its checks and what it
//! reports.
pub mod aws_error;
pub mod config;
pub mod preflight;
pub mod run;

use vstd::prelude::*;

verus! {

/// What the program is asked to do.
#[derive(Debug)]
pub struct Cli {
    pub command: Command,
}

/// The commands.
#[derive(Debug, PartialEq, Eq)]
pub enum Command {
    /// Run the full audit with the configuration at this path.
    Run { config: std::path::PathBuf },
    /// Check that the local environment is ready to run an audit.
    Preflight,
}

/// How a completed run ended. A run that failed has no outcome.
#[derive(Debug, PartialEq, Eq)]
pub enum Outcome {
    /// No path into the boundary was found.
    Clean,
    /// There is something to look at: so many paths that are reachable, and so
    /// many that could not be settled.
    FindingsPresent { reachable: usize, indeterminate: usize },
}

impl Outcome {
    /// The exit code of the program for this outcome. A failed run ends with
    /// 1, which no outcome has.
    pub fn exit_code(&self) -> (code: i32)
        ensures
            code == (if *self is Clean {
                0
            } else {
                2int
            }),
    {
        match self {
            Outcome::Clean => 0,
            Outcome::FindingsPresent { .. } => 2,
        }
    }
}

} // verus!
