//! The command line of casad, as values.

use vstd::prelude::*;

use crate::adapter::views;
use crate::casad::rules::Then;

verus! {

/// The parsed command line: an optional config path (shared with casa and
/// handed on to it) and a command.
#[derive(Debug)]
pub struct Cli {
    pub config: Option<String>,
    pub command: Command,
}

/// The subcommands.
#[derive(Debug)]
pub enum Command {
    /// Resolves a name and performs the casa action on it.
    Exec { action: ExecAction },
    /// Reads a rule file and checks it against the config.
    Check { rules: String },
    /// Runs the rule engine: resident by default; `once` evaluates the time
    /// triggers a single time (at `now`, if given, as HH:MM); `listen_once` and
    /// `listen_once_mat` take one batch of ECHONET Lite or Matter events.
    Run { rules: String, once: bool, now: Option<String>, listen_once: bool, listen_once_mat: bool },
}

/// The actions of `casad exec`: the vocabulary of a rule's `then`.
#[derive(Debug)]
pub enum ExecAction {
    On { name: String },
    Off { name: String },
    Invoke { name: String, command: String, args: Vec<String> },
}

impl ExecAction {
    /// The rule action that performs the same thing, so that `exec` and the
    /// rules share one mapping to casa arguments.
    pub fn into_then(self) -> (r: Then)
        ensures
            match self {
                ExecAction::On { name } => r matches Then::On { device } && device@ == name@,
                ExecAction::Off { name } => r matches Then::Off { device } && device@ == name@,
                ExecAction::Invoke { name, command, args } => r matches Then::Invoke { device, command: c, args: a }
                    && device@ == name@ && c@ == command@ && views(a@) == views(args@),
            },
    {
        match self {
            ExecAction::On { name } => Then::On { device: name },
            ExecAction::Off { name } => Then::Off { device: name },
            ExecAction::Invoke { name, command, args } => Then::Invoke { device: name, command, args },
        }
    }
}

} // verus!
