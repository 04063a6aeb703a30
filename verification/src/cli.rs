//! The command line of the casa CLI, as values.

use vstd::prelude::*;

use crate::adapter::views;
use crate::ops::Operation;

verus! {

/// The parsed command line: an optional config path and a command.
#[derive(Debug)]
pub struct Cli {
    pub config: Option<String>,
    pub command: Command,
}

/// The subcommands.
#[derive(Debug)]
pub enum Command {
    /// Lists the configured devices (and, with `describe`, their property maps).
    List { describe: bool },
    /// Prints a device's property map.
    Describe { name: String },
    /// Powers a device or group on.
    On { name: String },
    /// Powers a device or group off.
    Off { name: String },
    /// Reads a property; its form depends on the protocol.
    Get { name: String, property: String },
    /// Reports whether the config is valid, without calling any device.
    Validate,
    /// Writes a property of a device or group.
    SetValue { name: String, property: String, value: String },
    /// Calls a protocol CLI's command with name resolution; `command` and `args`
    /// are passed through uninterpreted.
    Invoke { name: String, command: String, args: Vec<String> },
}

impl Command {
    /// The target name and operation of a command that addresses a device or
    /// group; `list` and `validate` address none.
    pub fn request(self) -> (r: Option<(String, Operation)>)
        ensures
            match self {
                Command::List { .. } | Command::Validate => r is None,
                Command::Describe { name } => r matches Some((n, Operation::Describe)) && n@ == name@,
                Command::On { name } => r matches Some((n, Operation::Power { on: true })) && n@ == name@,
                Command::Off { name } => r matches Some((n, Operation::Power { on: false })) && n@ == name@,
                Command::Get { name, property } => r matches Some((n, Operation::Get { property: p }))
                    && n@ == name@ && p@ == property@,
                Command::SetValue { name, property, value } => r matches Some(
                    (n, Operation::SetValue { property: p, value: v }),
                ) && n@ == name@ && p@ == property@ && v@ == value@,
                Command::Invoke { name, command, args } => r matches Some(
                    (n, Operation::Invoke { command: c, args: a }),
                ) && n@ == name@ && c@ == command@ && views(a@) == views(args@),
            },
    {
        match self {
            Command::List { .. } | Command::Validate => None,
            Command::Describe { name } => Some((name, Operation::Describe)),
            Command::On { name } => Some((name, Operation::Power { on: true })),
            Command::Off { name } => Some((name, Operation::Power { on: false })),
            Command::Get { name, property } => Some((name, Operation::Get { property })),
            Command::SetValue { name, property, value } => Some((name, Operation::SetValue { property, value })),
            Command::Invoke { name, command, args } => Some((name, Operation::Invoke { command, args })),
        }
    }
}

} // verus!
