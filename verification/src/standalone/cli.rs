//! The command line of the single-binary CLI, as values.

use vstd::prelude::*;

use crate::standalone::ops::Request;

verus! {

/// The parsed command line: an optional config path and a command.
#[derive(Debug)]
pub struct Cli {
    pub config: Option<String>,
    pub command: Command,
}

/// The subcommands.
#[derive(Debug)]
pub enum Command {
    /// Lists the configured devices.
    List,
    /// Reads a property (an EPC for ECHONET Lite).
    Get { name: String, epc: String },
    /// Writes a property.
    SetValue { name: String, epc: String, value: String },
}

impl Command {
    /// The device name and request of a command that addresses a device.
    pub fn request(self) -> (r: Option<(String, Request)>)
        ensures
            match self {
                Command::List => r is None,
                Command::Get { name, epc } => r matches Some((n, Request::Get { epc: e })) && n@ == name@ && e@ == epc@,
                Command::SetValue { name, epc, value } => r matches Some((n, Request::SetValue { epc: e, value: v }))
                    && n@ == name@ && e@ == epc@ && v@ == value@,
            },
    {
        match self {
            Command::List => None,
            Command::Get { name, epc } => Some((name, Request::Get { epc })),
            Command::SetValue { name, epc, value } => Some((name, Request::SetValue { epc, value })),
        }
    }
}

} // verus!
