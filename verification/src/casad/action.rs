//! The actions `casad exec` performs, and the casa command line of each.

use vstd::prelude::*;

use crate::adapter::{push_str, views};

verus! {

/// An action on a device or group: power it on or off.
#[derive(Debug, Clone, Copy, PartialEq, Eq, Structural)]
pub enum Action {
    On,
    Off,
}

/// The casa subcommand of an action.
pub open spec fn spec_subcommand(a: Action) -> Seq<char> {
    match a {
        Action::On => "on"@,
        Action::Off => "off"@,
    }
}

/// The casa arguments of an action on `name`: the subcommand and the name,
/// then `--config <path>` when a config path is given, so that casa does not
/// look for its config again.
pub open spec fn spec_action_args(a: Action, name: Seq<char>, config: Option<Seq<char>>) -> Seq<Seq<char>> {
    seq![spec_subcommand(a), name] + match config {
        Some(p) => seq!["--config"@, p],
        None => Seq::empty(),
    }
}

impl Action {
    /// The casa subcommand that performs this action.
    pub fn subcommand(self) -> (r: &'static str)
        ensures
            r@ == spec_subcommand(self),
    {
        match self {
            Action::On => "on",
            Action::Off => "off",
        }
    }

    /// The casa arguments that perform this action on `name`.
    pub fn casa_args(self, name: &str, config: Option<&str>) -> (r: Vec<String>)
        ensures
            views(r@) == spec_action_args(
                self,
                name@,
                match config {
                    Some(p) => Some(p@),
                    None => None,
                },
            ),
    {
        let mut args: Vec<String> = Vec::new();
        push_str(&mut args, self.subcommand());
        push_str(&mut args, name);
        if let Some(path) = config {
            push_str(&mut args, "--config");
            push_str(&mut args, path);
        }
        proof {
            let c = match config {
                Some(p) => Some(p@),
                None => None,
            };
            assert(views(args@) =~= spec_action_args(self, name@, c));
        }
        args
    }
}

} // verus!
