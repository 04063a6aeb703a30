//! Child CLI resolution and the reading of a child's exit status. Spawning the
//! child is the caller's part.

use vstd::prelude::*;

use crate::config::Config;
use crate::error::{CasaError, ErrorKind};
use crate::lookup::{find_key, has_key, lookup};
use crate::text::{i32_to_string, signed_decimal, spec_to_uppercase, to_uppercase};

verus! {

/// The environment variable that overrides a child binary: `CASA_<BIN>_BIN`.
pub open spec fn spec_env_key(name: Seq<char>) -> Seq<char> {
    "CASA_"@ + spec_to_uppercase(name) + "_BIN"@
}

/// The name of the environment variable that overrides binary `name`.
pub fn env_key(name: &str) -> (r: String)
    ensures
        r@ == spec_env_key(name@),
{
    let mut k = String::from_str("CASA_");
    let upper = to_uppercase(name);
    k.append(upper.as_str());
    k.append("_BIN");
    k
}

/// Where binary `name` is found: a non-empty environment override first, then
/// the config's `[binaries]` entry, then the bare name (looked up on `PATH`).
pub open spec fn spec_resolve_bin(name: Seq<char>, env_value: Option<Seq<char>>, c: Config) -> Seq<char> {
    if env_value is Some && env_value->0.len() > 0 {
        env_value->0
    } else if has_key(c.binaries@, name) {
        lookup(c.binaries@, name)->0@
    } else {
        name
    }
}

/// Resolves a child binary, given the value of its environment variable
/// (`env_key(name)`), if set.
pub fn resolve_bin(name: &str, env_value: Option<&str>, config: &Config) -> (r: String)
    ensures
        r@ == spec_resolve_bin(
            name@,
            match env_value {
                Some(v) => Some(v@),
                None => None,
            },
            *config,
        ),
{
    if let Some(v) = env_value {
        if v.unicode_len() > 0 {
            return v.to_owned();
        }
    }
    match find_key(&config.binaries, name) {
        Some(i) => config.binaries[i].1.clone(),
        None => name.to_owned(),
    }
}

/// The casa binary that casad spawns: the value of `CASA_BIN` when it is set
/// and not empty, else `casa` (looked up on `PATH`).
pub fn resolve_casa_bin(env_value: Option<&str>) -> (r: String)
    ensures
        r@ == (match env_value {
            Some(v) => if v@.len() > 0 { v@ } else { "casa"@ },
            None => "casa"@,
        }),
{
    match env_value {
        Some(v) => if v.unicode_len() > 0 {
            v.to_owned()
        } else {
            String::from_str("casa")
        },
        None => String::from_str("casa"),
    }
}

/// The detail of a child that exited non-zero.
pub open spec fn child_failed_detail(bin: Seq<char>, code: int, stderr: Seq<char>) -> Seq<char> {
    "\""@ + bin + "\" exited with code "@ + signed_decimal(code) + ": "@ + stderr
}

/// Reads a child's exit: code 0 is success; any other code is `child_failed`
/// carrying that code; a child without a code (killed by a signal) counts as
/// code 1. `stderr` is the child's stderr, trimmed.
pub fn check_exit(bin: &str, code: Option<i32>, stderr: &str) -> (r: Result<(), CasaError>)
    ensures
        match code {
            Some(0) => r is Ok,
            _ => {
                let c = match code {
                    Some(c) => c,
                    None => 1,
                };
                r matches Err(e) && e.kind == ErrorKind::ChildFailed(c) && e.detail@ == child_failed_detail(
                    bin@,
                    c as int,
                    stderr@,
                ) && e.response is None
            },
        },
{
    let c = match code {
        Some(0) => {
            return Ok(());
        },
        Some(c) => c,
        None => 1,
    };
    let mut d = String::from_str("\"");
    d.append(bin);
    d.append("\" exited with code ");
    let cs = i32_to_string(c);
    d.append(cs.as_str());
    d.append(": ");
    d.append(stderr);
    Err(CasaError::new(ErrorKind::ChildFailed(c), d))
}

} // verus!
