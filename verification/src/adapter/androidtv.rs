//! Android TV adapter: calls `atv`, a thin CLI for the Android TV Remote
//! protocol v2. Remote v2 has no single-property read or write and no
//! introspection, so `get`, `set` and `describe` are unsupported; the host is
//! always injected as `--host` right after the subcommand.

use vstd::prelude::*;

use crate::adapter::{extend_strings, strings, views, Adapter, Invocation, InvocationView};
use crate::config::Device;

verus! {

pub struct AndroidtvAdapter;

/// The host of an Android TV device.
pub open spec fn spec_host(d: Device) -> Option<Seq<char>> {
    match d {
        Device::Androidtv { host } => Some(host@),
        _ => None,
    }
}

/// `atv <command> --host <host> <args...>`.
pub open spec fn spec_invoke(d: Device, command: Seq<char>, args: Seq<Seq<char>>) -> Option<InvocationView> {
    match spec_host(d) {
        Some(h) => Some(("atv"@, seq![command, "--host"@, h] + args)),
        None => None,
    }
}

/// On/off are atv's own `on` / `off` subcommands (atv makes them idempotent).
pub open spec fn spec_power(d: Device, on: bool) -> Option<InvocationView> {
    spec_invoke(d, if on { "on"@ } else { "off"@ }, Seq::empty())
}

fn host(device: &Device) -> (r: Option<&str>)
    ensures
        match r {
            Some(h) => spec_host(*device) == Some(h@),
            None => spec_host(*device) is None,
        },
{
    match device {
        Device::Androidtv { host } => Some(host.as_str()),
        _ => None,
    }
}

impl Adapter for AndroidtvAdapter {
    fn power(&self, device: &Device, on: bool) -> (r: Option<Invocation>)
        ensures
            crate::adapter::opt_view(r) == spec_power(*device, on),
    {
        let command = if on { "on" } else { "off" };
        let none: Vec<String> = Vec::new();
        let r = self.invoke(device, command, none.as_slice());
        assert(views(none@) =~= Seq::<Seq<char>>::empty());
        r
    }

    fn invoke(&self, device: &Device, command: &str, args: &[String]) -> (r: Option<Invocation>)
        ensures
            crate::adapter::opt_view(r) == spec_invoke(*device, command@, views(args@)),
    {
        let h = host(device)?;
        let mut all = strings(&[command, "--host", h]);
        extend_strings(&mut all, args);
        assert(views(all@) =~= seq![command@, "--host"@, h@] + views(args@));
        Some(Invocation { bin: "atv", args: all })
    }
}

} // verus!
