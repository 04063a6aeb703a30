//! SwitchBot adapter: calls `swb`, a wrapper of the SwitchBot cloud API. The
//! cloud API has no single-property read or write and no introspection, so
//! `get`, `set` and `describe` are unsupported; the device id always comes
//! right after the subcommand.

use vstd::prelude::*;

use crate::adapter::{extend_strings, strings, views, Adapter, Invocation, InvocationView};
use crate::config::Device;

verus! {

pub struct SwitchbotAdapter;

/// The device id of a SwitchBot device.
pub open spec fn spec_device_id(d: Device) -> Option<Seq<char>> {
    match d {
        Device::Switchbot { device_id } => Some(device_id@),
        _ => None,
    }
}

/// `swb cmd <device_id> turnOn|turnOff`.
pub open spec fn spec_power(d: Device, on: bool) -> Option<InvocationView> {
    match spec_device_id(d) {
        Some(id) => Some(("swb"@, seq!["cmd"@, id, if on { "turnOn"@ } else { "turnOff"@ }])),
        None => None,
    }
}

/// `swb <command> <device_id> <args...>`.
pub open spec fn spec_invoke(d: Device, command: Seq<char>, args: Seq<Seq<char>>) -> Option<InvocationView> {
    match spec_device_id(d) {
        Some(id) => Some(("swb"@, seq![command, id] + args)),
        None => None,
    }
}

fn device_id(device: &Device) -> (r: Option<&str>)
    ensures
        match r {
            Some(id) => spec_device_id(*device) == Some(id@),
            None => spec_device_id(*device) is None,
        },
{
    match device {
        Device::Switchbot { device_id } => Some(device_id.as_str()),
        _ => None,
    }
}

impl Adapter for SwitchbotAdapter {
    fn power(&self, device: &Device, on: bool) -> (r: Option<Invocation>)
        ensures
            crate::adapter::opt_view(r) == spec_power(*device, on),
    {
        let id = device_id(device)?;
        let command = if on { "turnOn" } else { "turnOff" };
        let args = strings(&["cmd", id, command]);
        assert(views(args@) =~= seq!["cmd"@, id@, command@]);
        Some(Invocation { bin: "swb", args })
    }

    fn invoke(&self, device: &Device, command: &str, args: &[String]) -> (r: Option<Invocation>)
        ensures
            crate::adapter::opt_view(r) == spec_invoke(*device, command@, views(args@)),
    {
        let id = device_id(device)?;
        let mut all = strings(&[command, id]);
        extend_strings(&mut all, args);
        assert(views(all@) =~= seq![command@, id@] + views(args@));
        Some(Invocation { bin: "swb", args: all })
    }
}

} // verus!
