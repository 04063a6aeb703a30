//! ECHONET Lite adapter: calls `enl`.

use vstd::prelude::*;

use crate::adapter::{extend_strings, strings, views, Adapter, Invocation, InvocationView};
use crate::config::Device;

verus! {

/// The EPC of the on/off shortcut (a UX mapping, not protocol logic).
pub const POWER_EPC: &'static str = "0x80";
/// The EDT written by `on`.
pub const POWER_ON: &'static str = "0x30";
/// The EDT written by `off`.
pub const POWER_OFF: &'static str = "0x31";

pub struct EchonetAdapter;

/// The (ip, eoj) of an ECHONET Lite device.
pub open spec fn spec_address(d: Device) -> Option<(Seq<char>, Seq<char>)> {
    match d {
        Device::Echonet { ip, eoj } => Some((ip@, eoj@)),
        _ => None,
    }
}

/// `enl get --ip <ip> --eoj <eoj> --epc <property>`.
pub open spec fn spec_get(d: Device, property: Seq<char>) -> Option<InvocationView> {
    match spec_address(d) {
        Some((ip, eoj)) => Some(("enl"@, seq!["get"@, "--ip"@, ip, "--eoj"@, eoj, "--epc"@, property])),
        None => None,
    }
}

/// `enl set --ip <ip> --eoj <eoj> --epc <property> --value <value>`.
pub open spec fn spec_set(d: Device, property: Seq<char>, value: Seq<char>) -> Option<InvocationView> {
    match spec_address(d) {
        Some((ip, eoj)) => Some(
            ("enl"@, seq!["set"@, "--ip"@, ip, "--eoj"@, eoj, "--epc"@, property, "--value"@, value]),
        ),
        None => None,
    }
}

/// `enl describe --ip <ip> --eoj <eoj>`.
pub open spec fn spec_describe(d: Device) -> Option<InvocationView> {
    match spec_address(d) {
        Some((ip, eoj)) => Some(("enl"@, seq!["describe"@, "--ip"@, ip, "--eoj"@, eoj])),
        None => None,
    }
}

/// On/off writes EPC 0x80: 0x30 for on, 0x31 for off.
pub open spec fn spec_power(d: Device, on: bool) -> Option<InvocationView> {
    spec_set(d, "0x80"@, if on { "0x30"@ } else { "0x31"@ })
}

/// `enl <command> --ip <ip> --eoj <eoj> <args...>`.
pub open spec fn spec_invoke(d: Device, command: Seq<char>, args: Seq<Seq<char>>) -> Option<InvocationView> {
    match spec_address(d) {
        Some((ip, eoj)) => Some(("enl"@, seq![command, "--ip"@, ip, "--eoj"@, eoj] + args)),
        None => None,
    }
}

fn address(device: &Device) -> (r: Option<(&str, &str)>)
    ensures
        match r {
            Some((ip, eoj)) => spec_address(*device) == Some((ip@, eoj@)),
            None => spec_address(*device) is None,
        },
{
    match device {
        Device::Echonet { ip, eoj } => Some((ip.as_str(), eoj.as_str())),
        _ => None,
    }
}

fn invocation(parts: &[&str]) -> (r: Invocation)
    ensures
        r@ == ("enl"@, parts@.map_values(|p: &str| p@)),
{
    Invocation { bin: "enl", args: strings(parts) }
}

impl Adapter for EchonetAdapter {
    fn get(&self, device: &Device, property: &str) -> (r: Option<Invocation>)
        ensures
            crate::adapter::opt_view(r) == spec_get(*device, property@),
    {
        let (ip, eoj) = address(device)?;
        let inv = invocation(&["get", "--ip", ip, "--eoj", eoj, "--epc", property]);
        assert(inv.args@.map_values(|x: String| x@) =~= seq!["get"@, "--ip"@, ip@, "--eoj"@, eoj@, "--epc"@, property@]);
        Some(inv)
    }

    fn set(&self, device: &Device, property: &str, value: &str) -> (r: Option<Invocation>)
        ensures
            crate::adapter::opt_view(r) == spec_set(*device, property@, value@),
    {
        let (ip, eoj) = address(device)?;
        let inv = invocation(&["set", "--ip", ip, "--eoj", eoj, "--epc", property, "--value", value]);
        assert(views(inv.args@) =~= seq!["set"@, "--ip"@, ip@, "--eoj"@, eoj@, "--epc"@, property@, "--value"@, value@]);
        Some(inv)
    }

    fn describe(&self, device: &Device) -> (r: Option<Invocation>)
        ensures
            crate::adapter::opt_view(r) == spec_describe(*device),
    {
        let (ip, eoj) = address(device)?;
        let inv = invocation(&["describe", "--ip", ip, "--eoj", eoj]);
        assert(views(inv.args@) =~= seq!["describe"@, "--ip"@, ip@, "--eoj"@, eoj@]);
        Some(inv)
    }

    fn power(&self, device: &Device, on: bool) -> (r: Option<Invocation>)
        ensures
            crate::adapter::opt_view(r) == spec_power(*device, on),
    {
        let value = if on { POWER_ON } else { POWER_OFF };
        self.set(device, POWER_EPC, value)
    }

    fn invoke(&self, device: &Device, command: &str, args: &[String]) -> (r: Option<Invocation>)
        ensures
            crate::adapter::opt_view(r) == spec_invoke(*device, command@, views(args@)),
    {
        let (ip, eoj) = address(device)?;
        let mut all = strings(&[command, "--ip", ip, "--eoj", eoj]);
        extend_strings(&mut all, args);
        assert(views(all@) =~= seq![command@, "--ip"@, ip@, "--eoj"@, eoj@] + views(args@));
        Some(Invocation { bin: "enl", args: all })
    }
}

} // verus!
