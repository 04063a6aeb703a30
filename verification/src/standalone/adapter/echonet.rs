//! ECHONET Lite adapter of the single-binary CLI: calls `enl`.

use vstd::prelude::*;

use crate::adapter::{strings, views, Invocation, InvocationView};
use crate::error::{CasaError, ErrorKind};
use crate::standalone::adapter::{result_is, unsupported, unsupported_detail, Adapter};
use crate::standalone::config::{spec_protocol, Device};

verus! {

pub struct EchonetAdapter;

/// The (ip, eoj) of an ECHONET Lite device.
pub open spec fn spec_address(d: Device) -> Option<(Seq<char>, Seq<char>)> {
    match d {
        Device::Echonet { ip, eoj } => Some((ip@, eoj@)),
        _ => None,
    }
}

/// The error of an ECHONET operation on another protocol's device.
pub open spec fn wrong_device(d: Device, operation: Seq<char>) -> Result<InvocationView, (ErrorKind, Seq<char>)> {
    Err((ErrorKind::ProtocolUnsupported, unsupported_detail(spec_protocol(d), operation)))
}

/// `enl get --ip <ip> --eoj <eoj> --epc <property>`.
pub open spec fn spec_get(d: Device, property: Seq<char>) -> Result<InvocationView, (ErrorKind, Seq<char>)> {
    match spec_address(d) {
        Some((ip, eoj)) => Ok(("enl"@, seq!["get"@, "--ip"@, ip, "--eoj"@, eoj, "--epc"@, property])),
        None => wrong_device(d, "get"@),
    }
}

/// `enl set --ip <ip> --eoj <eoj> --epc <property> --value <value>`.
pub open spec fn spec_set(d: Device, property: Seq<char>, value: Seq<char>) -> Result<InvocationView, (ErrorKind, Seq<char>)> {
    match spec_address(d) {
        Some((ip, eoj)) => Ok(
            ("enl"@, seq!["set"@, "--ip"@, ip, "--eoj"@, eoj, "--epc"@, property, "--value"@, value]),
        ),
        None => wrong_device(d, "set"@),
    }
}

/// `enl describe --ip <ip> --eoj <eoj>`.
pub open spec fn spec_describe(d: Device) -> Result<InvocationView, (ErrorKind, Seq<char>)> {
    match spec_address(d) {
        Some((ip, eoj)) => Ok(("enl"@, seq!["describe"@, "--ip"@, ip, "--eoj"@, eoj])),
        None => wrong_device(d, "describe"@),
    }
}

/// On/off writes EPC 0x80: 0x30 for on, 0x31 for off.
pub open spec fn spec_power(d: Device, on: bool) -> Result<InvocationView, (ErrorKind, Seq<char>)> {
    spec_set(d, "0x80"@, if on { "0x30"@ } else { "0x31"@ })
}

fn address<'a>(device: &'a Device, operation: &str) -> (r: Result<(&'a str, &'a str), CasaError>)
    ensures
        match r {
            Ok((ip, eoj)) => spec_address(*device) == Some((ip@, eoj@)),
            Err(e) => spec_address(*device) is None && e.kind == ErrorKind::ProtocolUnsupported
                && e.detail@ == unsupported_detail(spec_protocol(*device), operation@) && e.response is None,
        },
{
    match device {
        Device::Echonet { ip, eoj } => Ok((ip.as_str(), eoj.as_str())),
        other => Err(unsupported(other.protocol(), operation)),
    }
}

impl Adapter for EchonetAdapter {
    open spec fn protocol_name(&self) -> Seq<char> {
        "echonet"@
    }

    fn protocol(&self) -> (r: &'static str) {
        "echonet"
    }

    fn get(&self, device: &Device, property: &str) -> (r: Result<Invocation, CasaError>)
        ensures
            result_is(r, spec_get(*device, property@)),
    {
        let (ip, eoj) = address(device, "get")?;
        let args = strings(&["get", "--ip", ip, "--eoj", eoj, "--epc", property]);
        assert(views(args@) =~= seq!["get"@, "--ip"@, ip@, "--eoj"@, eoj@, "--epc"@, property@]);
        Ok(Invocation { bin: "enl", args })
    }

    fn set(&self, device: &Device, property: &str, value: &str) -> (r: Result<Invocation, CasaError>)
        ensures
            result_is(r, spec_set(*device, property@, value@)),
    {
        let (ip, eoj) = address(device, "set")?;
        let args = strings(&["set", "--ip", ip, "--eoj", eoj, "--epc", property, "--value", value]);
        assert(views(args@) =~= seq!["set"@, "--ip"@, ip@, "--eoj"@, eoj@, "--epc"@, property@, "--value"@, value@]);
        Ok(Invocation { bin: "enl", args })
    }

    fn describe(&self, device: &Device) -> (r: Result<Invocation, CasaError>)
        ensures
            result_is(r, spec_describe(*device)),
    {
        let (ip, eoj) = address(device, "describe")?;
        let args = strings(&["describe", "--ip", ip, "--eoj", eoj]);
        assert(views(args@) =~= seq!["describe"@, "--ip"@, ip@, "--eoj"@, eoj@]);
        Ok(Invocation { bin: "enl", args })
    }

    fn power(&self, device: &Device, on: bool) -> (r: Result<Invocation, CasaError>)
        ensures
            result_is(r, spec_power(*device, on)),
    {
        let value = if on { crate::adapter::echonet::POWER_ON } else { crate::adapter::echonet::POWER_OFF };
        self.set(device, crate::adapter::echonet::POWER_EPC, value)
    }
}

} // verus!
