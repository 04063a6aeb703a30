//! The subcommands' decisions in the single-binary CLI: name resolution and
//! what each request asks of the protocol adapter.

use vstd::prelude::*;

use crate::adapter::{Invocation, InvocationView};
use crate::error::{CasaError, ErrorKind};
use crate::lookup::{has_key, lookup};
use crate::standalone::adapter::{self, adapter_for, result_is, spec_adapter_for, unsupported_detail, Adapter};
use crate::standalone::config::{spec_protocol, Config, Device};

verus! {

/// A request on one device.
#[derive(Debug)]
pub enum Request {
    Get { epc: String },
    SetValue { epc: String, value: String },
    Power { on: bool },
    Describe,
}

/// The name under which a request is reported.
pub open spec fn request_name(req: Request) -> Seq<char> {
    match req {
        Request::Get { .. } => "get"@,
        Request::SetValue { .. } => "set"@,
        Request::Power { on } => if on { "on"@ } else { "off"@ },
        Request::Describe => "describe"@,
    }
}

/// The error of a request that the device's protocol does not support
/// (`protocol_unsupported`, exit 14).
pub fn unsupported(device: &Device, operation: &str) -> (r: CasaError)
    ensures
        r.kind == ErrorKind::ProtocolUnsupported,
        r.detail@ == unsupported_detail(spec_protocol(*device), operation@),
        r.response is None,
{
    adapter::unsupported(device.protocol(), operation)
}

/// The owned copies of some strings.
pub fn string_vec(args: &[&str]) -> (r: Vec<String>)
    ensures
        crate::adapter::views(r@) == args@.map_values(|a: &str| a@),
{
    crate::adapter::strings(args)
}

/// What a request gives on a device: the adapter's result, or
/// `protocol_unsupported` for a protocol without an adapter.
pub open spec fn spec_request(d: Device, req: Request) -> Result<InvocationView, (ErrorKind, Seq<char>)> {
    match spec_adapter_for(d) {
        None => Err((ErrorKind::ProtocolUnsupported, unsupported_detail(spec_protocol(d), request_name(req)))),
        Some(a) => match req {
            Request::Get { epc } => adapter::spec_get(a, d, epc@),
            Request::SetValue { epc, value } => adapter::spec_set(a, d, epc@, value@),
            Request::Power { on } => adapter::spec_power(a, d, on),
            Request::Describe => adapter::spec_describe(a, d),
        },
    }
}

/// Prepares `get <name> <epc>`, `set <name> <epc> <value>`, `on` / `off <name>`
/// or `describe <name>`: an unknown name is `name_not_found`; otherwise the
/// device's adapter decides.
pub fn plan(config: &Config, name: &str, req: &Request) -> (r: Result<Invocation, CasaError>)
    ensures
        if has_key(config.devices@, name@) {
            result_is(r, spec_request(lookup(config.devices@, name@)->0, *req))
        } else {
            r matches Err(e) && e.kind == ErrorKind::NameNotFound
                && e.detail@ == crate::config::device_not_found_detail(name@) && e.response is None
        },
{
    let device = config.device(name)?;
    match adapter_for(device) {
        None => {
            let op = match req {
                Request::Get { .. } => "get",
                Request::SetValue { .. } => "set",
                Request::Power { on } => if *on { "on" } else { "off" },
                Request::Describe => "describe",
            };
            Err(unsupported(device, op))
        },
        Some(a) => match req {
            Request::Get { epc } => a.get(device, epc.as_str()),
            Request::SetValue { epc, value } => a.set(device, epc.as_str(), value.as_str()),
            Request::Power { on } => a.power(device, *on),
            Request::Describe => a.describe(device),
        },
    }
}

/// The invocation that fetches a device's property map, or `None` for a
/// protocol without introspection.
pub fn describe_device(device: &Device) -> (r: Option<Invocation>)
    ensures
        match r {
            Some(inv) => spec_adapter_for(*device) matches Some(a)
                && adapter::spec_describe(a, *device) == Ok::<InvocationView, (ErrorKind, Seq<char>)>(inv@),
            None => spec_adapter_for(*device) is None,
        },
{
    match adapter_for(device) {
        None => None,
        Some(a) => match a.describe(device) {
            Ok(inv) => Some(inv),
            Err(_) => None,
        },
    }
}

} // verus!
