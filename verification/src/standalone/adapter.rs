//! The adapter layer of the single-binary CLI: unsupported operations are
//! errors (`protocol_unsupported`, exit 14), and a malformed protocol-specific
//! argument is `invalid_argument` (exit 2).

pub mod echonet;
pub mod matter;

use vstd::prelude::*;

pub use crate::adapter::Invocation;
use crate::adapter::InvocationView;
use crate::error::{CasaError, ErrorKind};
use crate::standalone::adapter::echonet::EchonetAdapter;
use crate::standalone::adapter::matter::MatterAdapter;
use crate::standalone::config::Device;

verus! {

/// The detail of an operation a protocol does not support.
pub open spec fn unsupported_detail(protocol: Seq<char>, operation: Seq<char>) -> Seq<char> {
    "operation \""@ + operation + "\" is not yet supported for protocol \""@ + protocol + "\""@
}

/// The error of an unsupported operation (`protocol_unsupported`, exit 14).
pub fn unsupported(protocol: &str, operation: &str) -> (r: CasaError)
    ensures
        r.kind == ErrorKind::ProtocolUnsupported,
        r.detail@ == unsupported_detail(protocol@, operation@),
        r.response is None,
{
    let mut d = String::from_str("operation \"");
    d.append(operation);
    d.append("\" is not yet supported for protocol \"");
    d.append(protocol);
    d.append("\"");
    CasaError::new(ErrorKind::ProtocolUnsupported, d)
}

/// Whether a result is the given invocation, or an error of the given kind and detail.
pub open spec fn result_is(r: Result<Invocation, CasaError>, expected: Result<InvocationView, (ErrorKind, Seq<char>)>) -> bool {
    match (r, expected) {
        (Ok(inv), Ok(v)) => inv@ == v,
        (Err(e), Err((k, d))) => e.kind == k && e.detail@ == d && e.response is None,
        _ => false,
    }
}

/// Builds child CLI arguments for a protocol. Every operation is unsupported
/// unless an adapter says otherwise.
pub trait Adapter {
    /// The protocol name, as a value.
    spec fn protocol_name(&self) -> Seq<char>;

    /// The protocol name, for error messages.
    fn protocol(&self) -> (r: &'static str)
        ensures
            r@ == self.protocol_name(),
    ;

    fn get(&self, device: &Device, property: &str) -> (r: Result<Invocation, CasaError>)
        default_ensures
            result_is(r, Err((ErrorKind::ProtocolUnsupported, unsupported_detail(self.protocol_name(), "get"@)))),
    {
        Err(unsupported(self.protocol(), "get"))
    }

    fn set(&self, device: &Device, property: &str, value: &str) -> (r: Result<Invocation, CasaError>)
        default_ensures
            result_is(r, Err((ErrorKind::ProtocolUnsupported, unsupported_detail(self.protocol_name(), "set"@)))),
    {
        Err(unsupported(self.protocol(), "set"))
    }

    fn describe(&self, device: &Device) -> (r: Result<Invocation, CasaError>)
        default_ensures
            result_is(r, Err((ErrorKind::ProtocolUnsupported, unsupported_detail(self.protocol_name(), "describe"@)))),
    {
        Err(unsupported(self.protocol(), "describe"))
    }

    fn power(&self, device: &Device, on: bool) -> (r: Result<Invocation, CasaError>)
        default_ensures
            result_is(
                r,
                Err((ErrorKind::ProtocolUnsupported, unsupported_detail(self.protocol_name(), if on { "on"@ } else { "off"@ }))),
            ),
    {
        Err(unsupported(self.protocol(), if on { "on" } else { "off" }))
    }
}

/// The adapter of a protocol.
#[derive(Debug, Clone, Copy, PartialEq, Eq, Structural)]
pub enum ProtocolAdapter {
    Echonet,
    Matter,
}

/// The adapter the device's protocol selects; SwitchBot has none.
pub open spec fn spec_adapter_for(d: Device) -> Option<ProtocolAdapter> {
    match d {
        Device::Echonet { .. } => Some(ProtocolAdapter::Echonet),
        Device::Matter { .. } => Some(ProtocolAdapter::Matter),
        Device::Switchbot { .. } => None,
    }
}

/// The device's protocol is the only thing dispatch looks at.
pub fn adapter_for(device: &Device) -> (r: Option<ProtocolAdapter>)
    ensures
        r == spec_adapter_for(*device),
{
    match device {
        Device::Echonet { .. } => Some(ProtocolAdapter::Echonet),
        Device::Matter { .. } => Some(ProtocolAdapter::Matter),
        Device::Switchbot { .. } => None,
    }
}

/// What `get` gives with an adapter.
pub open spec fn spec_get(a: ProtocolAdapter, d: Device, property: Seq<char>) -> Result<InvocationView, (ErrorKind, Seq<char>)> {
    match a {
        ProtocolAdapter::Echonet => echonet::spec_get(d, property),
        ProtocolAdapter::Matter => matter::spec_get(d, property),
    }
}

/// What `set` gives with an adapter.
pub open spec fn spec_set(a: ProtocolAdapter, d: Device, property: Seq<char>, value: Seq<char>) -> Result<InvocationView, (ErrorKind, Seq<char>)> {
    match a {
        ProtocolAdapter::Echonet => echonet::spec_set(d, property, value),
        ProtocolAdapter::Matter => matter::spec_set(d, property, value),
    }
}

/// What `describe` gives with an adapter.
pub open spec fn spec_describe(a: ProtocolAdapter, d: Device) -> Result<InvocationView, (ErrorKind, Seq<char>)> {
    match a {
        ProtocolAdapter::Echonet => echonet::spec_describe(d),
        ProtocolAdapter::Matter => matter::spec_describe(d),
    }
}

/// What `power` gives with an adapter.
pub open spec fn spec_power(a: ProtocolAdapter, d: Device, on: bool) -> Result<InvocationView, (ErrorKind, Seq<char>)> {
    match a {
        ProtocolAdapter::Echonet => echonet::spec_power(d, on),
        ProtocolAdapter::Matter => matter::spec_power(d, on),
    }
}

impl Adapter for ProtocolAdapter {
    open spec fn protocol_name(&self) -> Seq<char> {
        match self {
            ProtocolAdapter::Echonet => "echonet"@,
            ProtocolAdapter::Matter => "matter"@,
        }
    }

    fn protocol(&self) -> (r: &'static str) {
        match self {
            ProtocolAdapter::Echonet => EchonetAdapter.protocol(),
            ProtocolAdapter::Matter => MatterAdapter.protocol(),
        }
    }

    fn get(&self, device: &Device, property: &str) -> (r: Result<Invocation, CasaError>)
        ensures
            result_is(r, spec_get(*self, *device, property@)),
    {
        match self {
            ProtocolAdapter::Echonet => EchonetAdapter.get(device, property),
            ProtocolAdapter::Matter => MatterAdapter.get(device, property),
        }
    }

    fn set(&self, device: &Device, property: &str, value: &str) -> (r: Result<Invocation, CasaError>)
        ensures
            result_is(r, spec_set(*self, *device, property@, value@)),
    {
        match self {
            ProtocolAdapter::Echonet => EchonetAdapter.set(device, property, value),
            ProtocolAdapter::Matter => MatterAdapter.set(device, property, value),
        }
    }

    fn describe(&self, device: &Device) -> (r: Result<Invocation, CasaError>)
        ensures
            result_is(r, spec_describe(*self, *device)),
    {
        match self {
            ProtocolAdapter::Echonet => EchonetAdapter.describe(device),
            ProtocolAdapter::Matter => MatterAdapter.describe(device),
        }
    }

    fn power(&self, device: &Device, on: bool) -> (r: Result<Invocation, CasaError>)
        ensures
            result_is(r, spec_power(*self, *device, on)),
    {
        match self {
            ProtocolAdapter::Echonet => EchonetAdapter.power(device, on),
            ProtocolAdapter::Matter => MatterAdapter.power(device, on),
        }
    }
}

} // verus!
