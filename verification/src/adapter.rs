//! The protocol adapter layer: from a device definition to one child CLI
//! invocation (binary name and arguments). Protocol knowledge stays here.

pub mod androidtv;
pub mod echonet;
pub mod matter;
pub mod switchbot;

use vstd::prelude::*;

use crate::adapter::androidtv::AndroidtvAdapter;
use crate::adapter::echonet::EchonetAdapter;
use crate::adapter::matter::MatterAdapter;
use crate::adapter::switchbot::SwitchbotAdapter;
use crate::config::Device;

verus! {

/// The characters of each string, in order.
pub open spec fn views(s: Seq<String>) -> Seq<Seq<char>> {
    s.map_values(|x: String| x@)
}

/// One child CLI invocation. Only the logical binary name is held; resolving it
/// to a path is the runner's business.
#[derive(Debug, Clone, PartialEq, Eq)]
pub struct Invocation {
    pub bin: &'static str,
    pub args: Vec<String>,
}

/// An invocation as values: the binary name and the arguments.
pub type InvocationView = (Seq<char>, Seq<Seq<char>>);

impl View for Invocation {
    type V = InvocationView;

    open spec fn view(&self) -> InvocationView {
        (self.bin@, views(self.args@))
    }
}

/// An optional invocation as values.
pub open spec fn opt_view(o: Option<Invocation>) -> Option<InvocationView> {
    match o {
        Some(i) => Some(i@),
        None => None,
    }
}

/// Appends one string to a list of arguments.
pub fn push_str(v: &mut Vec<String>, s: &str)
    ensures
        views(final(v)@) == views(old(v)@).push(s@),
{
    v.push(s.to_owned());
    assert(views(v@) =~= views(old(v)@).push(s@));
}

/// Appends arguments to a list of arguments, in order.
pub fn extend_strings(v: &mut Vec<String>, args: &[String])
    ensures
        views(final(v)@) == views(old(v)@) + views(args@),
{
    let mut i: usize = 0;
    while i < args.len()
        invariant
            i <= args.len(),
            views(v@) == views(old(v)@) + views(args@.take(i as int)),
        decreases args.len() - i,
    {
        let ghost before = v@;
        v.push(args[i].clone());
        assert(views(args@.take(i + 1)) =~= views(args@.take(i as int)).push(args@[i as int]@));
        assert(views(v@) =~= views(before).push(args@[i as int]@));
        i = i + 1;
    }
    assert(args@.take(args.len() as int) =~= args@);
}

/// Builds the argument list of the string views of `parts`.
pub fn strings(parts: &[&str]) -> (r: Vec<String>)
    ensures
        views(r@) == parts@.map_values(|p: &str| p@),
{
    let mut v: Vec<String> = Vec::new();
    let mut i: usize = 0;
    while i < parts.len()
        invariant
            i <= parts.len(),
            views(v@) == parts@.take(i as int).map_values(|p: &str| p@),
        decreases parts.len() - i,
    {
        push_str(&mut v, parts[i]);
        assert(parts@.take(i + 1).map_values(|p: &str| p@) =~= parts@.take(i as int).map_values(
            |p: &str| p@,
        ).push(parts@[i as int]@));
        i = i + 1;
    }
    assert(parts@.take(parts.len() as int) =~= parts@);
    v
}

/// Builds child CLI arguments for a protocol. An operation the protocol does
/// not support yields `None`, which the ops layer turns into
/// `protocol_unsupported` (exit 14). Every operation is unsupported unless an
/// adapter says otherwise.
pub trait Adapter {
    fn get(&self, device: &Device, property: &str) -> (r: Option<Invocation>)
        default_ensures
            r is None,
    {
        None
    }

    fn set(&self, device: &Device, property: &str, value: &str) -> (r: Option<Invocation>)
        default_ensures
            r is None,
    {
        None
    }

    fn describe(&self, device: &Device) -> (r: Option<Invocation>)
        default_ensures
            r is None,
    {
        None
    }

    fn power(&self, device: &Device, on: bool) -> (r: Option<Invocation>)
        default_ensures
            r is None,
    {
        None
    }

    /// The general verb for long-tail protocol operations: `command` is the child
    /// CLI's subcommand, uninterpreted; the device's address is injected and
    /// `args` are passed through.
    fn invoke(&self, device: &Device, command: &str, args: &[String]) -> (r: Option<Invocation>)
        default_ensures
            r is None,
    {
        None
    }
}


/// The adapter of a protocol.
#[derive(Debug, Clone, Copy, PartialEq, Eq, Structural)]
pub enum ProtocolAdapter {
    Echonet,
    Matter,
    Switchbot,
    Androidtv,
}

/// The adapter that the device's protocol selects.
pub open spec fn spec_adapter_for(d: Device) -> ProtocolAdapter {
    match d {
        Device::Echonet { .. } => ProtocolAdapter::Echonet,
        Device::Matter { .. } => ProtocolAdapter::Matter,
        Device::Switchbot { .. } => ProtocolAdapter::Switchbot,
        Device::Androidtv { .. } => ProtocolAdapter::Androidtv,
    }
}

/// The device's protocol is the only thing dispatch looks at; every protocol
/// has an adapter.
pub fn adapter_for(device: &Device) -> (r: Option<ProtocolAdapter>)
    ensures
        r == Some(spec_adapter_for(*device)),
{
    match device {
        Device::Echonet { .. } => Some(ProtocolAdapter::Echonet),
        Device::Matter { .. } => Some(ProtocolAdapter::Matter),
        Device::Switchbot { .. } => Some(ProtocolAdapter::Switchbot),
        Device::Androidtv { .. } => Some(ProtocolAdapter::Androidtv),
    }
}

/// What `get` builds with an adapter.
pub open spec fn spec_get(a: ProtocolAdapter, d: Device, property: Seq<char>) -> Option<InvocationView> {
    match a {
        ProtocolAdapter::Echonet => echonet::spec_get(d, property),
        ProtocolAdapter::Matter => matter::spec_get(d, property),
        _ => None,
    }
}

/// What `set` builds with an adapter.
pub open spec fn spec_set(a: ProtocolAdapter, d: Device, property: Seq<char>, value: Seq<char>) -> Option<InvocationView> {
    match a {
        ProtocolAdapter::Echonet => echonet::spec_set(d, property, value),
        ProtocolAdapter::Matter => matter::spec_set(d, property, value),
        _ => None,
    }
}

/// What `describe` builds with an adapter.
pub open spec fn spec_describe(a: ProtocolAdapter, d: Device) -> Option<InvocationView> {
    match a {
        ProtocolAdapter::Echonet => echonet::spec_describe(d),
        ProtocolAdapter::Matter => matter::spec_describe(d),
        _ => None,
    }
}

/// What `power` builds with an adapter.
pub open spec fn spec_power(a: ProtocolAdapter, d: Device, on: bool) -> Option<InvocationView> {
    match a {
        ProtocolAdapter::Echonet => echonet::spec_power(d, on),
        ProtocolAdapter::Matter => matter::spec_power(d, on),
        ProtocolAdapter::Switchbot => switchbot::spec_power(d, on),
        ProtocolAdapter::Androidtv => androidtv::spec_power(d, on),
    }
}

/// What `invoke` builds with an adapter.
pub open spec fn spec_invoke(a: ProtocolAdapter, d: Device, command: Seq<char>, args: Seq<Seq<char>>) -> Option<InvocationView> {
    match a {
        ProtocolAdapter::Echonet => echonet::spec_invoke(d, command, args),
        ProtocolAdapter::Matter => matter::spec_invoke(d, command, args),
        ProtocolAdapter::Switchbot => switchbot::spec_invoke(d, command, args),
        ProtocolAdapter::Androidtv => androidtv::spec_invoke(d, command, args),
    }
}

impl Adapter for ProtocolAdapter {
    fn get(&self, device: &Device, property: &str) -> (r: Option<Invocation>)
        ensures
            opt_view(r) == spec_get(*self, *device, property@),
    {
        match self {
            ProtocolAdapter::Echonet => EchonetAdapter.get(device, property),
            ProtocolAdapter::Matter => MatterAdapter.get(device, property),
            ProtocolAdapter::Switchbot => SwitchbotAdapter.get(device, property),
            ProtocolAdapter::Androidtv => AndroidtvAdapter.get(device, property),
        }
    }

    fn set(&self, device: &Device, property: &str, value: &str) -> (r: Option<Invocation>)
        ensures
            opt_view(r) == spec_set(*self, *device, property@, value@),
    {
        match self {
            ProtocolAdapter::Echonet => EchonetAdapter.set(device, property, value),
            ProtocolAdapter::Matter => MatterAdapter.set(device, property, value),
            ProtocolAdapter::Switchbot => SwitchbotAdapter.set(device, property, value),
            ProtocolAdapter::Androidtv => AndroidtvAdapter.set(device, property, value),
        }
    }

    fn describe(&self, device: &Device) -> (r: Option<Invocation>)
        ensures
            opt_view(r) == spec_describe(*self, *device),
    {
        match self {
            ProtocolAdapter::Echonet => EchonetAdapter.describe(device),
            ProtocolAdapter::Matter => MatterAdapter.describe(device),
            ProtocolAdapter::Switchbot => SwitchbotAdapter.describe(device),
            ProtocolAdapter::Androidtv => AndroidtvAdapter.describe(device),
        }
    }

    fn power(&self, device: &Device, on: bool) -> (r: Option<Invocation>)
        ensures
            opt_view(r) == spec_power(*self, *device, on),
    {
        match self {
            ProtocolAdapter::Echonet => EchonetAdapter.power(device, on),
            ProtocolAdapter::Matter => MatterAdapter.power(device, on),
            ProtocolAdapter::Switchbot => SwitchbotAdapter.power(device, on),
            ProtocolAdapter::Androidtv => AndroidtvAdapter.power(device, on),
        }
    }

    fn invoke(&self, device: &Device, command: &str, args: &[String]) -> (r: Option<Invocation>)
        ensures
            opt_view(r) == spec_invoke(*self, *device, command@, views(args@)),
    {
        match self {
            ProtocolAdapter::Echonet => EchonetAdapter.invoke(device, command, args),
            ProtocolAdapter::Matter => MatterAdapter.invoke(device, command, args),
            ProtocolAdapter::Switchbot => SwitchbotAdapter.invoke(device, command, args),
            ProtocolAdapter::Androidtv => AndroidtvAdapter.invoke(device, command, args),
        }
    }
}

/// Law: `invoke` always passes the caller's arguments through unchanged as the
/// tail of the child's arguments, and starts the child's arguments with the
/// command itself (or, for a Matter group, with `group` and then the command),
/// whichever protocol the device speaks, as long as the device has an address.
pub proof fn law_invoke_passes_arguments_through(d: Device, command: Seq<char>, args: Seq<Seq<char>>)
    ensures
        match spec_invoke(spec_adapter_for(d), d, command, args) {
            Some(inv) => {
                &&& inv.1.len() >= args.len() + 2
                &&& inv.1.skip(inv.1.len() - args.len()) == args
                &&& (inv.1[0] == command || (inv.1[0] == "group"@ && inv.1[1] == command))
            },
            None => d is Matter && matter::spec_address(d) is None,
        },
{
    match spec_invoke(spec_adapter_for(d), d, command, args) {
        Some(inv) => {
            assert(inv.1.skip(inv.1.len() - args.len()) =~= args);
        },
        None => {},
    }
}

} // verus!
