//! Matter adapter: calls `mat`, a chip-tool wrapper.
//!
//! A device is addressed by node (unicast) or by group (groupcast). The single
//! property selector of `get` / `set` is `endpoint/cluster/attribute` or
//! `cluster/attribute` (chip-tool names), mapped onto mat's flags; any other
//! number of parts cannot be mapped and is unsupported. On/off are OnOff
//! commands, delegated to mat's `on` / `off` shortcuts (or `mat group invoke`).
//! Groupcast gets no response back, so `get`, `set` and `describe` are
//! unsupported for a group.

use vstd::prelude::*;

use crate::adapter::{extend_strings, push_str, strings, views, Adapter, Invocation, InvocationView};
use crate::config::Device;
use crate::text::{decimal, split_char, split_on, u64_to_string};

verus! {

pub struct MatterAdapter;

/// How a Matter device is addressed.
pub enum MatterAddr<'a> {
    Node { node_id: &'a str, endpoint: Option<u32> },
    Group { group: &'a str, endpoint: Option<u32> },
}

/// The address of a Matter device as values: `(true, node_id, endpoint)` for a
/// node, `(false, group, endpoint)` for a group. A node id wins over a group.
pub open spec fn spec_address(d: Device) -> Option<(bool, Seq<char>, Option<u32>)> {
    match d {
        Device::Matter { node_id, group, endpoint } => {
            if node_id is Some {
                Some((true, node_id->0@, endpoint))
            } else if group is Some {
                Some((false, group->0@, endpoint))
            } else {
                None
            }
        },
        _ => None,
    }
}

/// `--endpoint <ep>` when the config names an endpoint, else nothing.
pub open spec fn endpoint_flags(endpoint: Option<u32>) -> Seq<Seq<char>> {
    match endpoint {
        Some(ep) => seq!["--endpoint"@, decimal(ep as nat)],
        None => Seq::empty(),
    }
}

/// The mat flags of a selector: `endpoint/cluster/attribute` or
/// `cluster/attribute`; any other number of `/`-separated parts has none.
pub open spec fn spec_selector_flags(selector: Seq<char>) -> Option<Seq<Seq<char>>> {
    let parts = split_on(selector, '/');
    if parts.len() == 3 {
        Some(seq!["--endpoint"@, parts[0], "--cluster"@, parts[1], "--attribute"@, parts[2]])
    } else if parts.len() == 2 {
        Some(seq!["--cluster"@, parts[0], "--attribute"@, parts[1]])
    } else {
        None
    }
}

/// `mat read --node <node_id> <selector flags>`; unsupported for a group.
pub open spec fn spec_get(d: Device, property: Seq<char>) -> Option<InvocationView> {
    match (spec_address(d), spec_selector_flags(property)) {
        (Some((true, node, _)), Some(flags)) => Some(("mat"@, seq!["read"@, "--node"@, node] + flags)),
        _ => None,
    }
}

/// `mat write --node <node_id> <selector flags> --value <value>`; unsupported for a group.
pub open spec fn spec_set(d: Device, property: Seq<char>, value: Seq<char>) -> Option<InvocationView> {
    match (spec_address(d), spec_selector_flags(property)) {
        (Some((true, node, _)), Some(flags)) => Some(
            ("mat"@, seq!["write"@, "--node"@, node] + flags + seq!["--value"@, value]),
        ),
        _ => None,
    }
}

/// `mat describe --node <node_id>`; unsupported for a group.
pub open spec fn spec_describe(d: Device) -> Option<InvocationView> {
    match spec_address(d) {
        Some((true, node, _)) => Some(("mat"@, seq!["describe"@, "--node"@, node])),
        _ => None,
    }
}

/// `mat on|off --node <node_id> [--endpoint <ep>]`, or for a group
/// `mat group invoke --group <g> --cluster onoff --command on|off [--endpoint <ep>]`.
pub open spec fn spec_power(d: Device, on: bool) -> Option<InvocationView> {
    let cmd = if on { "on"@ } else { "off"@ };
    match spec_address(d) {
        Some((true, node, ep)) => Some(("mat"@, seq![cmd, "--node"@, node] + endpoint_flags(ep))),
        Some((false, group, ep)) => Some(
            (
                "mat"@,
                seq!["group"@, "invoke"@, "--group"@, group, "--cluster"@, "onoff"@, "--command"@, cmd]
                    + endpoint_flags(ep),
            ),
        ),
        None => None,
    }
}

/// `mat <command> --node <node_id> [--endpoint <ep>] <args...>`, or for a group
/// `mat group <command> --group <g> [--endpoint <ep>] <args...>`.
pub open spec fn spec_invoke(d: Device, command: Seq<char>, args: Seq<Seq<char>>) -> Option<InvocationView> {
    match spec_address(d) {
        Some((true, node, ep)) => Some(("mat"@, seq![command, "--node"@, node] + endpoint_flags(ep) + args)),
        Some((false, group, ep)) => Some(
            ("mat"@, seq!["group"@, command, "--group"@, group] + endpoint_flags(ep) + args),
        ),
        None => None,
    }
}

fn address(device: &Device) -> (r: Option<MatterAddr<'_>>)
    ensures
        match r {
            Some(MatterAddr::Node { node_id, endpoint }) => spec_address(*device) == Some((true, node_id@, endpoint)),
            Some(MatterAddr::Group { group, endpoint }) => spec_address(*device) == Some((false, group@, endpoint)),
            None => spec_address(*device) is None,
        },
{
    match device {
        Device::Matter { node_id: Some(node_id), endpoint, .. } => Some(
            MatterAddr::Node { node_id: node_id.as_str(), endpoint: *endpoint },
        ),
        Device::Matter { group: Some(group), endpoint, .. } => Some(
            MatterAddr::Group { group: group.as_str(), endpoint: *endpoint },
        ),
        _ => None,
    }
}

/// Appends `--endpoint <ep>` when the config names an endpoint.
fn push_endpoint(args: &mut Vec<String>, endpoint: Option<u32>)
    ensures
        views(final(args)@) == views(old(args)@) + endpoint_flags(endpoint),
{
    if let Some(ep) = endpoint {
        push_str(args, "--endpoint");
        let s = u64_to_string(ep as u64);
        push_str(args, s.as_str());
    }
    assert(views(args@) =~= views(old(args)@) + endpoint_flags(endpoint));
}

/// Maps a selector onto mat's flags.
fn selector_flags(selector: &str) -> (r: Option<Vec<String>>)
    ensures
        match r {
            Some(v) => spec_selector_flags(selector@) == Some(views(v@)),
            None => spec_selector_flags(selector@) is None,
        },
{
    let parts = split_char(selector, '/');
    assert(views(parts@) =~= split_on(selector@, '/'));
    let mut flags: Vec<String> = Vec::new();
    if parts.len() == 3 {
        push_str(&mut flags, "--endpoint");
        push_str(&mut flags, parts[0].as_str());
        push_str(&mut flags, "--cluster");
        push_str(&mut flags, parts[1].as_str());
        push_str(&mut flags, "--attribute");
        push_str(&mut flags, parts[2].as_str());
    } else if parts.len() == 2 {
        push_str(&mut flags, "--cluster");
        push_str(&mut flags, parts[0].as_str());
        push_str(&mut flags, "--attribute");
        push_str(&mut flags, parts[1].as_str());
    } else {
        return None;
    }
    assert(spec_selector_flags(selector@) == Some(views(flags@)));
    Some(flags)
}

impl Adapter for MatterAdapter {
    fn get(&self, device: &Device, property: &str) -> (r: Option<Invocation>)
        ensures
            crate::adapter::opt_view(r) == spec_get(*device, property@),
    {
        let MatterAddr::Node { node_id, .. } = address(device)? else {
            return None;
        };
        let flags = selector_flags(property)?;
        let mut args = strings(&["read", "--node", node_id]);
        extend_strings(&mut args, flags.as_slice());
        assert(views(args@) =~= seq!["read"@, "--node"@, node_id@] + views(flags@));
        Some(Invocation { bin: "mat", args })
    }

    fn set(&self, device: &Device, property: &str, value: &str) -> (r: Option<Invocation>)
        ensures
            crate::adapter::opt_view(r) == spec_set(*device, property@, value@),
    {
        let MatterAddr::Node { node_id, .. } = address(device)? else {
            return None;
        };
        let flags = selector_flags(property)?;
        let mut args = strings(&["write", "--node", node_id]);
        extend_strings(&mut args, flags.as_slice());
        push_str(&mut args, "--value");
        push_str(&mut args, value);
        assert(views(args@) =~= seq!["write"@, "--node"@, node_id@] + views(flags@) + seq!["--value"@, value@]);
        Some(Invocation { bin: "mat", args })
    }

    fn describe(&self, device: &Device) -> (r: Option<Invocation>)
        ensures
            crate::adapter::opt_view(r) == spec_describe(*device),
    {
        let MatterAddr::Node { node_id, .. } = address(device)? else {
            return None;
        };
        let args = strings(&["describe", "--node", node_id]);
        assert(views(args@) =~= seq!["describe"@, "--node"@, node_id@]);
        Some(Invocation { bin: "mat", args })
    }

    fn power(&self, device: &Device, on: bool) -> (r: Option<Invocation>)
        ensures
            crate::adapter::opt_view(r) == spec_power(*device, on),
    {
        let cmd = if on { "on" } else { "off" };
        match address(device)? {
            MatterAddr::Node { node_id, endpoint } => {
                let mut args = strings(&[cmd, "--node", node_id]);
                push_endpoint(&mut args, endpoint);
                assert(views(args@) =~= seq![cmd@, "--node"@, node_id@] + endpoint_flags(endpoint));
                Some(Invocation { bin: "mat", args })
            },
            MatterAddr::Group { group, endpoint } => {
                let mut args = strings(
                    &["group", "invoke", "--group", group, "--cluster", "onoff", "--command", cmd],
                );
                push_endpoint(&mut args, endpoint);
                assert(views(args@) =~= seq![
                    "group"@,
                    "invoke"@,
                    "--group"@,
                    group@,
                    "--cluster"@,
                    "onoff"@,
                    "--command"@,
                    cmd@,
                ] + endpoint_flags(endpoint));
                Some(Invocation { bin: "mat", args })
            },
        }
    }

    fn invoke(&self, device: &Device, command: &str, args: &[String]) -> (r: Option<Invocation>)
        ensures
            crate::adapter::opt_view(r) == spec_invoke(*device, command@, views(args@)),
    {
        match address(device)? {
            MatterAddr::Node { node_id, endpoint } => {
                let mut all = strings(&[command, "--node", node_id]);
                push_endpoint(&mut all, endpoint);
                extend_strings(&mut all, args);
                assert(views(all@) =~= seq![command@, "--node"@, node_id@] + endpoint_flags(endpoint)
                    + views(args@));
                Some(Invocation { bin: "mat", args: all })
            },
            MatterAddr::Group { group, endpoint } => {
                let mut all = strings(&["group", command, "--group", group]);
                push_endpoint(&mut all, endpoint);
                extend_strings(&mut all, args);
                assert(views(all@) =~= seq!["group"@, command@, "--group"@, group@] + endpoint_flags(
                    endpoint,
                ) + views(args@));
                Some(Invocation { bin: "mat", args: all })
            },
        }
    }
}

} // verus!
