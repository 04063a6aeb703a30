//! Matter adapter of the single-binary CLI: calls `mat` with positional
//! arguments. The `get` / `set` property is `<cluster>/<attribute>` in chip-tool
//! names (e.g. `onoff/on-off`), split at the first `/`; on/off use mat's
//! `on` / `off` shortcuts with the configured endpoint.

use vstd::prelude::*;

use crate::adapter::{strings, views, Invocation, InvocationView};
use crate::error::{CasaError, ErrorKind};
use crate::standalone::adapter::{result_is, Adapter};
use crate::standalone::config::{spec_protocol, Device};
use crate::text::{chars_of, decimal, first_index, lemma_first_index, lemma_first_index_at, u64_to_string};

verus! {

pub struct MatterAdapter;

/// The (node_id, endpoint) of a Matter device.
pub open spec fn spec_address(d: Device) -> Option<(u64, u16)> {
    match d {
        Device::Matter { node_id, endpoint } => Some((node_id, endpoint)),
        _ => None,
    }
}

/// The error of a non-Matter device reaching the Matter adapter.
pub open spec fn wrong_device(d: Device) -> Result<InvocationView, (ErrorKind, Seq<char>)> {
    Err((ErrorKind::ProtocolUnsupported, "matter adapter received a \""@ + spec_protocol(d) + "\" device (dispatch bug)"@))
}

/// The detail of a malformed Matter property.
pub open spec fn property_detail(p: Seq<char>) -> Seq<char> {
    "matter property must be \"<cluster>/<attribute>\" in chip-tool form (e.g. \"onoff/on-off\"), got \""@ + p + "\""@
}

/// `<cluster>/<attribute>`, split at the first `/`; both parts must be non-empty
/// (`invalid_argument`, exit 2, otherwise).
pub open spec fn spec_split_property(p: Seq<char>) -> Result<(Seq<char>, Seq<char>), (ErrorKind, Seq<char>)> {
    let k = first_index(p, '/');
    if 0 < k && k + 1 < p.len() {
        Ok((p.take(k), p.skip(k + 1)))
    } else {
        Err((ErrorKind::InvalidArgument, property_detail(p)))
    }
}

/// `mat read <node_id> <endpoint> <cluster> <attribute>`.
pub open spec fn spec_get(d: Device, property: Seq<char>) -> Result<InvocationView, (ErrorKind, Seq<char>)> {
    match spec_address(d) {
        None => wrong_device(d),
        Some((node, ep)) => match spec_split_property(property) {
            Ok((cluster, attribute)) => Ok(
                ("mat"@, seq!["read"@, decimal(node as nat), decimal(ep as nat), cluster, attribute]),
            ),
            Err(e) => Err(e),
        },
    }
}

/// `mat write <node_id> <endpoint> <cluster> <attribute> <value>`.
pub open spec fn spec_set(d: Device, property: Seq<char>, value: Seq<char>) -> Result<InvocationView, (ErrorKind, Seq<char>)> {
    match spec_address(d) {
        None => wrong_device(d),
        Some((node, ep)) => match spec_split_property(property) {
            Ok((cluster, attribute)) => Ok(
                ("mat"@, seq!["write"@, decimal(node as nat), decimal(ep as nat), cluster, attribute, value]),
            ),
            Err(e) => Err(e),
        },
    }
}

/// `mat describe <node_id>`.
pub open spec fn spec_describe(d: Device) -> Result<InvocationView, (ErrorKind, Seq<char>)> {
    match spec_address(d) {
        None => wrong_device(d),
        Some((node, _)) => Ok(("mat"@, seq!["describe"@, decimal(node as nat)])),
    }
}

/// `mat on|off <node_id> --endpoint <endpoint>`.
pub open spec fn spec_power(d: Device, on: bool) -> Result<InvocationView, (ErrorKind, Seq<char>)> {
    match spec_address(d) {
        None => wrong_device(d),
        Some((node, ep)) => Ok(
            ("mat"@, seq![if on { "on"@ } else { "off"@ }, decimal(node as nat), "--endpoint"@, decimal(ep as nat)]),
        ),
    }
}

fn address(device: &Device) -> (r: Result<(u64, u16), CasaError>)
    ensures
        match r {
            Ok(a) => spec_address(*device) == Some(a),
            Err(e) => spec_address(*device) is None && Err::<InvocationView, (ErrorKind, Seq<char>)>((e.kind, e.detail@))
                == wrong_device(*device) && e.response is None,
        },
{
    match device {
        Device::Matter { node_id, endpoint } => Ok((*node_id, *endpoint)),
        other => {
            let mut d = String::from_str("matter adapter received a \"");
            d.append(other.protocol());
            d.append("\" device (dispatch bug)");
            Err(CasaError::new(ErrorKind::ProtocolUnsupported, d))
        },
    }
}

/// Splits a Matter property into cluster and attribute.
pub fn split_property(property: &str) -> (r: Result<(&str, &str), CasaError>)
    ensures
        match r {
            Ok((c, a)) => spec_split_property(property@) == Ok::<(Seq<char>, Seq<char>), (ErrorKind, Seq<char>)>((c@, a@)),
            Err(e) => spec_split_property(property@) == Err::<(Seq<char>, Seq<char>), (ErrorKind, Seq<char>)>((e.kind, e.detail@))
                && e.response is None,
        },
{
    let cs = chars_of(property);
    let mut i: usize = 0;
    while i < cs.len()
        invariant
            cs@ == property@,
            i <= cs.len(),
            forall|j: int| 0 <= j < i ==> cs@[j] != '/',
        decreases cs.len() - i,
    {
        if cs[i] == '/' {
            proof {
                lemma_first_index_at(property@, '/', i as int);
            }
            if i > 0 && i + 1 < cs.len() {
                let cluster = property.substring_char(0, i);
                let attribute = property.substring_char(i + 1, cs.len());
                assert(cluster@ =~= property@.take(i as int));
                assert(attribute@ =~= property@.skip(i + 1));
                return Ok((cluster, attribute));
            }
            return Err(property_error(property));
        }
        i = i + 1;
    }
    proof {
        lemma_first_index(property@, '/');
    }
    Err(property_error(property))
}

fn property_error(property: &str) -> (r: CasaError)
    ensures
        r.kind == ErrorKind::InvalidArgument,
        r.detail@ == property_detail(property@),
        r.response is None,
{
    let mut d = String::from_str(
        "matter property must be \"<cluster>/<attribute>\" in chip-tool form (e.g. \"onoff/on-off\"), got \"",
    );
    d.append(property);
    d.append("\"");
    CasaError::new(ErrorKind::InvalidArgument, d)
}

impl Adapter for MatterAdapter {
    open spec fn protocol_name(&self) -> Seq<char> {
        "matter"@
    }

    fn protocol(&self) -> (r: &'static str) {
        "matter"
    }

    fn get(&self, device: &Device, property: &str) -> (r: Result<Invocation, CasaError>)
        ensures
            result_is(r, spec_get(*device, property@)),
    {
        let (node_id, endpoint) = address(device)?;
        let (cluster, attribute) = split_property(property)?;
        let node = u64_to_string(node_id);
        let ep = u64_to_string(endpoint as u64);
        let args = strings(&["read", node.as_str(), ep.as_str(), cluster, attribute]);
        assert(views(args@) =~= seq!["read"@, node@, ep@, cluster@, attribute@]);
        Ok(Invocation { bin: "mat", args })
    }

    fn set(&self, device: &Device, property: &str, value: &str) -> (r: Result<Invocation, CasaError>)
        ensures
            result_is(r, spec_set(*device, property@, value@)),
    {
        let (node_id, endpoint) = address(device)?;
        let (cluster, attribute) = split_property(property)?;
        let node = u64_to_string(node_id);
        let ep = u64_to_string(endpoint as u64);
        let args = strings(&["write", node.as_str(), ep.as_str(), cluster, attribute, value]);
        assert(views(args@) =~= seq!["write"@, node@, ep@, cluster@, attribute@, value@]);
        Ok(Invocation { bin: "mat", args })
    }

    fn describe(&self, device: &Device) -> (r: Result<Invocation, CasaError>)
        ensures
            result_is(r, spec_describe(*device)),
    {
        let (node_id, _) = address(device)?;
        let node = u64_to_string(node_id);
        let args = strings(&["describe", node.as_str()]);
        assert(views(args@) =~= seq!["describe"@, node@]);
        Ok(Invocation { bin: "mat", args })
    }

    fn power(&self, device: &Device, on: bool) -> (r: Result<Invocation, CasaError>)
        ensures
            result_is(r, spec_power(*device, on)),
    {
        let (node_id, endpoint) = address(device)?;
        let command = if on { "on" } else { "off" };
        let node = u64_to_string(node_id);
        let ep = u64_to_string(endpoint as u64);
        let args = strings(&[command, node.as_str(), "--endpoint", ep.as_str()]);
        assert(views(args@) =~= seq![command@, node@, "--endpoint"@, ep@]);
        Ok(Invocation { bin: "mat", args })
    }
}

} // verus!
