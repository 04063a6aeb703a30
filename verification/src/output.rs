//! casa's responses: the results of group executions, and the JSON values
//! that casa prints. Object members are in key order, as serde_json prints
//! them; the program adds nothing but the rendering.

use vstd::prelude::*;

use crate::config::{Device, Group};
use crate::error::{spec_exit_code, spec_kind_name, CasaError, ErrorKind};
use crate::json::{JsonNumber, JsonValue};
use crate::ops::{NoAdapterWarning, Operation, ValidationSummary};

verus! {

/// Why one member of a group execution failed.
#[derive(Debug)]
pub struct MemberFailure {
    pub kind: ErrorKind,
    pub detail: String,
}

/// The result of one member of a group execution.
#[derive(Debug)]
pub struct MemberResult {
    pub device: String,
    pub protocol: &'static str,
    pub outcome: Result<JsonValue, MemberFailure>,
}

/// The response to a group execution: one result per member, in the order in
/// which the group lists its members.
#[derive(Debug)]
pub struct GroupResponse {
    pub group: String,
    pub command: Option<String>,
    pub results: Vec<MemberResult>,
}


/// The time a response is put together: chrono's `Local::now()` in RFC 3339
/// with whole seconds and a numeric offset (`to_rfc3339_opts(Secs, false)`).
/// Nothing is stated of the result: it is the clock's reading.
#[verifier::external_body]
pub fn timestamp() -> (r: String) {
    chrono::Local::now().to_rfc3339_opts(chrono::SecondsFormat::Secs, false)
}

/// Whether a JSON value is the string `s`.
pub open spec fn str_is(v: JsonValue, s: Seq<char>) -> bool {
    v matches JsonValue::String(x) && x@ == s
}

/// Whether a JSON value is an object with exactly the keys `ks`, in order.
pub open spec fn has_keys(v: JsonValue, ks: Seq<Seq<char>>) -> bool {
    v matches JsonValue::Object(m) && m@.len() == ks.len() && forall|i: int| 0 <= i < ks.len() ==> (#[trigger] m@[i]).0@ == ks[i]
}

/// The value of the `i`-th member of an object.
pub open spec fn field(v: JsonValue, i: int) -> JsonValue {
    match v {
        JsonValue::Object(m) => m@[i].1,
        _ => JsonValue::Null,
    }
}

/// The JSON number of an integer, as serde_json makes it: non-negative ones
/// are unsigned.
pub open spec fn int_number(n: int) -> JsonNumber {
    if n >= 0 {
        JsonNumber::PosInt(n as u64)
    } else {
        JsonNumber::NegInt(n as i64)
    }
}

/// Whether a JSON value is the given optional string, `null` for none.
pub open spec fn opt_str_is(v: JsonValue, o: Option<String>) -> bool {
    match o {
        Some(s) => str_is(v, s@),
        None => v == JsonValue::Null,
    }
}

/// Whether a JSON value is an array of the given strings.
pub open spec fn strs_are(v: JsonValue, ss: Seq<String>) -> bool {
    v matches JsonValue::Array(a) && a@.len() == ss.len() && forall|i: int| 0 <= i < ss.len() ==> str_is(#[trigger] a@[i], ss[i]@)
}

fn text(s: &str) -> (r: JsonValue)
    ensures
        str_is(r, s@),
{
    JsonValue::String(s.to_owned())
}

fn member(key: &str, value: JsonValue) -> (r: (String, JsonValue))
    ensures
        r.0@ == key@,
        r.1 == value,
{
    (key.to_owned(), value)
}

fn opt_text(o: &Option<String>) -> (r: JsonValue)
    ensures
        opt_str_is(r, *o),
{
    match o {
        Some(s) => text(s.as_str()),
        None => JsonValue::Null,
    }
}

fn count_json(n: usize) -> (r: JsonValue)
    ensures
        r == JsonValue::Number(JsonNumber::PosInt(n as u64)),
{
    JsonValue::Number(JsonNumber::PosInt(n as u64))
}

fn exit_code_json(code: i32) -> (r: JsonValue)
    ensures
        r == JsonValue::Number(int_number(code as int)),
{
    if code >= 0 {
        JsonValue::Number(JsonNumber::PosInt(code as u64))
    } else {
        JsonValue::Number(JsonNumber::NegInt(code as i64))
    }
}

fn strings_json(ss: &Vec<String>) -> (r: JsonValue)
    ensures
        strs_are(r, ss@),
{
    let mut out: Vec<JsonValue> = Vec::new();
    let mut i: usize = 0;
    while i < ss.len()
        invariant
            i <= ss.len(),
            out@.len() == i,
            forall|j: int| 0 <= j < i ==> str_is(#[trigger] out@[j], ss@[j]@),
        decreases ss.len() - i,
    {
        out.push(text(ss[i].as_str()));
        i = i + 1;
    }
    JsonValue::Array(out)
}

/// The `list` entry of a device: its config fields, its protocol and its name,
/// in key order. An unset optional field is `null`.
pub fn device_entry(name: &str, device: &Device) -> (r: JsonValue)
    ensures
        match *device {
            Device::Echonet { ip, eoj } => has_keys(r, seq!["eoj"@, "ip"@, "name"@, "protocol"@])
                && str_is(field(r, 0), eoj@) && str_is(field(r, 1), ip@) && str_is(field(r, 2), name@)
                && str_is(field(r, 3), "echonet"@),
            Device::Switchbot { device_id } => has_keys(r, seq!["device_id"@, "name"@, "protocol"@])
                && str_is(field(r, 0), device_id@) && str_is(field(r, 1), name@) && str_is(field(r, 2), "switchbot"@),
            Device::Matter { node_id, group, endpoint } => has_keys(r, seq!["endpoint"@, "group"@, "name"@, "node_id"@, "protocol"@])
                && field(r, 0) == (match endpoint {
                    Some(e) => JsonValue::Number(JsonNumber::PosInt(e as u64)),
                    None => JsonValue::Null,
                }) && opt_str_is(field(r, 1), group) && str_is(field(r, 2), name@) && opt_str_is(field(r, 3), node_id)
                && str_is(field(r, 4), "matter"@),
            Device::Androidtv { host } => has_keys(r, seq!["host"@, "name"@, "protocol"@])
                && str_is(field(r, 0), host@) && str_is(field(r, 1), name@) && str_is(field(r, 2), "androidtv"@),
        },
{
    let mut m: Vec<(String, JsonValue)> = Vec::new();
    match device {
        Device::Echonet { ip, eoj } => {
            m.push(member("eoj", text(eoj.as_str())));
            m.push(member("ip", text(ip.as_str())));
            m.push(member("name", text(name)));
            m.push(member("protocol", text("echonet")));
        },
        Device::Switchbot { device_id } => {
            m.push(member("device_id", text(device_id.as_str())));
            m.push(member("name", text(name)));
            m.push(member("protocol", text("switchbot")));
        },
        Device::Matter { node_id, group, endpoint } => {
            let ep = match endpoint {
                Some(e) => JsonValue::Number(JsonNumber::PosInt(*e as u64)),
                None => JsonValue::Null,
            };
            m.push(member("endpoint", ep));
            m.push(member("group", opt_text(group)));
            m.push(member("name", text(name)));
            m.push(member("node_id", opt_text(node_id)));
            m.push(member("protocol", text("matter")));
        },
        Device::Androidtv { host } => {
            m.push(member("host", text(host.as_str())));
            m.push(member("name", text(name)));
            m.push(member("protocol", text("androidtv")));
        },
    }
    JsonValue::Object(m)
}

/// The `list` entry of a group: its members and its name.
pub fn group_entry(name: &str, group: &Group) -> (r: JsonValue)
    ensures
        has_keys(r, seq!["members"@, "name"@]),
        strs_are(field(r, 0), group.members@),
        str_is(field(r, 1), name@),
{
    let mut m: Vec<(String, JsonValue)> = Vec::new();
    m.push(member("members", strings_json(&group.members)));
    m.push(member("name", text(name)));
    JsonValue::Object(m)
}

/// The response of `list`.
pub fn list_response(timestamp: &str, devices: Vec<JsonValue>, groups: Vec<JsonValue>) -> (r: JsonValue)
    ensures
        has_keys(r, seq!["devices"@, "groups"@, "timestamp"@]),
        field(r, 0) == JsonValue::Array(devices),
        field(r, 1) == JsonValue::Array(groups),
        str_is(field(r, 2), timestamp@),
{
    let mut m: Vec<(String, JsonValue)> = Vec::new();
    m.push(member("devices", JsonValue::Array(devices)));
    m.push(member("groups", JsonValue::Array(groups)));
    m.push(member("timestamp", text(timestamp)));
    JsonValue::Object(m)
}

/// Whether a JSON value is the response of an operation on one device: the
/// device, its protocol, the time and the child CLI's value.
pub open spec fn is_device_response(r: JsonValue, timestamp: Seq<char>, name: Seq<char>, device: Device, value: JsonValue) -> bool {
    &&& has_keys(r, seq!["device"@, "protocol"@, "timestamp"@, "value"@])
    &&& str_is(field(r, 0), name)
    &&& str_is(field(r, 1), crate::config::spec_protocol(device))
    &&& str_is(field(r, 2), timestamp)
    &&& field(r, 3) == value
}

/// Whether a JSON value is the response of `invoke` on one device: the device
/// envelope with the command.
pub open spec fn is_invoke_response(r: JsonValue, timestamp: Seq<char>, name: Seq<char>, device: Device, command: Seq<char>, value: JsonValue) -> bool {
    &&& has_keys(r, seq!["command"@, "device"@, "protocol"@, "timestamp"@, "value"@])
    &&& str_is(field(r, 0), command)
    &&& str_is(field(r, 1), name)
    &&& str_is(field(r, 2), crate::config::spec_protocol(device))
    &&& str_is(field(r, 3), timestamp)
    &&& field(r, 4) == value
}

/// Whether a JSON value is the response of `describe`: the device, its property
/// map, its protocol and the time.
pub open spec fn is_describe_response(r: JsonValue, timestamp: Seq<char>, name: Seq<char>, device: Device, properties: JsonValue) -> bool {
    &&& has_keys(r, seq!["device"@, "properties"@, "protocol"@, "timestamp"@])
    &&& str_is(field(r, 0), name)
    &&& field(r, 1) == properties
    &&& str_is(field(r, 2), crate::config::spec_protocol(device))
    &&& str_is(field(r, 3), timestamp)
}

/// The response of an operation on one device (`get`, `set`, `on`, `off`):
/// the child CLI's value under casa's envelope.
pub fn device_response(timestamp: &str, name: &str, device: &Device, value: JsonValue) -> (r: JsonValue)
    ensures
        is_device_response(r, timestamp@, name@, *device, value),
{
    let mut m: Vec<(String, JsonValue)> = Vec::new();
    m.push(member("device", text(name)));
    m.push(member("protocol", text(device.protocol())));
    m.push(member("timestamp", text(timestamp)));
    m.push(member("value", value));
    JsonValue::Object(m)
}

/// The response of `invoke` on one device: the device envelope with the
/// command.
pub fn invoke_response(timestamp: &str, name: &str, device: &Device, command: &str, value: JsonValue) -> (r: JsonValue)
    ensures
        is_invoke_response(r, timestamp@, name@, *device, command@, value),
{
    let mut m: Vec<(String, JsonValue)> = Vec::new();
    m.push(member("command", text(command)));
    m.push(member("device", text(name)));
    m.push(member("protocol", text(device.protocol())));
    m.push(member("timestamp", text(timestamp)));
    m.push(member("value", value));
    JsonValue::Object(m)
}

/// The response of `describe`.
pub fn describe_response(timestamp: &str, name: &str, device: &Device, properties: JsonValue) -> (r: JsonValue)
    ensures
        is_describe_response(r, timestamp@, name@, *device, properties),
{
    let mut m: Vec<(String, JsonValue)> = Vec::new();
    m.push(member("device", text(name)));
    m.push(member("properties", properties));
    m.push(member("protocol", text(device.protocol())));
    m.push(member("timestamp", text(timestamp)));
    JsonValue::Object(m)
}

/// The response of an operation on one device, by the operation: `describe`
/// puts the child's value under `properties`, `invoke` adds the command, the
/// rest put it under `value`.
pub fn operation_response(timestamp: &str, op: &Operation, name: &str, device: &Device, value: JsonValue) -> (r: JsonValue)
    ensures
        match *op {
            Operation::Describe => is_describe_response(r, timestamp@, name@, *device, value),
            Operation::Invoke { command, .. } => is_invoke_response(r, timestamp@, name@, *device, command@, value),
            _ => is_device_response(r, timestamp@, name@, *device, value),
        },
{
    match op {
        Operation::Describe => describe_response(timestamp, name, device, value),
        Operation::Invoke { command, .. } => invoke_response(timestamp, name, device, command.as_str(), value),
        _ => device_response(timestamp, name, device, value),
    }
}

/// Whether a JSON value reports one member's result: its device and protocol,
/// `ok`, and the value, or the error's kind, exit code and detail.
pub open spec fn member_json(v: JsonValue, r: MemberResult) -> bool {
    match r.outcome {
        Ok(value) => {
            &&& has_keys(v, seq!["device"@, "ok"@, "protocol"@, "value"@])
            &&& str_is(field(v, 0), r.device@)
            &&& field(v, 1) == JsonValue::Bool(true)
            &&& str_is(field(v, 2), r.protocol@)
            &&& field(v, 3) == value
        },
        Err(f) => {
            &&& has_keys(v, seq!["device"@, "error"@, "ok"@, "protocol"@])
            &&& str_is(field(v, 0), r.device@)
            &&& has_keys(field(v, 1), seq!["detail"@, "exit_code"@, "kind"@])
            &&& str_is(field(field(v, 1), 0), f.detail@)
            &&& field(field(v, 1), 1) == JsonValue::Number(int_number(spec_exit_code(f.kind) as int))
            &&& str_is(field(field(v, 1), 2), spec_kind_name(f.kind))
            &&& field(v, 2) == JsonValue::Bool(false)
            &&& str_is(field(v, 3), r.protocol@)
        },
    }
}

/// The JSON of one member's result in a group response.
pub fn group_member_result(r: MemberResult) -> (v: JsonValue)
    ensures
        member_json(v, r),
{
    let MemberResult { device, protocol, outcome } = r;
    let mut m: Vec<(String, JsonValue)> = Vec::new();
    match outcome {
        Ok(value) => {
            m.push(member("device", text(device.as_str())));
            m.push(member("ok", JsonValue::Bool(true)));
            m.push(member("protocol", text(protocol)));
            m.push(member("value", value));
        },
        Err(f) => {
            let mut e: Vec<(String, JsonValue)> = Vec::new();
            e.push(member("detail", text(f.detail.as_str())));
            e.push(member("exit_code", exit_code_json(f.kind.exit_code())));
            e.push(member("kind", text(f.kind.as_str())));
            m.push(member("device", text(device.as_str())));
            m.push(member("error", JsonValue::Object(e)));
            m.push(member("ok", JsonValue::Bool(false)));
            m.push(member("protocol", text(protocol)));
        },
    }
    JsonValue::Object(m)
}

/// The response of a group execution: the command (for `invoke`), the group,
/// one result per member in the group's order, and the time.
pub fn group_response(timestamp: &str, resp: GroupResponse) -> (r: JsonValue)
    ensures
        ({
            let n = resp.results@.len();
            let results_ok = |v: JsonValue| v matches JsonValue::Array(a) && a@.len() == n
                && forall|i: int| 0 <= i < n ==> member_json(#[trigger] a@[i], resp.results@[i]);
            match resp.command {
                Some(c) => has_keys(r, seq!["command"@, "group"@, "results"@, "timestamp"@]) && str_is(field(r, 0), c@)
                    && str_is(field(r, 1), resp.group@) && results_ok(field(r, 2)) && str_is(field(r, 3), timestamp@),
                None => has_keys(r, seq!["group"@, "results"@, "timestamp"@]) && str_is(field(r, 0), resp.group@)
                    && results_ok(field(r, 1)) && str_is(field(r, 2), timestamp@),
            }
        }),
{
    let ghost rs = resp.results@;
    let GroupResponse { group, command, results } = resp;
    let n = results.len();
    let mut results = results;
    let mut items: Vec<JsonValue> = Vec::new();
    let mut i: usize = 0;
    while i < n
        invariant
            n == rs.len(),
            i <= n,
            results@ == rs.skip(i as int),
            items@.len() == i,
            forall|j: int| 0 <= j < i ==> member_json(#[trigger] items@[j], rs[j]),
        decreases n - i,
    {
        let r = results.remove(0);
        assert(r == rs[i as int]);
        items.push(group_member_result(r));
        assert(results@ =~= rs.skip(i + 1));
        i = i + 1;
    }
    let mut m: Vec<(String, JsonValue)> = Vec::new();
    match command {
        Some(c) => {
            m.push(member("command", text(c.as_str())));
        },
        None => {},
    }
    m.push(member("group", text(group.as_str())));
    m.push(member("results", JsonValue::Array(items)));
    m.push(member("timestamp", text(timestamp)));
    JsonValue::Object(m)
}

/// Whether a JSON value reports a device without an adapter.
pub open spec fn warning_json(v: JsonValue, w: NoAdapterWarning) -> bool {
    &&& has_keys(v, seq!["detail"@, "device"@, "kind"@, "protocol"@])
    &&& str_is(field(v, 0), "protocol \""@ + w.protocol@ + "\" has no adapter yet; get/set/on/off will fail at runtime"@)
    &&& str_is(field(v, 1), w.device@)
    &&& str_is(field(v, 2), "no_adapter"@)
    &&& str_is(field(v, 3), w.protocol@)
}

/// The response of `validate`: the config path, the summary, and `valid`
/// (always true: a config that loaded is valid).
pub fn validate_response(timestamp: &str, path: &str, s: &ValidationSummary) -> (r: JsonValue)
    ensures
        has_keys(r, seq!["config"@, "device_count"@, "group_count"@, "protocols"@, "timestamp"@, "valid"@, "version"@, "warnings"@]),
        str_is(field(r, 0), path@),
        field(r, 1) == JsonValue::Number(JsonNumber::PosInt(s.device_count as u64)),
        field(r, 2) == JsonValue::Number(JsonNumber::PosInt(s.group_count as u64)),
        field(r, 3) matches JsonValue::Object(p) && p@.len() == s.protocols@.len()
            && forall|i: int| 0 <= i < p@.len() ==> (#[trigger] p@[i]).0@ == s.protocols@[i].0@
                && p@[i].1 == JsonValue::Number(JsonNumber::PosInt(s.protocols@[i].1 as u64)),
        str_is(field(r, 4), timestamp@),
        field(r, 5) == JsonValue::Bool(true),
        field(r, 6) == JsonValue::Number(JsonNumber::PosInt(s.version as u64)),
        field(r, 7) matches JsonValue::Array(a) && a@.len() == s.warnings@.len()
            && forall|i: int| 0 <= i < a@.len() ==> warning_json(#[trigger] a@[i], s.warnings@[i]),
{
    let mut protocols: Vec<(String, JsonValue)> = Vec::new();
    let mut i: usize = 0;
    while i < s.protocols.len()
        invariant
            i <= s.protocols.len(),
            protocols@.len() == i,
            forall|j: int| 0 <= j < i ==> (#[trigger] protocols@[j]).0@ == s.protocols@[j].0@
                && protocols@[j].1 == JsonValue::Number(JsonNumber::PosInt(s.protocols@[j].1 as u64)),
        decreases s.protocols.len() - i,
    {
        let (name, count) = s.protocols[i];
        protocols.push(member(name, JsonValue::Number(JsonNumber::PosInt(count as u64))));
        i = i + 1;
    }
    let mut warnings: Vec<JsonValue> = Vec::new();
    let mut k: usize = 0;
    while k < s.warnings.len()
        invariant
            k <= s.warnings.len(),
            warnings@.len() == k,
            forall|j: int| 0 <= j < k ==> warning_json(#[trigger] warnings@[j], s.warnings@[j]),
        decreases s.warnings.len() - k,
    {
        let w = &s.warnings[k];
        let mut d = String::from_str("protocol \"");
        d.append(w.protocol);
        d.append("\" has no adapter yet; get/set/on/off will fail at runtime");
        let mut e: Vec<(String, JsonValue)> = Vec::new();
        e.push(member("detail", JsonValue::String(d)));
        e.push(member("device", text(w.device.as_str())));
        e.push(member("kind", text("no_adapter")));
        e.push(member("protocol", text(w.protocol)));
        warnings.push(JsonValue::Object(e));
        k = k + 1;
    }
    let mut m: Vec<(String, JsonValue)> = Vec::new();
    m.push(member("config", text(path)));
    m.push(member("device_count", count_json(s.device_count)));
    m.push(member("group_count", count_json(s.group_count)));
    m.push(member("protocols", JsonValue::Object(protocols)));
    m.push(member("timestamp", text(timestamp)));
    m.push(member("valid", JsonValue::Bool(true)));
    m.push(member("version", JsonValue::Number(JsonNumber::PosInt(s.version as u64))));
    m.push(member("warnings", JsonValue::Array(warnings)));
    JsonValue::Object(m)
}

/// The one-line error that casa prints on stderr:
/// `{"error": {"detail": ..., "kind": ...}}`.
pub fn error_json(err: &CasaError) -> (r: JsonValue)
    ensures
        has_keys(r, seq!["error"@]),
        has_keys(field(r, 0), seq!["detail"@, "kind"@]),
        str_is(field(field(r, 0), 0), err.detail@),
        str_is(field(field(r, 0), 1), spec_kind_name(err.kind)),
{
    let mut e: Vec<(String, JsonValue)> = Vec::new();
    e.push(member("detail", text(err.detail.as_str())));
    e.push(member("kind", text(err.kind.as_str())));
    let mut m: Vec<(String, JsonValue)> = Vec::new();
    m.push(member("error", JsonValue::Object(e)));
    JsonValue::Object(m)
}

} // verus!
