//! The subcommands' decisions: name resolution, what each operation asks of the
//! protocol adapter, which errors come before any child is spawned, and how
//! the per-member outcomes of a group execution become one response.
//!
//! Nothing here is protocol specific; spawning the children is the caller's
//! part, between `prepare_group` and `finish_group`.

use vstd::prelude::*;

use crate::adapter::{self, adapter_for, opt_view, spec_adapter_for, views, Adapter, Invocation, InvocationView, ProtocolAdapter};
use crate::config::{device_not_found_detail, first_foreign_member, spec_protocol, Config, Device, Group};
use crate::error::{CasaError, ErrorKind};
use crate::json::JsonValue;
use crate::lookup::{find_key, has_key, key_index, lemma_key_index, lookup};
use crate::output::{GroupResponse, MemberFailure, MemberResult};
use crate::text::{decimal, join, join_strs, lex_lt, u64_to_string};

verus! {

/// An operation on a device.
#[derive(Debug)]
pub enum Operation {
    Get { property: String },
    SetValue { property: String, value: String },
    Power { on: bool },
    Invoke { command: String, args: Vec<String> },
    Describe,
}

/// The name under which an operation is reported: `get`, `set`, `on` / `off`,
/// `describe`, or the invoked command itself.
pub open spec fn op_name(op: Operation) -> Seq<char> {
    match op {
        Operation::Get { .. } => "get"@,
        Operation::SetValue { .. } => "set"@,
        Operation::Power { on } => if on { "on"@ } else { "off"@ },
        Operation::Invoke { command, .. } => command@,
        Operation::Describe => "describe"@,
    }
}

/// What an adapter builds for an operation on a device.
pub open spec fn spec_build(a: ProtocolAdapter, d: Device, op: Operation) -> Option<InvocationView> {
    match op {
        Operation::Get { property } => adapter::spec_get(a, d, property@),
        Operation::SetValue { property, value } => adapter::spec_set(a, d, property@, value@),
        Operation::Power { on } => adapter::spec_power(a, d, on),
        Operation::Invoke { command, args } => adapter::spec_invoke(a, d, command@, views(args@)),
        Operation::Describe => adapter::spec_describe(a, d),
    }
}

fn operation_name(op: &Operation) -> (r: String)
    ensures
        r@ == op_name(*op),
{
    match op {
        Operation::Get { .. } => String::from_str("get"),
        Operation::SetValue { .. } => String::from_str("set"),
        Operation::Power { on } => if *on { String::from_str("on") } else { String::from_str("off") },
        Operation::Invoke { command, .. } => command.clone(),
        Operation::Describe => String::from_str("describe"),
    }
}

fn build(adapter: ProtocolAdapter, device: &Device, op: &Operation) -> (r: Option<Invocation>)
    ensures
        opt_view(r) == spec_build(adapter, *device, *op),
{
    match op {
        Operation::Get { property } => adapter.get(device, property.as_str()),
        Operation::SetValue { property, value } => adapter.set(device, property.as_str(), value.as_str()),
        Operation::Power { on } => adapter.power(device, *on),
        Operation::Invoke { command, args } => adapter.invoke(device, command.as_str(), args.as_slice()),
        Operation::Describe => adapter.describe(device),
    }
}

/// The detail of an operation that a protocol does not support.
pub open spec fn unsupported_detail(d: Device, operation: Seq<char>) -> Seq<char> {
    "operation \""@ + operation + "\" is not yet supported for protocol \""@ + spec_protocol(d) + "\""@
}

/// The error of an operation that the device's protocol does not support
/// (`protocol_unsupported`, exit 14).
pub fn unsupported(device: &Device, operation: &str) -> (r: CasaError)
    ensures
        r.kind == ErrorKind::ProtocolUnsupported,
        r.detail@ == unsupported_detail(*device, operation@),
        r.response is None,
{
    let mut d = String::from_str("operation \"");
    d.append(operation);
    d.append("\" is not yet supported for protocol \"");
    d.append(device.protocol());
    d.append("\"");
    CasaError::new(ErrorKind::ProtocolUnsupported, d)
}

/// The adapter of the device's protocol; a protocol without one would be
/// `protocol_unsupported`.
pub fn require_adapter(device: &Device, operation: &str) -> (r: Result<ProtocolAdapter, CasaError>)
    ensures
        r == Ok::<ProtocolAdapter, CasaError>(spec_adapter_for(*device)),
{
    match adapter_for(device) {
        Some(a) => Ok(a),
        None => Err(unsupported(device, operation)),
    }
}

/// The detail of a read operation asked of a group.
pub open spec fn group_rejected_detail(operation: Seq<char>) -> Seq<char> {
    "groups are not supported for \""@ + operation + "\"; specify a device name"@
}

/// Reads (`get`, `describe`) do not take groups: a group name is rejected with
/// `protocol_unsupported` rather than reported as an unknown name.
pub fn reject_group(config: &Config, name: &str, operation: &str) -> (r: Result<(), CasaError>)
    ensures
        match r {
            Ok(()) => !has_key(config.groups@, name@),
            Err(e) => {
                &&& has_key(config.groups@, name@)
                &&& e.kind == ErrorKind::ProtocolUnsupported
                &&& e.detail@ == group_rejected_detail(operation@)
                &&& e.response is None
            },
        },
{
    if find_key(&config.groups, name).is_some() {
        let mut d = String::from_str("groups are not supported for \"");
        d.append(operation);
        d.append("\"; specify a device name");
        return Err(CasaError::new(ErrorKind::ProtocolUnsupported, d));
    }
    Ok(())
}

/// The device of a member that resolves.
pub open spec fn member_device(c: Config, m: String) -> Device {
    lookup(c.devices@, m@)->0
}

/// Whether some member of the group is a device of protocol `p`.
pub open spec fn has_protocol(c: Config, g: Group, p: Seq<char>) -> bool {
    exists|i: int| 0 <= i < g.members@.len() && spec_protocol(member_device(c, #[trigger] g.members@[i])) == p
}

/// The protocols present in a group, in name order.
pub open spec fn found_protocols(c: Config, g: Group) -> Seq<Seq<char>> {
    (if has_protocol(c, g, "androidtv"@) { seq!["androidtv"@] } else { Seq::empty() })
        + (if has_protocol(c, g, "echonet"@) { seq!["echonet"@] } else { Seq::empty() })
        + (if has_protocol(c, g, "matter"@) { seq!["matter"@] } else { Seq::empty() })
        + (if has_protocol(c, g, "switchbot"@) { seq!["switchbot"@] } else { Seq::empty() })
}

/// The detail of an invoke on a group of mixed protocols.
pub open spec fn mixed_group_detail(c: Config, group_name: Seq<char>, g: Group, command: Seq<char>) -> Seq<char> {
    "invoke \""@ + command + "\" on group \""@ + group_name
        + "\" requires all members to share one protocol (found: "@ + join(found_protocols(c, g), ", "@)
        + ")"@
}

/// `invoke` interprets its command per protocol, so a group of mixed protocols
/// is rejected before anything is spawned (`protocol_unsupported`), lest one
/// command name mean different things to different members.
pub fn ensure_uniform_protocol(config: &Config, group_name: &str, group: &Group, command: &str) -> (r: Result<(), CasaError>)
    ensures
        ({
            let k = first_foreign_member(*config, *group);
            match r {
                Ok(()) => k < 0 && found_protocols(*config, *group).len() <= 1,
                Err(e) => e.response is None && if k >= 0 {
                    &&& e.kind == ErrorKind::NameNotFound
                    &&& e.detail@ == device_not_found_detail(group.members@[k]@)
                } else {
                    &&& found_protocols(*config, *group).len() > 1
                    &&& e.kind == ErrorKind::ProtocolUnsupported
                    &&& e.detail@ == mixed_group_detail(*config, group_name@, *group, command@)
                },
            }
        }),
{
    let ghost c = *config;
    let ghost g = *group;
    let ghost p = crate::config::foreign_pred(c);
    let mut a = false;
    let mut e = false;
    let mut m = false;
    let mut s = false;
    let mut i: usize = 0;
    while i < group.members.len()
        invariant
            c == *config,
            g == *group,
            p == crate::config::foreign_pred(c),
            i <= group.members.len(),
            forall|j: int| 0 <= j < i ==> !p(group.members@[j]),
            a <==> exists|j: int| 0 <= j < i && spec_protocol(member_device(c, #[trigger] g.members@[j])) == "androidtv"@,
            e <==> exists|j: int| 0 <= j < i && spec_protocol(member_device(c, #[trigger] g.members@[j])) == "echonet"@,
            m <==> exists|j: int| 0 <= j < i && spec_protocol(member_device(c, #[trigger] g.members@[j])) == "matter"@,
            s <==> exists|j: int| 0 <= j < i && spec_protocol(member_device(c, #[trigger] g.members@[j])) == "switchbot"@,
        decreases group.members.len() - i,
    {
        let device = match config.device(group.members[i].as_str()) {
            Ok(d) => d,
            Err(err) => {
                proof {
                    crate::lookup::lemma_first_where_at(group.members@, p, i as int);
                }
                return Err(err);
            },
        };
        proof {
            assert(member_device(c, g.members@[i as int]) == *device);
            reveal_strlit("androidtv");
            reveal_strlit("echonet");
            reveal_strlit("matter");
            reveal_strlit("switchbot");
            assert("echonet"@ != "androidtv"@) by { assert("echonet"@.len() != "androidtv"@.len()); }
            assert("matter"@ != "androidtv"@) by { assert("matter"@.len() != "androidtv"@.len()); }
            assert("switchbot"@ != "androidtv"@) by { assert("switchbot"@[0] != "androidtv"@[0]); }
            assert("matter"@ != "echonet"@) by { assert("matter"@.len() != "echonet"@.len()); }
            assert("switchbot"@ != "echonet"@) by { assert("switchbot"@.len() != "echonet"@.len()); }
            assert("switchbot"@ != "matter"@) by { assert("switchbot"@.len() != "matter"@.len()); }
        }
        match device {
            Device::Androidtv { .. } => { a = true; },
            Device::Echonet { .. } => { e = true; },
            Device::Matter { .. } => { m = true; },
            Device::Switchbot { .. } => { s = true; },
        }
        i = i + 1;
    }
    proof {
        crate::lookup::lemma_first_where(group.members@, p);
        assert(a == has_protocol(c, g, "androidtv"@));
        assert(e == has_protocol(c, g, "echonet"@));
        assert(m == has_protocol(c, g, "matter"@));
        assert(s == has_protocol(c, g, "switchbot"@));
    }
    let mut found: Vec<&str> = Vec::new();
    if a { found.push("androidtv"); }
    if e { found.push("echonet"); }
    if m { found.push("matter"); }
    if s { found.push("switchbot"); }
    proof {
        assert(found@.map_values(|x: &str| x@) =~= found_protocols(c, g));
    }
    if found.len() > 1 {
        let mut d = String::from_str("invoke \"");
        d.append(command);
        d.append("\" on group \"");
        d.append(group_name);
        d.append("\" requires all members to share one protocol (found: ");
        let list = join_strs(&found, ", ");
        d.append(list.as_str());
        d.append(")");
        return Err(CasaError::new(ErrorKind::ProtocolUnsupported, d));
    }
    Ok(())
}


/// One member of a group execution, prepared: its name, its protocol, and the
/// invocation to spawn, or the error that stands in for it.
#[derive(Debug)]
pub struct PreparedMember {
    pub name: String,
    pub protocol: &'static str,
    pub prepared: Result<Invocation, CasaError>,
}

/// A group execution, prepared: the members in the group's order, and (for
/// `invoke`) the command that tags the response.
#[derive(Debug)]
pub struct GroupPlan {
    pub group: String,
    pub operation: String,
    pub command: Option<String>,
    pub members: Vec<PreparedMember>,
}

/// What a member's preparation must be: the adapter's invocation, or
/// `protocol_unsupported` when the adapter builds none.
pub open spec fn prepared_as_built(pm: PreparedMember, c: Config, m: String, op: Operation) -> bool {
    let d = member_device(c, m);
    &&& pm.name@ == m@
    &&& pm.protocol@ == spec_protocol(d)
    &&& match spec_build(spec_adapter_for(d), d, op) {
        Some(v) => pm.prepared matches Ok(inv) && inv@ == v,
        None => pm.prepared matches Err(e) && e.kind == ErrorKind::ProtocolUnsupported
            && e.detail@ == unsupported_detail(d, op_name(op)) && e.response is None,
    }
}

/// Prepares a group execution: resolves every member (an unknown member is
/// `name_not_found`) and builds each member's invocation. A member whose
/// protocol does not support the operation is not an error here; its error is
/// reported as that member's result.
pub fn prepare_group(config: &Config, group_name: &str, group: &Group, op: &Operation) -> (r: Result<GroupPlan, CasaError>)
    ensures
        ({
            let k = first_foreign_member(*config, *group);
            match r {
                Ok(plan) => {
                    &&& k < 0
                    &&& plan.group@ == group_name@
                    &&& plan.operation@ == op_name(*op)
                    &&& plan.command is None
                    &&& plan.members@.len() == group.members@.len()
                    &&& forall|i: int| 0 <= i < group.members@.len() ==> prepared_as_built(
                        #[trigger] plan.members@[i],
                        *config,
                        group.members@[i],
                        *op,
                    )
                },
                Err(e) => {
                    &&& k >= 0
                    &&& e.kind == ErrorKind::NameNotFound
                    &&& e.detail@ == device_not_found_detail(group.members@[k]@)
                    &&& e.response is None
                },
            }
        }),
{
    let ghost p = crate::config::foreign_pred(*config);
    let operation = operation_name(op);
    let mut members: Vec<PreparedMember> = Vec::new();
    let mut i: usize = 0;
    while i < group.members.len()
        invariant
            p == crate::config::foreign_pred(*config),
            operation@ == op_name(*op),
            i <= group.members.len(),
            members@.len() == i,
            forall|j: int| 0 <= j < i ==> !p(group.members@[j]),
            forall|j: int| 0 <= j < i ==> prepared_as_built(#[trigger] members@[j], *config, group.members@[j], *op),
        decreases group.members.len() - i,
    {
        let name = &group.members[i];
        let device = match config.device(name.as_str()) {
            Ok(d) => d,
            Err(err) => {
                proof {
                    crate::lookup::lemma_first_where_at(group.members@, p, i as int);
                }
                return Err(err);
            },
        };
        let prepared = match require_adapter(device, operation.as_str()) {
            Ok(adapter) => match build(adapter, device, op) {
                Some(inv) => Ok(inv),
                None => Err(unsupported(device, operation.as_str())),
            },
            Err(err) => Err(err),
        };
        members.push(PreparedMember { name: name.clone(), protocol: device.protocol(), prepared });
        i = i + 1;
    }
    proof {
        crate::lookup::lemma_first_where(group.members@, p);
    }
    Ok(GroupPlan { group: group_name.to_owned(), operation, command: None, members })
}

/// The number of members that have an invocation to spawn.
pub open spec fn ok_count(ms: Seq<PreparedMember>) -> nat
    decreases ms.len(),
{
    if ms.len() == 0 {
        0
    } else {
        ok_count(ms.drop_last()) + if ms.last().prepared is Ok { 1nat } else { 0nat }
    }
}

proof fn lemma_ok_count_step(ms: Seq<PreparedMember>, i: int)
    requires
        0 <= i < ms.len(),
    ensures
        ok_count(ms.take(i + 1)) == ok_count(ms.take(i)) + if ms[i].prepared is Ok { 1nat } else { 0nat },
{
    assert(ms.take(i + 1).drop_last() =~= ms.take(i));
}

proof fn lemma_ok_count_prefix(ms: Seq<PreparedMember>, i: int)
    requires
        0 <= i <= ms.len(),
    ensures
        ok_count(ms.take(i)) <= ok_count(ms),
    decreases ms.len() - i,
{
    if i < ms.len() {
        lemma_ok_count_step(ms, i);
        lemma_ok_count_prefix(ms, i + 1);
    } else {
        assert(ms.take(i) =~= ms);
    }
}

/// Where member `i`'s outcome comes from: the next spawned result if it had an
/// invocation, else its own preparation error.
pub open spec fn member_source(ms: Seq<PreparedMember>, spawned: Seq<Result<JsonValue, CasaError>>, i: int) -> Result<JsonValue, CasaError> {
    match ms[i].prepared {
        Ok(_) => spawned[ok_count(ms.take(i)) as int],
        Err(e) => Err(e),
    }
}

/// A member result reports its member and that member's outcome.
pub open spec fn result_reports(r: MemberResult, pm: PreparedMember, source: Result<JsonValue, CasaError>) -> bool {
    &&& r.device@ == pm.name@
    &&& r.protocol@ == pm.protocol@
    &&& match (r.outcome, source) {
        (Ok(a), Ok(b)) => a == b,
        (Err(f), Err(e)) => f.kind == e.kind && f.detail@ == e.detail@,
        _ => false,
    }
}

/// How many of the first `n` members failed.
pub open spec fn failure_count(ms: Seq<PreparedMember>, spawned: Seq<Result<JsonValue, CasaError>>, n: int) -> nat
    decreases n,
{
    if n <= 0 {
        0
    } else {
        failure_count(ms, spawned, n - 1) + if member_source(ms, spawned, n - 1) is Err { 1nat } else { 0nat }
    }
}

/// The detail of a partial group failure.
pub open spec fn partial_failure_detail(failed: nat, total: nat, group: Seq<char>, operation: Seq<char>) -> Seq<char> {
    decimal(failed) + "/"@ + decimal(total) + " member(s) of group \""@ + group + "\" failed during \""@
        + operation + "\""@
}

proof fn lemma_failure_count_bound(ms: Seq<PreparedMember>, spawned: Seq<Result<JsonValue, CasaError>>, n: int)
    requires
        0 <= n,
    ensures
        failure_count(ms, spawned, n) <= n,
    decreases n,
{
    if n > 0 {
        lemma_failure_count_bound(ms, spawned, n - 1);
    }
}

/// Combines a prepared group execution with the results of the spawned
/// invocations (one per member that had one, in member order) into the group
/// response: one result per member, in the group's order. If any member
/// failed, the outcome is `group_partial_failure` (exit 15), and the error
/// still carries the whole response.
pub fn finish_group(plan: GroupPlan, spawned: Vec<Result<JsonValue, CasaError>>) -> (r: Result<GroupResponse, CasaError>)
    requires
        spawned@.len() == ok_count(plan.members@),
        plan.members@.len() <= u64::MAX,
    ensures
        ({
            let ms = plan.members@;
            let n = ms.len() as int;
            let failed = failure_count(ms, spawned@, n);
            let response_ok = |resp: GroupResponse| {
                &&& resp.group@ == plan.group@
                &&& resp.command == plan.command
                &&& resp.results@.len() == n
                &&& forall|i: int| 0 <= i < n ==> result_reports(
                    #[trigger] resp.results@[i],
                    ms[i],
                    member_source(ms, spawned@, i),
                )
            };
            match r {
                Ok(resp) => failed == 0 && response_ok(resp),
                Err(e) => {
                    &&& failed > 0
                    &&& e.kind == ErrorKind::GroupPartialFailure
                    &&& e.detail@ == partial_failure_detail(failed, n as nat, plan.group@, plan.operation@)
                    &&& e.response matches Some(resp) && response_ok(resp)
                },
            }
        }),
{
    let ghost ms = plan.members@;
    let ghost sp = spawned@;
    let GroupPlan { group, operation, command, members } = plan;
    let total = members.len();
    let mut members = members;
    let mut spawned = spawned;
    let mut results: Vec<MemberResult> = Vec::new();
    let mut failed: u64 = 0;
    let mut i: usize = 0;
    while i < total
        invariant
            total == ms.len(),
            total <= u64::MAX,
            i <= total,
            members@ == ms.skip(i as int),
            spawned@ == sp.skip(ok_count(ms.take(i as int)) as int),
            sp.len() == ok_count(ms),
            results@.len() == i,
            failed as nat == failure_count(ms, sp, i as int),
            forall|j: int| 0 <= j < i ==> result_reports(#[trigger] results@[j], ms[j], member_source(ms, sp, j)),
        decreases total - i,
    {
        proof {
            lemma_ok_count_step(ms, i as int);
            lemma_ok_count_prefix(ms, i + 1);
            lemma_failure_count_bound(ms, sp, i as int);
        }
        let pm = members.remove(0);
        assert(pm == ms[i as int]);
        let PreparedMember { name, protocol, prepared } = pm;
        let outcome = match prepared {
            Ok(_) => {
                let got = spawned.remove(0);
                assert(got == sp[ok_count(ms.take(i as int)) as int]);
                got
            },
            Err(e) => Err(e),
        };
        assert(outcome == member_source(ms, sp, i as int));
        let outcome = match outcome {
            Ok(v) => Ok(v),
            Err(e) => {
                failed = failed + 1;
                Err(MemberFailure { kind: e.kind, detail: e.detail })
            },
        };
        results.push(MemberResult { device: name, protocol, outcome });
        proof {
            assert(members@ =~= ms.skip(i + 1));
            assert(spawned@ =~= sp.skip(ok_count(ms.take(i + 1)) as int));
        }
        i = i + 1;
    }
    let response = GroupResponse { group, command, results };
    if failed == 0 {
        Ok(response)
    } else {
        let mut d = u64_to_string(failed);
        d.append("/");
        let t = u64_to_string(total as u64);
        d.append(t.as_str());
        d.append(" member(s) of group \"");
        d.append(response.group.as_str());
        d.append("\" failed during \"");
        d.append(operation.as_str());
        d.append("\"");
        Err(CasaError::new(ErrorKind::GroupPartialFailure, d).with_response(response))
    }
}

/// Law: a group execution succeeds exactly when every member succeeded, that
/// is, when every member had an invocation and every spawned invocation
/// succeeded; one failing member makes the whole execution a partial failure.
pub proof fn law_group_fails_iff_a_member_fails(ms: Seq<PreparedMember>, spawned: Seq<Result<JsonValue, CasaError>>, n: int)
    requires
        0 <= n <= ms.len(),
    ensures
        failure_count(ms, spawned, n) == 0 <==> forall|i: int| 0 <= i < n ==> member_source(ms, spawned, i) is Ok,
    decreases n,
{
    if n > 0 {
        law_group_fails_iff_a_member_fails(ms, spawned, n - 1);
    }
}


/// A single-device execution, prepared: the device's name and protocol, the
/// invoked command when the operation is `invoke`, and the invocation.
#[derive(Debug)]
pub struct DevicePlan {
    pub name: String,
    pub protocol: &'static str,
    pub command: Option<String>,
    pub invocation: Invocation,
}

/// What to spawn for one request: one device, or every member of a group.
#[derive(Debug)]
pub enum Plan {
    Device(DevicePlan),
    Group(GroupPlan),
}

/// Whether an operation is a read (`get`, `describe`), which takes no groups.
pub open spec fn is_read(op: Operation) -> bool {
    op is Get || op is Describe
}

/// The command of an `invoke`.
pub open spec fn op_command(op: Operation) -> Option<Seq<char>> {
    match op {
        Operation::Invoke { command, .. } => Some(command@),
        _ => None,
    }
}

/// Whether an optional string has the given optional value.
pub open spec fn opt_str_is(o: Option<String>, v: Option<Seq<char>>) -> bool {
    match (o, v) {
        (Some(s), Some(t)) => s@ == t,
        (None, None) => true,
        _ => false,
    }
}

/// The outcome of preparing an operation on one device.
pub open spec fn device_plan_outcome(r: Result<DevicePlan, CasaError>, c: Config, name: Seq<char>, op: Operation) -> bool {
    if !has_key(c.devices@, name) {
        r matches Err(e) && e.kind == ErrorKind::NameNotFound && e.detail@ == device_not_found_detail(name)
            && e.response is None
    } else {
        let d = lookup(c.devices@, name)->0;
        match spec_build(spec_adapter_for(d), d, op) {
            Some(v) => r matches Ok(p) && p.name@ == name && p.protocol@ == spec_protocol(d)
                && opt_str_is(p.command, op_command(op)) && p.invocation@ == v,
            None => r matches Err(e) && e.kind == ErrorKind::ProtocolUnsupported
                && e.detail@ == unsupported_detail(d, op_name(op)) && e.response is None,
        }
    }
}

/// The outcome of preparing an operation on a group.
pub open spec fn group_plan_outcome(r: Result<GroupPlan, CasaError>, c: Config, name: Seq<char>, g: Group, op: Operation) -> bool {
    let k = first_foreign_member(c, g);
    match r {
        Ok(plan) => {
            &&& k < 0
            &&& plan.group@ == name
            &&& plan.operation@ == op_name(op)
            &&& opt_str_is(plan.command, op_command(op))
            &&& plan.members@.len() == g.members@.len()
            &&& forall|i: int| 0 <= i < g.members@.len() ==> prepared_as_built(#[trigger] plan.members@[i], c, g.members@[i], op)
        },
        Err(e) => {
            &&& k >= 0
            &&& e.kind == ErrorKind::NameNotFound
            &&& e.detail@ == device_not_found_detail(g.members@[k]@)
            &&& e.response is None
        },
    }
}

fn plan_device(config: &Config, name: &str, op: &Operation) -> (r: Result<DevicePlan, CasaError>)
    ensures
        device_plan_outcome(r, *config, name@, *op),
{
    let device = config.device(name)?;
    let operation = operation_name(op);
    let adapter = require_adapter(device, operation.as_str())?;
    match build(adapter, device, op) {
        Some(invocation) => {
            let command = match op {
                Operation::Invoke { command, .. } => Some(command.clone()),
                _ => None,
            };
            Ok(DevicePlan { name: name.to_owned(), protocol: device.protocol(), command, invocation })
        },
        None => Err(unsupported(device, operation.as_str())),
    }
}

/// Prepares one request: `get <name> <property>`, `set <name> <property> <value>`,
/// `on <name>`, `off <name>`, `invoke <name> <command> [args...]` or
/// `describe <name>`.
///
/// - Reads (`get`, `describe`) reject a group name with `protocol_unsupported`.
/// - Writes on a group prepare every member; `invoke` on a group first requires
///   all members to share one protocol.
/// - Otherwise the name must be a device (`name_not_found`), and the device's
///   adapter must build the operation (`protocol_unsupported`).
pub fn plan(config: &Config, name: &str, op: &Operation) -> (r: Result<Plan, CasaError>)
    ensures
        if is_read(*op) {
            if has_key(config.groups@, name@) {
                r matches Err(e) && e.kind == ErrorKind::ProtocolUnsupported
                    && e.detail@ == group_rejected_detail(op_name(*op)) && e.response is None
            } else {
                match r {
                    Ok(Plan::Device(p)) => device_plan_outcome(Ok(p), *config, name@, *op),
                    Ok(Plan::Group(_)) => false,
                    Err(e) => device_plan_outcome(Err(e), *config, name@, *op),
                }
            }
        } else if has_key(config.groups@, name@) {
            let g = lookup(config.groups@, name@)->0;
            let uniform_needed = op is Invoke && first_foreign_member(*config, g) < 0
                && found_protocols(*config, g).len() > 1;
            if uniform_needed {
                r matches Err(e) && e.kind == ErrorKind::ProtocolUnsupported
                    && e.detail@ == mixed_group_detail(*config, name@, g, op_command(*op)->0)
                    && e.response is None
            } else {
                match r {
                    Ok(Plan::Group(p)) => group_plan_outcome(Ok(p), *config, name@, g, *op),
                    Ok(Plan::Device(_)) => false,
                    Err(e) => group_plan_outcome(Err(e), *config, name@, g, *op),
                }
            }
        } else {
            match r {
                Ok(Plan::Device(p)) => device_plan_outcome(Ok(p), *config, name@, *op),
                Ok(Plan::Group(_)) => false,
                Err(e) => device_plan_outcome(Err(e), *config, name@, *op),
            }
        },
{
    let operation = operation_name(op);
    let read = match op {
        Operation::Get { .. } | Operation::Describe => true,
        _ => false,
    };
    if read {
        reject_group(config, name, operation.as_str())?;
        let p = plan_device(config, name, op)?;
        return Ok(Plan::Device(p));
    }
    match find_key(&config.groups, name) {
        Some(gi) => {
            let group = &config.groups[gi].1;
            let mut command: Option<String> = None;
            if let Operation::Invoke { command: c, .. } = op {
                ensure_uniform_protocol(config, name, group, c.as_str())?;
                command = Some(c.clone());
            }
            let mut p = prepare_group(config, name, group, op)?;
            p.command = command;
            Ok(Plan::Group(p))
        },
        None => {
            let p = plan_device(config, name, op)?;
            Ok(Plan::Device(p))
        },
    }
}

/// The invocation that fetches a device's property map, or `None` for a
/// protocol without introspection (`list --describe` reports it as null).
pub fn describe_device(device: &Device) -> (r: Option<Invocation>)
    ensures
        opt_view(r) == adapter::spec_describe(spec_adapter_for(*device), *device),
{
    let adapter = adapter_for(device)?;
    adapter.describe(device)
}


/// A device whose protocol has no adapter: valid as config, but every
/// operation on it would be `protocol_unsupported` at run time.
#[derive(Debug)]
pub struct NoAdapterWarning {
    pub device: String,
    pub protocol: &'static str,
}

/// What `casa validate` reports of a config that loaded: its version, how many
/// devices and groups it has, how many devices speak each protocol (in
/// protocol name order, protocols without devices left out), and warnings.
#[derive(Debug)]
pub struct ValidationSummary {
    pub version: u32,
    pub device_count: usize,
    pub group_count: usize,
    pub protocols: Vec<(&'static str, u32)>,
    pub warnings: Vec<NoAdapterWarning>,
}

/// How many devices of a list speak protocol `p`.
pub open spec fn protocol_count(devs: Seq<(String, Device)>, p: Seq<char>) -> nat
    decreases devs.len(),
{
    if devs.len() == 0 {
        0
    } else {
        protocol_count(devs.drop_last(), p) + if spec_protocol(devs.last().1) == p { 1nat } else { 0nat }
    }
}

/// The protocol counts of a device list, in protocol name order, nonzero only.
pub open spec fn protocol_counts(devs: Seq<(String, Device)>) -> Seq<(Seq<char>, nat)> {
    let entry = |p: Seq<char>| if protocol_count(devs, p) > 0 { seq![(p, protocol_count(devs, p))] } else { Seq::empty() };
    entry("androidtv"@) + entry("echonet"@) + entry("matter"@) + entry("switchbot"@)
}

/// The four protocol names are distinct.
pub proof fn lemma_protocol_names_distinct()
    ensures
        "echonet"@ != "androidtv"@,
        "matter"@ != "androidtv"@,
        "switchbot"@ != "androidtv"@,
        "matter"@ != "echonet"@,
        "switchbot"@ != "echonet"@,
        "switchbot"@ != "matter"@,
{
    reveal_strlit("androidtv");
    reveal_strlit("echonet");
    reveal_strlit("matter");
    reveal_strlit("switchbot");
    assert("echonet"@.len() != "androidtv"@.len());
    assert("matter"@.len() != "androidtv"@.len());
    assert("switchbot"@[0] != "androidtv"@[0]);
    assert("matter"@.len() != "echonet"@.len());
    assert("switchbot"@.len() != "echonet"@.len());
    assert("switchbot"@.len() != "matter"@.len());
}

/// The sum of the counts of a list of (protocol, count) entries.
pub open spec fn counts_total(cs: Seq<(Seq<char>, nat)>) -> nat
    decreases cs.len(),
{
    if cs.len() == 0 {
        0
    } else {
        counts_total(cs.drop_last()) + cs.last().1
    }
}

proof fn lemma_counts_total_append(x: Seq<(Seq<char>, nat)>, y: Seq<(Seq<char>, nat)>)
    ensures
        counts_total(x + y) == counts_total(x) + counts_total(y),
    decreases y.len(),
{
    if y.len() == 0 {
        assert(x + y =~= x);
    } else {
        assert((x + y).drop_last() =~= x + y.drop_last());
        lemma_counts_total_append(x, y.drop_last());
    }
}

/// Every device speaks one of the four protocols, so their counts add up to
/// the number of devices.
proof fn lemma_four_counts_cover(devs: Seq<(String, Device)>)
    ensures
        protocol_count(devs, "androidtv"@) + protocol_count(devs, "echonet"@) + protocol_count(devs, "matter"@)
            + protocol_count(devs, "switchbot"@) == devs.len(),
    decreases devs.len(),
{
    lemma_protocol_names_distinct();
    if devs.len() > 0 {
        lemma_four_counts_cover(devs.drop_last());
    }
}

/// A protocol that some device speaks has a nonzero count.
proof fn lemma_spoken_protocol_counted(devs: Seq<(String, Device)>, i: int)
    requires
        0 <= i < devs.len(),
    ensures
        protocol_count(devs, spec_protocol(devs[i].1)) > 0,
    decreases devs.len(),
{
    if i < devs.len() - 1 {
        lemma_spoken_protocol_counted(devs.drop_last(), i);
        assert(devs.drop_last()[i] == devs[i]);
    }
}

/// The four protocol names in name order.
proof fn lemma_protocol_names_ordered()
    ensures
        lex_lt("androidtv"@, "echonet"@),
        lex_lt("androidtv"@, "matter"@),
        lex_lt("androidtv"@, "switchbot"@),
        lex_lt("echonet"@, "matter"@),
        lex_lt("echonet"@, "switchbot"@),
        lex_lt("matter"@, "switchbot"@),
{
    reveal_strlit("androidtv");
    reveal_strlit("echonet");
    reveal_strlit("matter");
    reveal_strlit("switchbot");
}

/// Law: `validate`'s protocol counts account for every device. They add up to
/// the number of devices; every protocol that some device speaks is listed,
/// once, with the number of devices that speak it; every listed count is the
/// number of devices speaking its protocol, never zero; and the entries come in
/// protocol name order.
pub proof fn law_protocol_counts_cover_devices(devs: Seq<(String, Device)>)
    ensures
        counts_total(protocol_counts(devs)) == devs.len(),
        forall|i: int|
            0 <= i < devs.len() ==> exists|k: int|
                0 <= k < protocol_counts(devs).len() && #[trigger] protocol_counts(devs)[k] == (
                    spec_protocol(#[trigger] devs[i].1),
                    protocol_count(devs, spec_protocol(devs[i].1)),
                ),
        forall|k: int|
            0 <= k < protocol_counts(devs).len() ==> (#[trigger] protocol_counts(devs)[k]).1 > 0
                && protocol_counts(devs)[k].1 == protocol_count(devs, protocol_counts(devs)[k].0),
        forall|k1: int, k2: int|
            0 <= k1 < k2 < protocol_counts(devs).len() ==> lex_lt(
                (#[trigger] protocol_counts(devs)[k1]).0,
                (#[trigger] protocol_counts(devs)[k2]).0,
            ),
{
    lemma_protocol_names_distinct();
    lemma_protocol_names_ordered();
    let na = protocol_count(devs, "androidtv"@);
    let ne = protocol_count(devs, "echonet"@);
    let nm = protocol_count(devs, "matter"@);
    let ns = protocol_count(devs, "switchbot"@);
    let ea = if na > 0 { seq![("androidtv"@, na)] } else { Seq::<(Seq<char>, nat)>::empty() };
    let ee = if ne > 0 { seq![("echonet"@, ne)] } else { Seq::<(Seq<char>, nat)>::empty() };
    let em = if nm > 0 { seq![("matter"@, nm)] } else { Seq::<(Seq<char>, nat)>::empty() };
    let es = if ns > 0 { seq![("switchbot"@, ns)] } else { Seq::<(Seq<char>, nat)>::empty() };
    let pc = protocol_counts(devs);
    assert(pc == ea + ee + em + es);
    lemma_four_counts_cover(devs);
    lemma_counts_total_append(ea, ee);
    lemma_counts_total_append(ea + ee, em);
    lemma_counts_total_append(ea + ee + em, es);
    assert(counts_total(Seq::<(Seq<char>, nat)>::empty()) == 0);
    assert(counts_total(seq![("androidtv"@, na)]) == na) by {
        assert(seq![("androidtv"@, na)].drop_last() =~= Seq::<(Seq<char>, nat)>::empty());
    }
    assert(counts_total(seq![("echonet"@, ne)]) == ne) by {
        assert(seq![("echonet"@, ne)].drop_last() =~= Seq::<(Seq<char>, nat)>::empty());
    }
    assert(counts_total(seq![("matter"@, nm)]) == nm) by {
        assert(seq![("matter"@, nm)].drop_last() =~= Seq::<(Seq<char>, nat)>::empty());
    }
    assert(counts_total(seq![("switchbot"@, ns)]) == ns) by {
        assert(seq![("switchbot"@, ns)].drop_last() =~= Seq::<(Seq<char>, nat)>::empty());
    }
    assert forall|i: int| 0 <= i < devs.len() implies exists|k: int|
        0 <= k < pc.len() && #[trigger] pc[k] == (
            spec_protocol(#[trigger] devs[i].1),
            protocol_count(devs, spec_protocol(devs[i].1)),
        ) by {
        lemma_spoken_protocol_counted(devs, i);
        let p = spec_protocol(devs[i].1);
        if p == "androidtv"@ {
            assert(pc[0] == (p, na));
        } else if p == "echonet"@ {
            assert(pc[ea.len() as int] == (p, ne));
        } else if p == "matter"@ {
            assert(pc[(ea.len() + ee.len()) as int] == (p, nm));
        } else {
            assert(pc[(ea.len() + ee.len() + em.len()) as int] == (p, ns));
        }
    }
}

/// Summarizes a loaded config for `casa validate`. Every protocol has an
/// adapter, so there are no warnings.
pub fn validation_summary(config: &Config) -> (r: ValidationSummary)
    requires
        config.devices@.len() <= u32::MAX,
    ensures
        r.version == config.version,
        r.device_count == config.devices@.len(),
        r.group_count == config.groups@.len(),
        r.protocols@.len() == protocol_counts(config.devices@).len(),
        forall|i: int| 0 <= i < r.protocols@.len() ==> (#[trigger] r.protocols@[i]).0@ == protocol_counts(config.devices@)[i].0
            && r.protocols@[i].1 as nat == protocol_counts(config.devices@)[i].1,
        r.warnings@.len() == 0,
{
    let ghost devs = config.devices@;
    let mut a: u32 = 0;
    let mut e: u32 = 0;
    let mut m: u32 = 0;
    let mut s: u32 = 0;
    let mut warnings: Vec<NoAdapterWarning> = Vec::new();
    let mut i: usize = 0;
    proof {
        lemma_protocol_names_distinct();
    }
    while i < config.devices.len()
        invariant
            devs == config.devices@,
            devs.len() <= u32::MAX,
            i <= devs.len(),
            a as nat == protocol_count(devs.take(i as int), "androidtv"@),
            e as nat == protocol_count(devs.take(i as int), "echonet"@),
            m as nat == protocol_count(devs.take(i as int), "matter"@),
            s as nat == protocol_count(devs.take(i as int), "switchbot"@),
            a + e + m + s == i,
            warnings@.len() == 0,
            "echonet"@ != "androidtv"@,
            "matter"@ != "androidtv"@,
            "switchbot"@ != "androidtv"@,
            "matter"@ != "echonet"@,
            "switchbot"@ != "echonet"@,
            "switchbot"@ != "matter"@,
        decreases devs.len() - i,
    {
        let device = &config.devices[i].1;
        assert(devs.take(i + 1).drop_last() =~= devs.take(i as int));
        match device {
            Device::Androidtv { .. } => { a = a + 1; },
            Device::Echonet { .. } => { e = e + 1; },
            Device::Matter { .. } => { m = m + 1; },
            Device::Switchbot { .. } => { s = s + 1; },
        }
        if adapter_for(device).is_none() {
            warnings.push(NoAdapterWarning { device: config.devices[i].0.clone(), protocol: device.protocol() });
        }
        i = i + 1;
    }
    assert(devs.take(devs.len() as int) =~= devs);
    let mut protocols: Vec<(&'static str, u32)> = Vec::new();
    if a > 0 { protocols.push(("androidtv", a)); }
    if e > 0 { protocols.push(("echonet", e)); }
    if m > 0 { protocols.push(("matter", m)); }
    if s > 0 { protocols.push(("switchbot", s)); }
    let ghost pc = protocol_counts(devs);
    assert(protocols@.len() == pc.len());
    assert forall|i: int| 0 <= i < protocols@.len() implies (#[trigger] protocols@[i]).0@ == pc[i].0
        && protocols@[i].1 as nat == pc[i].1 by {}
    ValidationSummary {
        version: config.version,
        device_count: config.devices.len(),
        group_count: config.groups.len(),
        protocols,
        warnings,
    }
}

} // verus!
