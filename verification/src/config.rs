//! The device configuration (devices.toml): devices, groups and binary
//! overrides, name resolution, and the checks applied once the file is read.

use vstd::prelude::*;

use crate::error::{CasaError, ErrorKind};
use crate::lookup::{
    find_key, first_where, has_key, lemma_first_where, lemma_first_where_at, lookup, names_ascending, names_in_order,
};
use crate::text::u64_to_string;

verus! {

/// The config file version casa understands.
pub const SUPPORTED_VERSION: u32 = 1;

/// A device definition. Its protocol is the only thing dispatch looks at.
#[derive(Debug)]
pub enum Device {
    Echonet { ip: String, eoj: String },
    Switchbot { device_id: String },
    /// A Matter device addressed either by `node_id` (unicast) or by `group`
    /// (groupcast); exactly one of them is set once the config is checked.
    /// `endpoint` is the endpoint of the on/off shortcut (mat's default when absent).
    Matter { node_id: Option<String>, group: Option<String>, endpoint: Option<u32> },
    Androidtv { host: String },
}

/// A named group of devices; members are device names (groups do not nest).
#[derive(Debug)]
pub struct Group {
    pub members: Vec<String>,
}

/// The device configuration. Each list is in name order, as the file's tables
/// are read, and no name occurs twice in a list (see [`Config::wf`]).
#[derive(Debug)]
pub struct Config {
    pub version: u32,
    pub devices: Vec<(String, Device)>,
    pub groups: Vec<(String, Group)>,
    /// Full-path overrides of child CLI binaries (e.g. `enl = "/opt/bin/enl"`).
    pub binaries: Vec<(String, String)>,
}

/// The protocol name of a device, as written in the config.
pub open spec fn spec_protocol(d: Device) -> Seq<char> {
    match d {
        Device::Echonet { .. } => "echonet"@,
        Device::Switchbot { .. } => "switchbot"@,
        Device::Matter { .. } => "matter"@,
        Device::Androidtv { .. } => "androidtv"@,
    }
}

impl Device {
    /// The protocol name of this device.
    pub fn protocol(&self) -> (r: &'static str)
        ensures
            r@ == spec_protocol(*self),
    {
        match self {
            Device::Echonet { .. } => "echonet",
            Device::Switchbot { .. } => "switchbot",
            Device::Matter { .. } => "matter",
            Device::Androidtv { .. } => "androidtv",
        }
    }
}

/// The detail of an unknown device name.
pub open spec fn device_not_found_detail(name: Seq<char>) -> Seq<char> {
    "device \""@ + name + "\" is not defined in the config file"@
}

/// The detail of a name that is neither a device nor a group.
pub open spec fn target_not_found_detail(name: Seq<char>) -> Seq<char> {
    "\""@ + name + "\" is not defined as a device or group in the config file"@
}

impl Config {
    /// Each list holds its entries in strictly ascending name order, as the
    /// file's tables hand them out, so no name occurs twice in a list.
    pub open spec fn wf(&self) -> bool {
        &&& names_ascending(self.devices@)
        &&& names_ascending(self.groups@)
        &&& names_ascending(self.binaries@)
    }

    /// Whether each list is in strictly ascending name order.
    pub fn well_formed(&self) -> (r: bool)
        ensures
            r == self.wf(),
    {
        names_in_order(&self.devices) && names_in_order(&self.groups) && names_in_order(&self.binaries)
    }

    /// Looks a device up by name; an unknown name is `name_not_found` (exit 11).
    pub fn device(&self, name: &str) -> (r: Result<&Device, CasaError>)
        ensures
            match r {
                Ok(d) => lookup(self.devices@, name@) == Some(*d),
                Err(e) => {
                    &&& !has_key(self.devices@, name@)
                    &&& e.kind == ErrorKind::NameNotFound
                    &&& e.detail@ == device_not_found_detail(name@)
                    &&& e.response is None
                },
            },
    {
        match find_key(&self.devices, name) {
            Some(i) => Ok(&self.devices[i].1),
            None => {
                let mut d = String::from_str("device \"");
                d.append(name);
                d.append("\" is not defined in the config file");
                Err(CasaError::new(ErrorKind::NameNotFound, d))
            },
        }
    }

    /// Checks only that the name exists as a device or a group (for callers that
    /// hand the name on to casa, which expands groups itself).
    pub fn ensure_target(&self, name: &str) -> (r: Result<(), CasaError>)
        ensures
            match r {
                Ok(()) => has_key(self.devices@, name@) || has_key(self.groups@, name@),
                Err(e) => {
                    &&& !has_key(self.devices@, name@)
                    &&& !has_key(self.groups@, name@)
                    &&& e.kind == ErrorKind::NameNotFound
                    &&& e.detail@ == target_not_found_detail(name@)
                    &&& e.response is None
                },
            },
    {
        if find_key(&self.devices, name).is_some() || find_key(&self.groups, name).is_some() {
            Ok(())
        } else {
            let mut d = String::from_str("\"");
            d.append(name);
            d.append("\" is not defined as a device or group in the config file");
            Err(CasaError::new(ErrorKind::NameNotFound, d))
        }
    }
}

/// A Matter device names exactly one of `node_id` and `group`.
pub open spec fn matter_shape_ok(d: Device) -> bool {
    match d {
        Device::Matter { node_id, group, .. } => node_id is Some != group is Some,
        _ => true,
    }
}

/// The detail of a Matter device with both or neither of `node_id` and `group`.
pub open spec fn matter_shape_detail(name: Seq<char>) -> Seq<char> {
    "device \""@ + name + "\": a matter device needs exactly one of node_id or group"@
}

/// The detail of an unsupported config version.
pub open spec fn version_detail(v: u32) -> Seq<char> {
    "unsupported config version "@ + crate::text::decimal(v as nat)
        + " (casa supports version 1; migration is explicit, casa never rewrites your config)"@
}

/// Whether a name is not one of the config's devices.
pub open spec fn foreign_pred(c: Config) -> spec_fn(String) -> bool {
    |m: String| !has_key(c.devices@, m@)
}

/// The first member of a group that is not a device, or -1.
pub open spec fn first_foreign_member(c: Config, g: Group) -> int {
    first_where(g.members@, foreign_pred(c))
}

/// Whether a device entry is a Matter device of the wrong shape.
pub open spec fn bad_device_pred() -> spec_fn((String, Device)) -> bool {
    |e: (String, Device)| !matter_shape_ok(e.1)
}

/// Whether a group entry has a problem.
pub open spec fn bad_group_pred(c: Config) -> spec_fn((String, Group)) -> bool {
    |e: (String, Group)| group_problem(c, e.0@, e.1) is Some
}

/// What is wrong with one group, if anything: its name is a device's, it has no
/// members, or a member is not a device (a group, or undefined).
pub open spec fn group_problem(c: Config, name: Seq<char>, g: Group) -> Option<Seq<char>> {
    if has_key(c.devices@, name) {
        Some("group \""@ + name + "\" collides with a device of the same name"@)
    } else if g.members@.len() == 0 {
        Some("group \""@ + name + "\" has no members"@)
    } else {
        let k = first_foreign_member(c, g);
        if k < 0 {
            None
        } else {
            let m = g.members@[k]@;
            if has_key(c.groups@, m) {
                Some("group \""@ + name + "\" member \""@ + m + "\" is a group; groups cannot be nested"@)
            } else {
                Some("group \""@ + name + "\" member \""@ + m + "\" is not defined in [devices]"@)
            }
        }
    }
}

/// The first problem of a config, in the order in which casa checks: the
/// version, then each device's shape, then each group.
pub open spec fn config_problem(c: Config) -> Option<Seq<char>> {
    let bad_device = first_where(c.devices@, bad_device_pred());
    let bad_group = first_where(c.groups@, bad_group_pred(c));
    if c.version != SUPPORTED_VERSION {
        Some(version_detail(c.version))
    } else if bad_device >= 0 {
        Some(matter_shape_detail(c.devices@[bad_device].0@))
    } else if bad_group >= 0 {
        group_problem(c, c.groups@[bad_group].0@, c.groups@[bad_group].1)
    } else {
        None
    }
}

fn group_check(config: &Config, name: &str, group: &Group) -> (r: Option<String>)
    ensures
        match r {
            Some(d) => group_problem(*config, name@, *group) == Some(d@),
            None => group_problem(*config, name@, *group) is None,
        },
{
    if find_key(&config.devices, name).is_some() {
        let mut d = String::from_str("group \"");
        d.append(name);
        d.append("\" collides with a device of the same name");
        return Some(d);
    }
    if group.members.len() == 0 {
        let mut d = String::from_str("group \"");
        d.append(name);
        d.append("\" has no members");
        return Some(d);
    }
    let ghost p = foreign_pred(*config);
    let mut i: usize = 0;
    while i < group.members.len()
        invariant
            i <= group.members.len(),
            p == foreign_pred(*config),
            !has_key(config.devices@, name@),
            group.members.len() > 0,
            forall|j: int| 0 <= j < i ==> !p(group.members@[j]),
        decreases group.members.len() - i,
    {
        let member = group.members[i].as_str();
        if find_key(&config.devices, member).is_none() {
            proof {
                lemma_first_where_at(group.members@, p, i as int);
            }
            let mut d = String::from_str("group \"");
            d.append(name);
            d.append("\" member \"");
            d.append(member);
            if find_key(&config.groups, member).is_some() {
                d.append("\" is a group; groups cannot be nested");
            } else {
                d.append("\" is not defined in [devices]");
            }
            return Some(d);
        }
        i = i + 1;
    }
    proof {
        lemma_first_where(group.members@, p);
    }
    None
}

/// Applies the checks that follow reading the file: the version must be 1, a
/// Matter device names exactly one of `node_id` and `group`, and every group has
/// a name of its own, at least one member, and only devices as members. Any
/// failure is `config_parse` (exit 10), naming the first problem found.
pub fn check(config: Config) -> (r: Result<Config, CasaError>)
    requires
        config.wf(),
    ensures
        match r {
            Ok(c) => c == config && config_problem(config) is None && c.wf(),
            Err(e) => {
                &&& e.kind == ErrorKind::ConfigParse
                &&& config_problem(config) == Some(e.detail@)
                &&& e.response is None
            },
        },
{
    if config.version != SUPPORTED_VERSION {
        let mut d = String::from_str("unsupported config version ");
        let v = u64_to_string(config.version as u64);
        d.append(v.as_str());
        d.append(" (casa supports version 1; migration is explicit, casa never rewrites your config)");
        return Err(CasaError::new(ErrorKind::ConfigParse, d));
    }
    let ghost pd = bad_device_pred();
    let mut i: usize = 0;
    while i < config.devices.len()
        invariant
            i <= config.devices.len(),
            pd == bad_device_pred(),
            config.version == SUPPORTED_VERSION,
            forall|j: int| 0 <= j < i ==> !pd(config.devices@[j]),
        decreases config.devices.len() - i,
    {
        let ok = match &config.devices[i].1 {
            Device::Matter { node_id, group, .. } => node_id.is_some() != group.is_some(),
            _ => true,
        };
        if !ok {
            proof {
                lemma_first_where_at(config.devices@, pd, i as int);
            }
            let mut d = String::from_str("device \"");
            d.append(config.devices[i].0.as_str());
            d.append("\": a matter device needs exactly one of node_id or group");
            return Err(CasaError::new(ErrorKind::ConfigParse, d));
        }
        i = i + 1;
    }
    proof {
        lemma_first_where(config.devices@, pd);
    }
    let ghost pg = bad_group_pred(config);
    let mut k: usize = 0;
    while k < config.groups.len()
        invariant
            k <= config.groups.len(),
            pg == bad_group_pred(config),
            config.version == SUPPORTED_VERSION,
            first_where(config.devices@, bad_device_pred()) == -1,
            forall|j: int| 0 <= j < k ==> !pg(config.groups@[j]),
        decreases config.groups.len() - k,
    {
        match group_check(&config, config.groups[k].0.as_str(), &config.groups[k].1) {
            Some(d) => {
                proof {
                    lemma_first_where_at(config.groups@, pg, k as int);
                }
                return Err(CasaError::new(ErrorKind::ConfigParse, d));
            },
            None => {},
        }
        k = k + 1;
    }
    proof {
        lemma_first_where(config.groups@, pg);
    }
    Ok(config)
}


/// Law: in a config that passes the checks, every group has a name that is no
/// device's and at least one member, and every member of every group is a
/// device, so expanding a group never meets an unknown name or another group.
pub proof fn law_checked_groups_resolve(c: Config, gi: int, mi: int)
    requires
        config_problem(c) is None,
        0 <= gi < c.groups@.len(),
        0 <= mi < c.groups@[gi].1.members@.len(),
    ensures
        !has_key(c.devices@, c.groups@[gi].0@),
        c.groups@[gi].1.members@.len() > 0,
        has_key(c.devices@, c.groups@[gi].1.members@[mi]@),
{
    lemma_first_where(c.groups@, bad_group_pred(c));
    assert(!bad_group_pred(c)(c.groups@[gi]));
    lemma_first_where(c.groups@[gi].1.members@, foreign_pred(c));
    assert(!foreign_pred(c)(c.groups@[gi].1.members@[mi]));
}

/// Law: in a config that passes the checks, every Matter device names exactly
/// one of `node_id` and `group`.
pub proof fn law_checked_matter_devices_have_one_address(c: Config, di: int)
    requires
        config_problem(c) is None,
        0 <= di < c.devices@.len(),
    ensures
        matter_shape_ok(c.devices@[di].1),
{
    lemma_first_where(c.devices@, bad_device_pred());
    assert(!bad_device_pred()(c.devices@[di]));
}

} // verus!
