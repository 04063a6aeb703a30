//! The device configuration of the single-binary CLI.

use vstd::prelude::*;

use crate::error::{CasaError, ErrorKind};
use crate::lookup::{find_key, has_key, lookup, names_ascending, names_in_order};
use crate::text::u64_to_string;

verus! {

/// The config file version understood.
pub const SUPPORTED_VERSION: u32 = 1;

/// A device definition; its protocol is the only thing dispatch looks at.
#[derive(Debug)]
pub enum Device {
    Echonet { ip: String, eoj: String },
    Switchbot { device_id: String },
    /// A commissioned Matter node and the endpoint that operations target.
    Matter { node_id: u64, endpoint: u16 },
}

/// The device configuration: devices and binary overrides, each list in name
/// order with no name twice.
#[derive(Debug)]
pub struct Config {
    pub version: u32,
    pub devices: Vec<(String, Device)>,
    pub binaries: Vec<(String, String)>,
}

/// The protocol name of a device.
pub open spec fn spec_protocol(d: Device) -> Seq<char> {
    match d {
        Device::Echonet { .. } => "echonet"@,
        Device::Switchbot { .. } => "switchbot"@,
        Device::Matter { .. } => "matter"@,
    }
}

impl Device {
    /// The protocol name of this device.
    pub fn protocol(&self) -> (r: &'static str)
        ensures
            r@ == spec_protocol(*self),
    {
        match self {
            Device::Echonet { .. } => "echonet",
            Device::Switchbot { .. } => "switchbot",
            Device::Matter { .. } => "matter",
        }
    }
}

impl Config {
    /// Each list holds its entries in strictly ascending name order, as the
    /// file's tables hand them out, so no name occurs twice in a list.
    pub open spec fn wf(&self) -> bool {
        &&& names_ascending(self.devices@)
        &&& names_ascending(self.binaries@)
    }

    /// Whether each list is in strictly ascending name order.
    pub fn well_formed(&self) -> (r: bool)
        ensures
            r == self.wf(),
    {
        names_in_order(&self.devices) && names_in_order(&self.binaries)
    }

    /// Looks a device up by name; an unknown name is `name_not_found` (exit 11).
    pub fn device(&self, name: &str) -> (r: Result<&Device, CasaError>)
        ensures
            match r {
                Ok(d) => lookup(self.devices@, name@) == Some(*d),
                Err(e) => {
                    &&& !has_key(self.devices@, name@)
                    &&& e.kind == ErrorKind::NameNotFound
                    &&& e.detail@ == crate::config::device_not_found_detail(name@)
                    &&& e.response is None
                },
            },
    {
        match find_key(&self.devices, name) {
            Some(i) => Ok(&self.devices[i].1),
            None => {
                let mut d = String::from_str("device \"");
                d.append(name);
                d.append("\" is not defined in the config file");
                Err(CasaError::new(ErrorKind::NameNotFound, d))
            },
        }
    }
}

/// The check that follows reading the file: the version must be 1
/// (`config_parse`, exit 10, otherwise).
pub fn check(config: Config) -> (r: Result<Config, CasaError>)
    requires
        config.wf(),
    ensures
        match r {
            Ok(c) => c == config && config.version == SUPPORTED_VERSION && c.wf(),
            Err(e) => {
                &&& config.version != SUPPORTED_VERSION
                &&& e.kind == ErrorKind::ConfigParse
                &&& e.detail@ == crate::config::version_detail(config.version)
                &&& e.response is None
            },
        },
{
    if config.version != SUPPORTED_VERSION {
        let mut d = String::from_str("unsupported config version ");
        let v = u64_to_string(config.version as u64);
        d.append(v.as_str());
        d.append(" (casa supports version 1; migration is explicit, casa never rewrites your config)");
        return Err(CasaError::new(ErrorKind::ConfigParse, d));
    }
    Ok(config)
}

} // verus!
