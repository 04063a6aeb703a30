use casa::error::ErrorKind;
use casa::standalone::cli::Command;
use casa::standalone::config::{Config, Device};
use casa::standalone::ops::{describe_device, plan, string_vec, Request};

fn config() -> Config {
    Config {
        version: 1,
        devices: vec![
            ("entry_lock".into(), Device::Switchbot { device_id: "DUMMY-XX-XX".into() }),
            ("living_aircon".into(), Device::Echonet { ip: "192.0.2.10".into(), eoj: "0x013001".into() }),
            ("living_light".into(), Device::Matter { node_id: 5, endpoint: 1 }),
        ],
        binaries: vec![],
    }
}

fn args(v: &[String]) -> Vec<&str> {
    v.iter().map(String::as_str).collect()
}

#[test]
fn get_resolves_the_name_and_builds_enl_args() {
    let inv = plan(&config(), "living_aircon", &Request::Get { epc: "0x80".into() }).unwrap();
    assert_eq!(inv.bin, "enl");
    assert_eq!(args(&inv.args), ["get", "--ip", "192.0.2.10", "--eoj", "0x013001", "--epc", "0x80"]);
}

#[test]
fn power_on_echonet_sets_epc_0x80() {
    let inv = plan(&config(), "living_aircon", &Request::Power { on: true }).unwrap();
    assert_eq!(args(&inv.args).last(), Some(&"0x30"));
    let inv = plan(&config(), "living_light", &Request::Power { on: false }).unwrap();
    assert_eq!(args(&inv.args), ["off", "5", "--endpoint", "1"]);
}

#[test]
fn switchbot_requests_are_protocol_unsupported() {
    let err = plan(&config(), "entry_lock", &Request::Get { epc: "0x80".into() }).unwrap_err();
    assert_eq!(err.kind, ErrorKind::ProtocolUnsupported);
    assert_eq!(err.exit_code(), 14);
    assert_eq!(err.detail, "operation \"get\" is not yet supported for protocol \"switchbot\"");
    let err = plan(&config(), "entry_lock", &Request::Power { on: false }).unwrap_err();
    assert_eq!(err.detail, "operation \"off\" is not yet supported for protocol \"switchbot\"");
}

#[test]
fn unknown_device_is_name_not_found() {
    let err = plan(&config(), "ghost", &Request::Describe).unwrap_err();
    assert_eq!(err.kind, ErrorKind::NameNotFound);
    assert_eq!(err.exit_code(), 11);
}

#[test]
fn describe_device_skips_protocols_without_introspection() {
    let c = config();
    assert!(describe_device(&c.devices[0].1).is_none());
    assert_eq!(describe_device(&c.devices[1].1).unwrap().bin, "enl");
    assert_eq!(args(&describe_device(&c.devices[2].1).unwrap().args), ["describe", "5"]);
}

#[test]
fn commands_map_to_requests() {
    assert!(Command::List.request().is_none());
    match (Command::SetValue { name: "a".into(), epc: "0x80".into(), value: "0x30".into() }).request() {
        Some((n, Request::SetValue { epc, value })) => {
            assert_eq!((n.as_str(), epc.as_str(), value.as_str()), ("a", "0x80", "0x30"));
        }
        _ => panic!("set must map to a set request"),
    }
}

#[test]
fn string_vec_copies_in_order() {
    assert_eq!(string_vec(&["a", "b", ""]), ["a", "b", ""]);
}
