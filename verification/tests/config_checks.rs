use casa::config::{check, Config, Device, Group};
use casa::error::ErrorKind;
use casa::standalone;

fn echonet() -> Device {
    Device::Echonet { ip: "192.0.2.10".into(), eoj: "0x013001".into() }
}

fn matter(node: &str) -> Device {
    Device::Matter { node_id: Some(node.into()), group: None, endpoint: None }
}

fn config(devices: Vec<(&str, Device)>, groups: Vec<(&str, Vec<&str>)>) -> Config {
    Config {
        version: 1,
        devices: devices.into_iter().map(|(n, d)| (n.to_string(), d)).collect(),
        groups: groups
            .into_iter()
            .map(|(n, ms)| (n.to_string(), Group { members: ms.into_iter().map(String::from).collect() }))
            .collect(),
        binaries: vec![],
    }
}

/// An ECHONET Lite aircon and a SwitchBot lock.
fn valid() -> Config {
    config(
        vec![("entry_lock", Device::Switchbot { device_id: "DUMMY-XX-XX".into() }), ("living_aircon", echonet())],
        vec![],
    )
}

/// Two devices and a group of both.
fn valid_with_groups() -> Config {
    config(
        vec![("living_aircon", echonet()), ("living_light", matter("1234"))],
        vec![("living", vec!["living_light", "living_aircon"])],
    )
}

fn standalone_valid() -> standalone::config::Config {
    standalone::config::Config {
        version: 1,
        devices: vec![
            ("entry_lock".into(), standalone::config::Device::Switchbot { device_id: "DUMMY-XX-XX".into() }),
            (
                "living_aircon".into(),
                standalone::config::Device::Echonet { ip: "192.0.2.10".into(), eoj: "0x013001".into() },
            ),
        ],
        binaries: vec![],
    }
}

#[test]
fn parses_valid_config() {
    let config = check(valid()).unwrap();
    assert_eq!(config.version, 1);
    assert_eq!(config.devices.len(), 2);
    match config.device("living_aircon").unwrap() {
        Device::Echonet { ip, eoj } => {
            assert_eq!(ip, "192.0.2.10");
            assert_eq!(eoj, "0x013001");
        }
        other => panic!("unexpected device: {other:?}"),
    }
    match config.device("entry_lock").unwrap() {
        Device::Switchbot { device_id } => assert_eq!(device_id, "DUMMY-XX-XX"),
        other => panic!("unexpected device: {other:?}"),
    }
    // The single-binary CLI's config reads the same way.
    let config = standalone::config::check(standalone_valid()).unwrap();
    match config.device("living_aircon").unwrap() {
        standalone::config::Device::Echonet { ip, .. } => assert_eq!(ip, "192.0.2.10"),
        other => panic!("unexpected device: {other:?}"),
    }
}

#[test]
fn parses_matter_device_with_optional_endpoint() {
    let config = check(config(
        vec![
            ("living_light", matter("1234")),
            ("strip_outlet2", Device::Matter { node_id: Some("5678".into()), group: None, endpoint: Some(2) }),
        ],
        vec![],
    ))
    .unwrap();
    match config.device("living_light").unwrap() {
        Device::Matter { node_id, endpoint, .. } => {
            assert_eq!(node_id.as_deref(), Some("1234"));
            assert_eq!(*endpoint, None);
        }
        other => panic!("unexpected device: {other:?}"),
    }
    match config.device("strip_outlet2").unwrap() {
        Device::Matter { node_id, endpoint, .. } => {
            assert_eq!(node_id.as_deref(), Some("5678"));
            assert_eq!(*endpoint, Some(2));
        }
        other => panic!("unexpected device: {other:?}"),
    }
}

#[test]
fn matter_missing_node_id_is_config_parse() {
    let err = check(config(vec![("x", Device::Matter { node_id: None, group: None, endpoint: Some(1) })], vec![]))
        .unwrap_err();
    assert_eq!(err.kind, ErrorKind::ConfigParse);
    assert!(err.detail.contains("node_id"), "detail: {}", err.detail);
}

#[test]
fn matter_with_both_node_id_and_group_is_config_parse() {
    let d = Device::Matter { node_id: Some("1".into()), group: Some("g".into()), endpoint: None };
    let err = check(config(vec![("x", d)], vec![])).unwrap_err();
    assert_eq!(err.kind, ErrorKind::ConfigParse);
    assert_eq!(err.detail, "device \"x\": a matter device needs exactly one of node_id or group");
}

#[test]
fn unsupported_version_is_config_parse() {
    let mut c = valid();
    c.version = 2;
    let err = check(c).unwrap_err();
    assert_eq!(err.kind, ErrorKind::ConfigParse);
    assert!(err.detail.contains("version"), "detail: {}", err.detail);
    assert_eq!(
        err.detail,
        "unsupported config version 2 (casa supports version 1; migration is explicit, casa never rewrites your config)"
    );
    let mut s = standalone_valid();
    s.version = 2;
    let err = standalone::config::check(s).unwrap_err();
    assert_eq!(err.kind, ErrorKind::ConfigParse);
    assert!(err.detail.contains("version"), "detail: {}", err.detail);
}

#[test]
fn unknown_name_is_name_not_found() {
    let err = valid().device("no_such_device").unwrap_err();
    assert_eq!(err.kind, ErrorKind::NameNotFound);
    let err = standalone_valid().device("no_such_device").unwrap_err();
    assert_eq!(err.kind, ErrorKind::NameNotFound);
}

#[test]
fn ensure_target_accepts_device_name() {
    valid().ensure_target("living_aircon").unwrap();
}

#[test]
fn ensure_target_accepts_group_name() {
    valid_with_groups().ensure_target("living").unwrap();
}

#[test]
fn ensure_target_unknown_name_is_name_not_found() {
    let err = valid_with_groups().ensure_target("no_such_target").unwrap_err();
    assert_eq!(err.kind, ErrorKind::NameNotFound);
}

#[test]
fn parses_groups() {
    let config = check(valid_with_groups()).unwrap();
    let group = &config.groups.iter().find(|(n, _)| n == "living").unwrap().1;
    assert_eq!(group.members, vec!["living_light", "living_aircon"]);
}

#[test]
fn config_without_groups_stays_compatible() {
    let config = check(valid()).unwrap();
    assert!(config.groups.is_empty());
}

#[test]
fn group_member_not_in_devices_is_config_parse() {
    let err = check(config(vec![("a", matter("1"))], vec![("g", vec!["a", "ghost"])])).unwrap_err();
    assert_eq!(err.kind, ErrorKind::ConfigParse);
    assert!(err.detail.contains("ghost"), "detail: {}", err.detail);
    assert_eq!(err.detail, "group \"g\" member \"ghost\" is not defined in [devices]");
}

#[test]
fn group_name_colliding_with_device_is_config_parse() {
    let err = check(config(vec![("living", matter("1"))], vec![("living", vec!["living"])])).unwrap_err();
    assert_eq!(err.kind, ErrorKind::ConfigParse);
    assert!(err.detail.contains("living"), "detail: {}", err.detail);
}

#[test]
fn empty_group_is_config_parse() {
    let err = check(config(vec![], vec![("g", vec![])])).unwrap_err();
    assert_eq!(err.kind, ErrorKind::ConfigParse);
    assert!(err.detail.contains("no members"), "detail: {}", err.detail);
}

#[test]
fn nested_group_is_config_parse() {
    let err = check(config(vec![("a", matter("1"))], vec![("inner", vec!["a"]), ("outer", vec!["inner"])]))
        .unwrap_err();
    assert_eq!(err.kind, ErrorKind::ConfigParse);
    assert!(err.detail.contains("nested"), "detail: {}", err.detail);
}

#[test]
fn checked_config_groups_resolve_to_devices() {
    let config = check(valid_with_groups()).unwrap();
    for (_, g) in &config.groups {
        assert!(!g.members.is_empty());
        for m in &g.members {
            assert!(config.device(m).is_ok());
        }
    }
}

#[test]
fn protocol_names_follow_the_config_words() {
    assert_eq!(echonet().protocol(), "echonet");
    assert_eq!(matter("1").protocol(), "matter");
    assert_eq!(Device::Switchbot { device_id: "x".into() }.protocol(), "switchbot");
    assert_eq!(Device::Androidtv { host: "h".into() }.protocol(), "androidtv");
}

#[test]
fn name_lists_in_ascending_order_are_well_formed() {
    assert!(valid().well_formed());
    assert!(valid_with_groups().well_formed());
    assert!(standalone_valid().well_formed());
    assert!(config(vec![], vec![]).well_formed());
}

#[test]
fn name_lists_out_of_order_or_repeated_are_not_well_formed() {
    assert!(!config(vec![("living_aircon", echonet()), ("entry_lock", echonet())], vec![]).well_formed());
    assert!(!config(vec![("a", echonet()), ("a", matter("1"))], vec![]).well_formed());
    assert!(!config(vec![("a", echonet())], vec![("g", vec!["a"]), ("g", vec!["a"])]).well_formed());
    let mut s = standalone_valid();
    s.binaries = vec![("mat".into(), "/opt/mat".into()), ("enl".into(), "/opt/enl".into())];
    assert!(!s.well_formed());
    // Code point order: upper case comes before lower case.
    assert!(config(vec![("Zeta", echonet()), ("alpha", echonet())], vec![]).well_formed());
}
