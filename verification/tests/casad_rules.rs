use casa::casad::rules::{check, ActiveWindow, Rule, RuleFile, Settings, Then, Thens, Trigger};
use casa::config::{Config, Device, Group};
use casa::error::ErrorKind;
use casa::json::{JsonNumber, JsonValue};

fn file(rules: Vec<Rule>) -> RuleFile {
    RuleFile { version: 1, settings: Settings::default(), rules }
}

fn rule(name: &str, when: Trigger, thens: Thens) -> Rule {
    Rule { name: name.into(), when, active: None, thens }
}

fn at(t: &str) -> Trigger {
    Trigger::Time { at: t.into() }
}

fn on(device: &str) -> Then {
    Then::On { device: device.into() }
}

fn off(device: &str) -> Then {
    Then::Off { device: device.into() }
}

fn matter_trigger(device: &str) -> Trigger {
    Trigger::MatterEvent {
        device: device.into(),
        attribute: "occupancy".into(),
        equals: JsonValue::Number(JsonNumber::PosInt(0)),
    }
}

fn echonet(ip: &str, eoj: &str) -> Device {
    Device::Echonet { ip: ip.into(), eoj: eoj.into() }
}

fn matter(node: &str) -> Device {
    Device::Matter { node_id: Some(node.into()), group: None, endpoint: None }
}

/// An event rule and a time rule.
fn valid() -> RuleFile {
    file(vec![
        rule(
            "帰宅で廊下灯",
            Trigger::Event { device: "entry_motion".into(), epc: "0x80".into(), equals: "0x30".into() },
            Thens::One(on("hallway_light")),
        ),
        rule("就寝時刻で消灯", at("22:00"), Thens::One(off("hallway_light"))),
    ])
}

fn config_with_devices() -> Config {
    Config {
        version: 1,
        devices: vec![
            ("entry_motion".into(), echonet("192.0.2.10", "0x000701")),
            ("hallway_light".into(), echonet("192.0.2.11", "0x029001")),
        ],
        groups: vec![],
        binaries: vec![],
    }
}

fn config_with_matter() -> Config {
    Config {
        version: 1,
        devices: vec![
            ("alias_node".into(), matter("not_a_number")),
            ("desk_tape_light".into(), matter("6")),
            ("study_motion".into(), matter("16")),
            ("washstand_light".into(), echonet("192.0.2.11", "0x029101")),
        ],
        groups: vec![],
        binaries: vec![],
    }
}

#[test]
fn settings_default_when_absent() {
    let s = Settings::default();
    assert_eq!(s.off_grace_secs, 30);
    assert_eq!(s.min_gap_secs, 2);
}

#[test]
fn parses_event_and_time_rules() {
    let f = check(valid()).unwrap();
    assert_eq!(f.rules.len(), 2);
    assert!(matches!(f.rules[0].when, Trigger::Event { .. }));
    assert!(matches!(f.rules[1].when, Trigger::Time { .. }));
    assert!(matches!(f.rules[0].thens.actions()[0], Then::On { .. }));
}

#[test]
fn rejects_unsupported_version() {
    let mut f = valid();
    f.version = 2;
    let err = check(f).unwrap_err();
    assert_eq!(err.kind, ErrorKind::ConfigParse);
}

#[test]
fn validate_accepts_existing_devices() {
    valid().validate(&config_with_devices()).unwrap();
}

#[test]
fn validate_accepts_group_as_then_device() {
    let mut config = config_with_devices();
    config.devices.push(("hallway_light2".into(), echonet("192.0.2.12", "0x029001")));
    config.groups.push(("hallway".into(), Group { members: vec!["hallway_light".into(), "hallway_light2".into()] }));
    let f = file(vec![rule(
        "帰宅で廊下灯グループ点灯",
        Trigger::Event { device: "entry_motion".into(), epc: "0x80".into(), equals: "0x30".into() },
        Thens::One(on("hallway")),
    )]);
    f.validate(&config).unwrap();
}

#[test]
fn validate_rejects_unknown_device_reference() {
    let f = file(vec![rule("未定義デバイス参照", at("07:00"), Thens::One(on("ghost_device")))]);
    let err = f.validate(&config_with_devices()).unwrap_err();
    assert_eq!(err.kind, ErrorKind::NameNotFound);
    assert!(err.detail.contains("未定義デバイス参照"));
}

#[test]
fn validate_rejects_unknown_trigger_device() {
    let f = file(vec![rule(
        "未定義トリガ",
        Trigger::Event { device: "ghost_sensor".into(), epc: "0x80".into(), equals: "0x30".into() },
        Thens::One(on("hallway_light")),
    )]);
    let err = f.validate(&config_with_devices()).unwrap_err();
    assert_eq!(err.kind, ErrorKind::NameNotFound);
    assert!(err.detail.contains("未定義トリガ") && err.detail.contains("ghost_sensor"), "detail: {}", err.detail);
}

#[test]
fn validate_accepts_matter_event_rule() {
    let f = file(vec![rule("人感OFFで消灯", matter_trigger("study_motion"), Thens::One(off("desk_tape_light")))]);
    f.validate(&config_with_matter()).unwrap();
}

#[test]
fn validate_rejects_matter_trigger_on_echonet_device() {
    let f = file(vec![rule("プロトコル不一致", matter_trigger("washstand_light"), Thens::One(off("desk_tape_light")))]);
    let err = f.validate(&config_with_matter()).unwrap_err();
    assert_eq!(err.kind, ErrorKind::ProtocolUnsupported);
    assert!(err.detail.contains("プロトコル不一致"));
}

#[test]
fn validate_rejects_non_numeric_node_id_for_matter_trigger() {
    let f = file(vec![rule("数値でないnode_id", matter_trigger("alias_node"), Thens::One(off("desk_tape_light")))]);
    let err = f.validate(&config_with_matter()).unwrap_err();
    assert_eq!(err.kind, ErrorKind::ConfigParse);
    assert!(err.detail.contains("数値でないnode_id"));
}

#[test]
fn parses_then_array_in_declaration_order() {
    let r = rule(
        "人感ONでまとめて点灯",
        at("18:00"),
        Thens::Many(vec![
            on("hallway_light"),
            Then::Invoke {
                device: "hallway_light".into(),
                command: "color-temp".into(),
                args: vec!["--kelvin".into(), "2700".into()],
            },
            off("entry_motion"),
        ]),
    );
    let actions = r.thens.actions();
    assert_eq!(actions.len(), 3);
    assert!(matches!(actions[0], Then::On { .. }));
    assert!(matches!(actions[1], Then::Invoke { .. }));
    assert!(matches!(actions[2], Then::Off { .. }));
    assert_eq!(actions[0].device(), "hallway_light");
    assert_eq!(actions[2].device(), "entry_motion");
}

#[test]
fn single_then_table_yields_one_action() {
    let f = valid();
    let actions = f.rules[0].thens.actions();
    assert_eq!(actions.len(), 1);
    assert!(matches!(actions[0], Then::On { .. }));
}

#[test]
fn single_and_array_forms_can_coexist_in_one_file() {
    let f = check(file(vec![
        rule("単一形", at("07:00"), Thens::One(on("hallway_light"))),
        rule("配列形", at("22:00"), Thens::Many(vec![off("hallway_light"), off("entry_motion")])),
    ]))
    .unwrap();
    assert_eq!(f.rules[0].thens.actions().len(), 1);
    assert_eq!(f.rules[1].thens.actions().len(), 2);
}

#[test]
fn empty_then_array_is_config_parse_error_naming_the_rule() {
    let err = check(file(vec![rule("空のthen", at("07:00"), Thens::Many(vec![]))])).unwrap_err();
    assert_eq!(err.kind, ErrorKind::ConfigParse);
    assert!(err.detail.contains("空のthen"), "detail should name the rule: {}", err.detail);
}

#[test]
fn undefined_device_anywhere_in_then_array_fails_validation() {
    let f = file(vec![rule(
        "2番目が未定義",
        at("07:00"),
        Thens::Many(vec![on("hallway_light"), on("no_such_device")]),
    )]);
    let err = f.validate(&config_with_devices()).unwrap_err();
    assert_eq!(err.kind, ErrorKind::NameNotFound);
    assert!(
        err.detail.contains("2番目が未定義") && err.detail.contains("no_such_device"),
        "detail should name rule and device: {}",
        err.detail
    );
}

#[test]
fn parses_active_window() {
    let mut r = rule("昼だけ扇風機", matter_trigger("study_motion"), Thens::One(on("study_fan")));
    r.active = Some(ActiveWindow { from: "06:00".into(), to: "21:00".into() });
    let w = r.active.as_ref().expect("active is None");
    assert_eq!(w.from, "06:00");
    assert_eq!(w.to, "21:00");
}

#[test]
fn casa_args_with_invoke_and_no_config() {
    let t = Then::Invoke { device: "tv".into(), command: "blink".into(), args: vec![] };
    assert_eq!(t.casa_args(None), ["invoke", "tv", "blink"]);
    assert_eq!(off("tv").casa_args(None), ["off", "tv"]);
}
