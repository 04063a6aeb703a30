use casa::casad::engine::{
    due_event_rules, due_matter_event_rules, due_time_rules, event_matches, jobs, listeners_needed,
    matter_event_matches, norm_hex, parse_hm, rule_is_active, time_in_window, validate_schedule, TimeOfDay,
};
use casa::casad::enl;
use casa::casad::mat;
use casa::casad::rules::{ActiveWindow, Rule, RuleFile, Settings, Then, Thens, Trigger};
use casa::config::{Config, Device};
use casa::error::ErrorKind;
use casa::json::{JsonNumber, JsonValue};

fn at(hour: u32, minute: u32) -> TimeOfDay {
    TimeOfDay { hour, minute }
}

fn file(rules: Vec<Rule>) -> RuleFile {
    RuleFile { version: 1, settings: Settings::default(), rules }
}

fn on(device: &str) -> Then {
    Then::On { device: device.into() }
}

fn off(device: &str) -> Then {
    Then::Off { device: device.into() }
}

fn time_rule(name: &str, at: &str, then: Then) -> Rule {
    Rule { name: name.into(), when: Trigger::Time { at: at.into() }, active: None, thens: Thens::One(then) }
}

fn event_rule(name: &str, device: &str, epc: &str, equals: &str, then: Then) -> Rule {
    Rule {
        name: name.into(),
        when: Trigger::Event { device: device.into(), epc: epc.into(), equals: equals.into() },
        active: None,
        thens: Thens::One(then),
    }
}

fn matter_rule(name: &str, device: &str, attribute: &str, equals: JsonValue, then: Then) -> Rule {
    Rule {
        name: name.into(),
        when: Trigger::MatterEvent { device: device.into(), attribute: attribute.into(), equals },
        active: None,
        thens: Thens::One(then),
    }
}

fn window(mut rule: Rule, from: &str, to: &str) -> Rule {
    rule.active = Some(ActiveWindow { from: from.into(), to: to.into() });
    rule
}

fn num(n: u64) -> JsonValue {
    JsonValue::Number(JsonNumber::PosInt(n))
}

fn text(s: &str) -> JsonValue {
    JsonValue::String(s.into())
}

/// Two time rules and one event rule.
fn schedule() -> RuleFile {
    file(vec![
        time_rule("朝点灯", "07:00", on("living_aircon")),
        time_rule("夜消灯", "22:00", off("living_aircon")),
        event_rule("状変イベント", "living_aircon", "0x80", "0x30", on("living_aircon")),
    ])
}

fn config_living() -> Config {
    Config {
        version: 1,
        devices: vec![
            ("entry_lock".into(), Device::Switchbot { device_id: "DUMMY".into() }),
            ("living_aircon".into(), Device::Echonet { ip: "192.0.2.10".into(), eoj: "0x013001".into() }),
        ],
        groups: vec![],
        binaries: vec![],
    }
}

fn config_matter() -> Config {
    Config {
        version: 1,
        devices: vec![
            ("desk_tape_light".into(), Device::Matter { node_id: Some("6".into()), group: None, endpoint: None }),
            ("outlet2".into(), Device::Matter { node_id: Some("5678".into()), group: None, endpoint: Some(2) }),
            ("study_motion".into(), Device::Matter { node_id: Some("16".into()), group: None, endpoint: None }),
        ],
        groups: vec![],
        binaries: vec![],
    }
}

fn event(ip: &str, seoj: &str, epc: &str, edt: &str) -> enl::Event {
    enl::Event {
        ip: ip.into(),
        seoj: seoj.into(),
        properties: vec![enl::Prop { epc: epc.into(), edt_hex: edt.into() }],
    }
}

fn mat_event(node_id: u64, endpoint: u64, attribute: &str, value: JsonValue) -> mat::Event {
    mat::Event {
        node_id,
        endpoint,
        cluster: text("occupancysensing"),
        attribute: text(attribute),
        value,
        priming: false,
        recovered: false,
    }
}

fn matter_file() -> RuleFile {
    file(vec![matter_rule("人感OFFで消灯", "study_motion", "occupancy", num(0), off("desk_tape_light"))])
}

fn names(f: &RuleFile, idx: &[usize]) -> Vec<String> {
    idx.iter().map(|&i| f.rules[i].name.clone()).collect()
}

#[test]
fn parse_hm_accepts_padded_time() {
    assert_eq!(parse_hm("22:00").unwrap(), at(22, 0));
    assert_eq!(parse_hm("07:05").unwrap(), at(7, 5));
}

#[test]
fn parse_hm_rejects_garbage() {
    assert_eq!(parse_hm("9am").unwrap_err().kind, ErrorKind::ConfigParse);
    assert_eq!(parse_hm("25:00").unwrap_err().kind, ErrorKind::ConfigParse);
}

#[test]
fn parse_hm_error_names_the_text() {
    let err = parse_hm("7am").unwrap_err();
    assert!(err.detail.starts_with("invalid time \"7am\" (expected HH:MM): "), "detail: {}", err.detail);
}

#[test]
fn due_returns_only_rules_matching_the_minute() {
    let f = schedule();
    let due = due_time_rules(&f, at(22, 0));
    assert_eq!(names(&f, &due), ["夜消灯"]);
}

#[test]
fn due_ignores_non_matching_minute_and_events() {
    let f = schedule();
    assert!(due_time_rules(&f, at(12, 34)).is_empty());
    assert!(due_time_rules(&f, at(7, 1)).is_empty());
}

#[test]
fn event_matches_with_hex_normalization() {
    let f = file(vec![event_rule("電源ONで点灯", "living_aircon", "0x80", "0x30", on("living_aircon"))]);
    let ev = event("192.0.2.10", "013001", "80", "30");
    assert!(event_matches(&f.rules[0], &config_living(), &ev));
}

#[test]
fn event_does_not_match_on_value_or_source_mismatch() {
    let f = file(vec![event_rule("電源ONで点灯", "living_aircon", "0x80", "0x30", on("living_aircon"))]);
    let cfg = config_living();
    assert!(!event_matches(&f.rules[0], &cfg, &event("192.0.2.10", "013001", "80", "31")));
    assert!(!event_matches(&f.rules[0], &cfg, &event("192.0.2.10", "013001", "B0", "30")));
    assert!(!event_matches(&f.rules[0], &cfg, &event("192.0.2.99", "013001", "80", "30")));
    assert!(!event_matches(&f.rules[0], &cfg, &event("192.0.2.10", "029101", "80", "30")));
}

#[test]
fn event_for_non_echonet_or_unknown_device_never_matches() {
    let cfg = config_living();
    let ev = event("192.0.2.10", "013001", "80", "30");
    let lock = event_rule("鍵", "entry_lock", "0x80", "0x30", on("living_aircon"));
    assert!(!event_matches(&lock, &cfg, &ev));
    let ghost = event_rule("不明", "no_such_device", "0x80", "0x30", on("living_aircon"));
    assert!(!event_matches(&ghost, &cfg, &ev));
    let timed = time_rule("時刻", "07:00", on("living_aircon"));
    assert!(!event_matches(&timed, &cfg, &ev));
}

#[test]
fn event_matches_any_property_of_the_notification() {
    let f = file(vec![event_rule("電源ONで点灯", "living_aircon", "0x80", "0x30", on("living_aircon"))]);
    let ev = enl::Event {
        ip: "192.0.2.10".into(),
        seoj: "0x013001".into(),
        properties: vec![
            enl::Prop { epc: "B0".into(), edt_hex: "42".into() },
            enl::Prop { epc: "0x80".into(), edt_hex: "0X30".into() },
        ],
    };
    assert!(event_matches(&f.rules[0], &config_living(), &ev));
}

#[test]
fn fire_due_events_matches_event_rules_only() {
    let f = schedule();
    let cfg = config_living();
    let ev = event("192.0.2.10", "013001", "80", "30");
    let due: Vec<&Rule> = f
        .rules
        .iter()
        .filter(|r| matches!(r.when, Trigger::Event { .. }))
        .filter(|r| event_matches(r, &cfg, &ev))
        .collect();
    assert_eq!(due.len(), 1);
    assert_eq!(due[0].name, "状変イベント");
    let due = due_event_rules(&f, &cfg, &[ev], at(12, 0));
    assert_eq!(names(&f, &due), ["状変イベント"]);
}

#[test]
fn due_event_rules_lists_a_rule_once_for_many_matching_events() {
    let f = schedule();
    let cfg = config_living();
    let evs = [event("192.0.2.10", "013001", "80", "30"), event("192.0.2.10", "013001", "80", "30")];
    assert_eq!(due_event_rules(&f, &cfg, &evs, at(12, 0)), [2]);
}

#[test]
fn validate_schedule_flags_bad_time_with_rule_name() {
    let f = file(vec![time_rule("壊れた時刻", "7am", on("living_aircon"))]);
    let err = validate_schedule(&f).unwrap_err();
    assert_eq!(err.kind, ErrorKind::ConfigParse);
    assert!(err.detail.contains("壊れた時刻"));
}

#[test]
fn matter_event_matches_on_node_attribute_value() {
    let f = matter_file();
    let ev = mat_event(16, 1, "occupancy", num(0));
    assert!(matter_event_matches(&f.rules[0], &config_matter(), &ev));
}

#[test]
fn matter_event_attribute_is_case_insensitive() {
    let f = matter_file();
    let ev = mat_event(16, 1, "Occupancy", num(0));
    assert!(matter_event_matches(&f.rules[0], &config_matter(), &ev));
}

#[test]
fn matter_event_does_not_match_on_mismatch() {
    let f = matter_file();
    let cfg = config_matter();
    assert!(!matter_event_matches(&f.rules[0], &cfg, &mat_event(6, 1, "occupancy", num(0))));
    assert!(!matter_event_matches(&f.rules[0], &cfg, &mat_event(16, 1, "onoff", num(0))));
    assert!(!matter_event_matches(&f.rules[0], &cfg, &mat_event(16, 1, "occupancy", num(1))));
    assert!(!matter_event_matches(&f.rules[0], &cfg, &mat_event(16, 1, "occupancy", text("0"))));
}

#[test]
fn matter_event_priming_never_matches() {
    let f = matter_file();
    let mut ev = mat_event(16, 1, "occupancy", num(0));
    ev.priming = true;
    assert!(!matter_event_matches(&f.rules[0], &config_matter(), &ev));
}

#[test]
fn matter_event_recovered_change_still_matches() {
    let f = matter_file();
    let mut ev = mat_event(16, 1, "occupancy", num(0));
    ev.recovered = true;
    assert!(matter_event_matches(&f.rules[0], &config_matter(), &ev));
}

#[test]
fn matter_event_endpoint_filter_applies_only_when_configured() {
    let cfg = config_matter();
    let f = file(vec![matter_rule("outlet2", "outlet2", "onoff", JsonValue::Bool(true), off("desk_tape_light"))]);
    assert!(matter_event_matches(&f.rules[0], &cfg, &mat_event(5678, 2, "onoff", JsonValue::Bool(true))));
    assert!(!matter_event_matches(&f.rules[0], &cfg, &mat_event(5678, 1, "onoff", JsonValue::Bool(true))));
    let f = matter_file();
    assert!(matter_event_matches(&f.rules[0], &cfg, &mat_event(16, 3, "occupancy", num(0))));
}

#[test]
fn matter_numeric_attribute_matches_numeric_rule() {
    let cfg = config_matter();
    let f = file(vec![matter_rule("数値属性", "study_motion", "0", num(0), off("desk_tape_light"))]);
    let mut ev = mat_event(16, 1, "occupancy", num(0));
    ev.attribute = num(0);
    assert!(matter_event_matches(&f.rules[0], &cfg, &ev));
}

#[test]
fn due_matter_event_rules_ignores_echonet_and_time_rules() {
    let cfg = config_matter();
    let f = file(vec![
        time_rule("時刻", "22:00", off("desk_tape_light")),
        matter_rule("人感OFFで消灯", "study_motion", "occupancy", num(0), off("desk_tape_light")),
    ]);
    let ev = mat_event(16, 1, "occupancy", num(0));
    let due = due_matter_event_rules(&f, &cfg, &[ev], at(12, 0));
    assert_eq!(names(&f, &due), ["人感OFFで消灯"]);
}

#[test]
fn jobs_expands_actions_in_declaration_order() {
    let f = file(vec![Rule {
        name: "まとめて点灯".into(),
        when: Trigger::Time { at: "07:00".into() },
        active: None,
        thens: Thens::Many(vec![
            on("living_aircon"),
            Then::Invoke {
                device: "living_aircon".into(),
                command: "color-temp".into(),
                args: vec!["--kelvin".into(), "2700".into()],
            },
            on("entry_lock"),
        ]),
    }]);
    let js = jobs(&f, &[0]);
    assert_eq!(js.len(), 3);
    assert_eq!(js[0].action.device(), "living_aircon");
    assert!(matches!(js[0].action, Then::On { .. }));
    assert!(matches!(js[1].action, Then::Invoke { .. }));
    assert_eq!(js[2].action.device(), "entry_lock");
    assert!(js.iter().all(|j| j.rule.name == "まとめて点灯"));
}

#[test]
fn jobs_follow_the_order_of_the_due_rules() {
    let f = schedule();
    let js = jobs(&f, &[1, 0]);
    assert_eq!(js.len(), 2);
    assert_eq!(js[0].rule.name, "夜消灯");
    assert_eq!(js[1].rule.name, "朝点灯");
    assert!(jobs(&f, &[]).is_empty());
}

#[test]
fn active_window_includes_from_and_excludes_to() {
    let r = window(time_rule("窓つき", "12:00", on("living_aircon")), "06:00", "21:00");
    assert!(rule_is_active(&r, at(6, 0)));
    assert!(rule_is_active(&r, at(12, 34)));
    assert!(rule_is_active(&r, at(20, 59)));
    assert!(!rule_is_active(&r, at(21, 0)));
    assert!(!rule_is_active(&r, at(5, 59)));
    assert!(!rule_is_active(&r, at(23, 0)));
}

#[test]
fn active_window_wraps_over_midnight() {
    let r = window(time_rule("窓つき", "12:00", on("living_aircon")), "21:00", "06:00");
    assert!(rule_is_active(&r, at(21, 0)));
    assert!(rule_is_active(&r, at(23, 59)));
    assert!(rule_is_active(&r, at(0, 0)));
    assert!(rule_is_active(&r, at(5, 59)));
    assert!(!rule_is_active(&r, at(6, 0)));
    assert!(!rule_is_active(&r, at(12, 0)));
}

#[test]
fn malformed_window_is_never_active() {
    let r = window(time_rule("窓つき", "12:00", on("living_aircon")), "6am", "21:00");
    assert!(!rule_is_active(&r, at(12, 0)));
    let r = window(time_rule("窓つき", "12:00", on("living_aircon")), "06:00", "06:00");
    assert!(!rule_is_active(&r, at(6, 0)));
}

#[test]
fn rule_without_active_window_is_always_active() {
    let f = schedule();
    for r in &f.rules {
        assert!(rule_is_active(r, at(0, 0)));
        assert!(rule_is_active(r, at(13, 37)));
        assert!(rule_is_active(r, at(23, 59)));
    }
}

#[test]
fn window_and_its_reverse_split_every_minute() {
    let (a, b) = (at(21, 0), at(6, 0));
    for h in 0..24 {
        for m in 0..60 {
            let t = at(h, m);
            assert!(time_in_window(t, a, b) != time_in_window(t, b, a));
        }
    }
}

#[test]
fn validate_schedule_rejects_malformed_active_window() {
    let f = file(vec![window(time_rule("窓つき", "12:00", on("living_aircon")), "6am", "21:00")]);
    let err = validate_schedule(&f).unwrap_err();
    assert_eq!(err.kind, ErrorKind::ConfigParse);
    assert!(err.detail.contains("窓つき"), "detail: {}", err.detail);
}

#[test]
fn validate_schedule_rejects_zero_width_active_window() {
    let f = file(vec![window(time_rule("窓つき", "12:00", on("living_aircon")), "06:00", "06:00")]);
    let err = validate_schedule(&f).unwrap_err();
    assert_eq!(err.kind, ErrorKind::ConfigParse);
    assert!(err.detail.contains("窓つき"), "detail: {}", err.detail);
}

fn rule_with_at_and_window(at: &str, from: &str, to: &str) -> RuleFile {
    file(vec![window(time_rule("窓外トリガ", at, off("living_aircon")), from, to)])
}

#[test]
fn validate_schedule_rejects_at_equal_to_window_to() {
    let f = rule_with_at_and_window("21:00", "06:00", "21:00");
    let err = validate_schedule(&f).unwrap_err();
    assert_eq!(err.kind, ErrorKind::ConfigParse);
    assert!(err.detail.contains("窓外トリガ"), "detail: {}", err.detail);
    assert!(err.detail.contains("21:00"), "detail: {}", err.detail);
    assert!(err.detail.contains("06:00"), "detail: {}", err.detail);
}

#[test]
fn validate_schedule_accepts_at_equal_to_window_from() {
    assert!(validate_schedule(&rule_with_at_and_window("06:00", "06:00", "21:00")).is_ok());
}

#[test]
fn validate_schedule_accepts_at_inside_wrapping_window() {
    assert!(validate_schedule(&rule_with_at_and_window("23:00", "21:00", "06:00")).is_ok());
    assert!(validate_schedule(&rule_with_at_and_window("03:00", "21:00", "06:00")).is_ok());
}

#[test]
fn validate_schedule_rejects_at_outside_wrapping_window() {
    let err = validate_schedule(&rule_with_at_and_window("12:00", "21:00", "06:00")).unwrap_err();
    assert_eq!(err.kind, ErrorKind::ConfigParse);
    assert!(err.detail.contains("窓外トリガ"), "detail: {}", err.detail);
}

#[test]
fn validate_schedule_allows_event_trigger_with_active_window() {
    let f = file(vec![window(
        event_rule("窓つきイベント", "living_aircon", "0x80", "0x30", on("living_aircon")),
        "06:00",
        "21:00",
    )]);
    assert!(validate_schedule(&f).is_ok());
}

#[test]
fn accepted_time_rule_is_due_at_its_own_time() {
    let f = rule_with_at_and_window("23:00", "21:00", "06:00");
    assert!(validate_schedule(&f).is_ok());
    assert_eq!(due_time_rules(&f, at(23, 0)), [0]);
}

#[test]
fn due_time_rules_respects_active_window() {
    let f = file(vec![
        window(time_rule("窓外の時刻トリガ", "22:00", off("living_aircon")), "06:00", "21:00"),
        window(time_rule("窓内の時刻トリガ", "12:00", off("living_aircon")), "06:00", "21:00"),
    ]);
    assert!(due_time_rules(&f, at(22, 0)).is_empty());
    let due = due_time_rules(&f, at(12, 0));
    assert_eq!(names(&f, &due), ["窓内の時刻トリガ"]);
}

#[test]
fn due_event_rules_respects_active_window() {
    let f = file(vec![window(
        event_rule("昼だけ電源ONで点灯", "living_aircon", "0x80", "0x30", on("living_aircon")),
        "06:00",
        "21:00",
    )]);
    let cfg = config_living();
    assert_eq!(due_event_rules(&f, &cfg, &[event("192.0.2.10", "013001", "80", "30")], at(12, 0)).len(), 1);
    assert!(due_event_rules(&f, &cfg, &[event("192.0.2.10", "013001", "80", "30")], at(3, 0)).is_empty());
}

#[test]
fn due_matter_event_rules_respects_active_window() {
    let f = file(vec![window(
        matter_rule("書斎 不在で扇風機ON", "study_motion", "occupancy", num(0), on("desk_tape_light")),
        "06:00",
        "21:00",
    )]);
    let cfg = config_matter();
    let inside = due_matter_event_rules(&f, &cfg, &[mat_event(16, 1, "occupancy", num(0))], at(12, 0));
    assert_eq!(inside.len(), 1);
    let outside = due_matter_event_rules(&f, &cfg, &[mat_event(16, 1, "occupancy", num(0))], at(21, 30));
    assert!(outside.is_empty());
}

#[test]
fn windowless_rules_still_fire_at_any_time() {
    let f = schedule();
    assert_eq!(due_time_rules(&f, at(22, 0)).len(), 1);
    let cfg = config_living();
    assert_eq!(due_event_rules(&f, &cfg, &[event("192.0.2.10", "013001", "80", "30")], at(3, 0)).len(), 1);
    let mf = matter_file();
    let mcfg = config_matter();
    assert_eq!(due_matter_event_rules(&mf, &mcfg, &[mat_event(16, 1, "occupancy", num(0))], at(3, 0)).len(), 1);
}

#[test]
fn norm_hex_strips_prefix_and_upper_cases() {
    assert_eq!(norm_hex(" 0x013001 "), "013001");
    assert_eq!(norm_hex("0Xb0"), "B0");
    assert_eq!(norm_hex("30"), "30");
    assert_eq!(norm_hex("0x"), "");
}

#[test]
fn listeners_follow_the_trigger_kinds() {
    assert_eq!(listeners_needed(&schedule()), (true, false));
    assert_eq!(listeners_needed(&matter_file()), (false, true));
    assert_eq!(listeners_needed(&file(vec![time_rule("t", "07:00", on("a"))])), (false, false));
}

#[test]
fn due_rules_come_in_file_order_once_each() {
    let f = file(vec![
        time_rule("a", "07:00", on("x")),
        time_rule("b", "08:00", on("x")),
        time_rule("c", "07:00", on("y")),
        time_rule("d", "07:00", off("y")),
    ]);
    assert_eq!(due_time_rules(&f, at(7, 0)), [0, 2, 3]);
    let js = jobs(&f, &due_time_rules(&f, at(7, 0)));
    let order: Vec<&str> = js.iter().map(|j| j.rule.name.as_str()).collect();
    assert_eq!(order, ["a", "c", "d"]);
}

#[test]
fn now_override_wins_over_the_clock() {
    assert_eq!(casa::casad::engine::now_or(Some(at(22, 0))), at(22, 0));
    let t = casa::casad::engine::now_or(None);
    assert!(t.hour < 24 && t.minute < 60);
}

#[test]
fn trim_drops_unicode_white_space_at_both_ends() {
    assert_eq!(casa::text::trim("\u{a0} 0x80\t\u{3000}\n"), "0x80");
    assert_eq!(casa::text::trim("a b"), "a b");
    assert_eq!(casa::text::trim(" \u{2028}\u{85} "), "");
    assert_eq!(casa::text::trim(""), "");
    // U+200B (zero width space) is not white space.
    assert_eq!(casa::text::trim("\u{200b}x "), "\u{200b}x");
    for c in ['\u{9}', '\u{d}', ' ', '\u{1680}', '\u{2000}', '\u{200a}', '\u{2029}', '\u{202f}', '\u{205f}'] {
        assert!(casa::text::is_white_space_char(c));
        let padded = format!("{c}v{c}");
        assert_eq!(casa::text::trim(&padded), padded.trim());
    }
    assert!(!casa::text::is_white_space_char('\u{200b}'));
}
