use casa::config::{Device, Group};
use casa::error::{CasaError, ErrorKind};
use casa::json::{JsonNumber, JsonValue};
use casa::ops::{NoAdapterWarning, Operation, ValidationSummary};
use casa::output::{
    describe_response, device_entry, device_response, error_json, group_entry, group_member_result, group_response,
    invoke_response, list_response, validate_response, GroupResponse, MemberFailure, MemberResult,
};

/// Renders a value compactly, the way serde_json prints it (keys as held).
fn render(v: &JsonValue) -> String {
    match v {
        JsonValue::Null => "null".into(),
        JsonValue::Bool(b) => b.to_string(),
        JsonValue::Number(JsonNumber::PosInt(n)) => n.to_string(),
        JsonValue::Number(JsonNumber::NegInt(n)) => n.to_string(),
        JsonValue::Number(JsonNumber::Float(bits)) => f64::from_bits(*bits).to_string(),
        JsonValue::String(s) => format!("{s:?}"),
        JsonValue::Array(a) => format!("[{}]", a.iter().map(render).collect::<Vec<_>>().join(",")),
        JsonValue::Object(m) => {
            format!("{{{}}}", m.iter().map(|(k, v)| format!("{k:?}:{}", render(v))).collect::<Vec<_>>().join(","))
        }
    }
}

fn aircon() -> Device {
    Device::Echonet { ip: "192.0.2.10".into(), eoj: "0x013001".into() }
}

fn power_on() -> JsonValue {
    JsonValue::Object(vec![("power".into(), JsonValue::String("on".into()))])
}

#[test]
fn device_entry_merges_name_and_fields() {
    let entry = device_entry("living_aircon", &aircon());
    assert_eq!(
        render(&entry),
        r#"{"eoj":"0x013001","ip":"192.0.2.10","name":"living_aircon","protocol":"echonet"}"#
    );
}

#[test]
fn device_entry_of_matter_shows_unset_fields_as_null() {
    let d = Device::Matter { node_id: Some("1234".into()), group: None, endpoint: Some(2) };
    assert_eq!(
        render(&device_entry("outlet", &d)),
        r#"{"endpoint":2,"group":null,"name":"outlet","node_id":"1234","protocol":"matter"}"#
    );
    let d = Device::Switchbot { device_id: "DUMMY".into() };
    assert_eq!(render(&device_entry("lock", &d)), r#"{"device_id":"DUMMY","name":"lock","protocol":"switchbot"}"#);
}

#[test]
fn group_member_result_ok_shape() {
    let r = MemberResult { device: "living_aircon".into(), protocol: "echonet", outcome: Ok(power_on()) };
    assert_eq!(
        render(&group_member_result(r)),
        r#"{"device":"living_aircon","ok":true,"protocol":"echonet","value":{"power":"on"}}"#
    );
}

#[test]
fn group_member_result_error_shape() {
    let f = MemberFailure { kind: ErrorKind::ChildFailed(3), detail: "timeout".into() };
    let r = MemberResult { device: "living_aircon".into(), protocol: "echonet", outcome: Err(f) };
    assert_eq!(
        render(&group_member_result(r)),
        r#"{"device":"living_aircon","error":{"detail":"timeout","exit_code":3,"kind":"child_failed"},"ok":false,"protocol":"echonet"}"#
    );
}

#[test]
fn negative_child_exit_code_stays_negative() {
    let f = MemberFailure { kind: ErrorKind::ChildFailed(-1), detail: "x".into() };
    let r = MemberResult { device: "d".into(), protocol: "echonet", outcome: Err(f) };
    assert!(render(&group_member_result(r)).contains(r#""exit_code":-1"#));
}

#[test]
fn group_response_has_timestamp_group_results() {
    let resp = GroupResponse {
        group: "living".into(),
        command: None,
        results: vec![MemberResult { device: "a".into(), protocol: "matter", outcome: Ok(JsonValue::Null) }],
    };
    assert_eq!(
        render(&group_response("2026-06-02T12:34:56+09:00", resp)),
        r#"{"group":"living","results":[{"device":"a","ok":true,"protocol":"matter","value":null}],"timestamp":"2026-06-02T12:34:56+09:00"}"#
    );
}

#[test]
fn group_response_of_invoke_carries_the_command() {
    let resp = GroupResponse { group: "living".into(), command: Some("blink".into()), results: vec![] };
    assert_eq!(render(&group_response("t", resp)), r#"{"command":"blink","group":"living","results":[],"timestamp":"t"}"#);
}

#[test]
fn list_response_includes_groups() {
    let group = Group { members: vec!["a".into(), "b".into()] };
    let response = list_response("t", vec![], vec![group_entry("living", &group)]);
    assert_eq!(render(&response), r#"{"devices":[],"groups":[{"members":["a","b"],"name":"living"}],"timestamp":"t"}"#);
}

#[test]
fn device_invoke_and_describe_envelopes() {
    assert_eq!(
        render(&device_response("t", "living_aircon", &aircon(), power_on())),
        r#"{"device":"living_aircon","protocol":"echonet","timestamp":"t","value":{"power":"on"}}"#
    );
    assert_eq!(
        render(&invoke_response("t", "living_aircon", &aircon(), "blink", JsonValue::Null)),
        r#"{"command":"blink","device":"living_aircon","protocol":"echonet","timestamp":"t","value":null}"#
    );
    assert_eq!(
        render(&describe_response("t", "living_aircon", &aircon(), JsonValue::Array(vec![]))),
        r#"{"device":"living_aircon","properties":[],"protocol":"echonet","timestamp":"t"}"#
    );
}

#[test]
fn validate_response_shape() {
    let s = ValidationSummary {
        version: 1,
        device_count: 2,
        group_count: 0,
        protocols: vec![("echonet", 1), ("switchbot", 1)],
        warnings: vec![NoAdapterWarning { device: "lock".into(), protocol: "zigbee" }],
    };
    assert_eq!(
        render(&validate_response("t", "/tmp/devices.toml", &s)),
        [
            r#"{"config":"/tmp/devices.toml","device_count":2,"group_count":0,"protocols":{"echonet":1,"switchbot":1},"#,
            r#""timestamp":"t","valid":true,"version":1,"warnings":[{"detail":"protocol \"zigbee\" has no adapter yet; get/set/on/off will fail at runtime","device":"lock","kind":"no_adapter","protocol":"zigbee"}]}"#,
        ]
        .concat()
    );
}

#[test]
fn stderr_json_shape() {
    let err = CasaError::new(ErrorKind::ConfigMissing, "no such file".into());
    assert_eq!(render(&error_json(&err)), r#"{"error":{"detail":"no such file","kind":"config_missing"}}"#);
}

#[test]
fn timestamp_is_iso8601() {
    let ts = casa::output::timestamp();
    assert!(chrono::DateTime::parse_from_rfc3339(&ts).is_ok(), "not ISO 8601: {ts}");
}

#[test]
fn operation_response_follows_the_operation() {
    let r = casa::output::operation_response("t", &Operation::Describe, "a", &aircon(), JsonValue::Null);
    assert!(render(&r).contains(r#""properties":null"#));
    let op = Operation::Invoke { command: "blink".into(), args: vec![] };
    let r = casa::output::operation_response("t", &op, "a", &aircon(), JsonValue::Null);
    assert!(render(&r).starts_with(r#"{"command":"blink""#));
    let r = casa::output::operation_response("t", &Operation::Power { on: true }, "a", &aircon(), JsonValue::Null);
    assert_eq!(render(&r), r#"{"device":"a","protocol":"echonet","timestamp":"t","value":null}"#);
}

#[test]
fn json_values_equal_themselves_and_zeros_compare_as_floats() {
    let v = JsonValue::Object(vec![
        ("a".into(), JsonValue::Array(vec![JsonValue::Null, JsonValue::Bool(true)])),
        ("b".into(), JsonValue::Number(JsonNumber::NegInt(-3))),
    ]);
    assert!(casa::json::json_eq(&v, &v));
    let pz = JsonValue::Number(JsonNumber::Float(0.0f64.to_bits()));
    let nz = JsonValue::Number(JsonNumber::Float((-0.0f64).to_bits()));
    assert!(casa::json::json_eq(&pz, &nz));
    assert!(!casa::json::json_eq(&JsonValue::Number(JsonNumber::PosInt(0)), &pz));
}

#[test]
fn json_objects_compare_as_maps() {
    let a = JsonValue::Object(vec![
        ("x".into(), JsonValue::Number(JsonNumber::PosInt(1))),
        ("y".into(), JsonValue::Bool(false)),
    ]);
    let b = JsonValue::Object(vec![
        ("y".into(), JsonValue::Bool(false)),
        ("x".into(), JsonValue::Number(JsonNumber::PosInt(1))),
    ]);
    assert!(casa::json::json_eq(&a, &b));
    assert!(casa::json::json_eq(&b, &a));
    let other_value = JsonValue::Object(vec![
        ("y".into(), JsonValue::Bool(true)),
        ("x".into(), JsonValue::Number(JsonNumber::PosInt(1))),
    ]);
    assert!(!casa::json::json_eq(&a, &other_value));
    let fewer = JsonValue::Object(vec![("x".into(), JsonValue::Number(JsonNumber::PosInt(1)))]);
    assert!(!casa::json::json_eq(&a, &fewer));
    assert!(!casa::json::json_eq(&fewer, &a));
    let other_key = JsonValue::Object(vec![
        ("x".into(), JsonValue::Number(JsonNumber::PosInt(1))),
        ("z".into(), JsonValue::Bool(false)),
    ]);
    assert!(!casa::json::json_eq(&a, &other_key));
}
