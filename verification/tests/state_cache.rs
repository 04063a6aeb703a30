use casa::casad::mat;
use casa::casad::state_cache::StateCache;
use casa::json::{JsonNumber, JsonValue};

const TTL: u128 = 600_000_000_000;

fn text(s: &str) -> JsonValue {
    JsonValue::String(s.into())
}

fn num(n: u64) -> JsonValue {
    JsonValue::Number(JsonNumber::PosInt(n))
}

fn onoff_event(node: u64, ep: u64, value: JsonValue) -> mat::Event {
    mat::Event {
        node_id: node,
        endpoint: ep,
        cluster: text("onoff"),
        attribute: text("on-off"),
        value,
        priming: false,
        recovered: false,
    }
}

#[test]
fn off_event_makes_target_skippable() {
    let mut c = StateCache::new();
    c.record(&onoff_event(24, 1, JsonValue::Bool(false)));
    assert!(c.is_off_fresh(24, 1, TTL));
}

#[test]
fn on_event_or_unknown_target_is_not_skippable() {
    let mut c = StateCache::new();
    c.record(&onoff_event(24, 1, JsonValue::Bool(true)));
    assert!(!c.is_off_fresh(24, 1, TTL));
    assert!(!c.is_off_fresh(23, 1, TTL));
    assert!(!c.is_off_fresh(24, 2, TTL));
}

#[test]
fn stale_entry_is_not_skippable() {
    let mut c = StateCache::new();
    c.record_at(&onoff_event(24, 1, JsonValue::Bool(false)), 0);
    assert!(!c.is_off_fresh_at(24, 1, TTL, TTL + 1_000_000_000));
    assert!(c.is_off_fresh_at(24, 1, TTL, TTL));
}

#[test]
fn newer_observation_overwrites_older() {
    let mut c = StateCache::new();
    c.record(&onoff_event(24, 1, JsonValue::Bool(false)));
    c.record(&onoff_event(24, 1, JsonValue::Bool(true)));
    assert!(!c.is_off_fresh(24, 1, TTL));
    c.record_at(&onoff_event(24, 1, JsonValue::Bool(false)), 5);
    assert!(c.is_off_fresh_at(24, 1, TTL, 10));
}

#[test]
fn priming_and_numeric_ids_are_recorded() {
    let mut c = StateCache::new();
    let mut ev = onoff_event(24, 1, JsonValue::Bool(false));
    ev.priming = true;
    c.record(&ev);
    assert!(c.is_off_fresh(24, 1, TTL));
    let mut ev = onoff_event(30, 1, JsonValue::Bool(false));
    ev.cluster = num(6);
    ev.attribute = num(0);
    c.record(&ev);
    assert!(c.is_off_fresh(30, 1, TTL));
}

#[test]
fn non_onoff_events_are_ignored() {
    let mut c = StateCache::new();
    let mut ev = onoff_event(24, 1, num(0));
    ev.cluster = text("occupancysensing");
    ev.attribute = text("occupancy");
    c.record(&ev);
    assert!(!c.is_off_fresh(24, 1, TTL));
    c.record(&onoff_event(24, 1, num(0)));
    assert!(!c.is_off_fresh(24, 1, TTL));
}

#[test]
fn cluster_and_attribute_names_ignore_ascii_case() {
    let mut c = StateCache::new();
    let mut ev = onoff_event(8, 2, JsonValue::Bool(false));
    ev.cluster = text("OnOff");
    ev.attribute = text("ON-OFF");
    c.record(&ev);
    assert!(c.is_off_fresh(8, 2, TTL));
}
