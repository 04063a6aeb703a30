use casa::casad::dispatch::{
    distinct_devices, grace_applies, worker_for, Job, Step, WorkerEvent, WorkerPolicy, WorkerState, NANOS_PER_SEC,
};
use casa::casad::rules::{Rule, RuleFile, Settings, Then, Thens, Trigger};

const MS: u128 = 1_000_000;

fn time_rule(name: &str, thens: Thens) -> Rule {
    Rule { name: name.into(), when: Trigger::Time { at: "00:00".into() }, active: None, thens }
}

fn event_rule(name: &str, then: Then) -> Rule {
    Rule {
        name: name.into(),
        when: Trigger::Event { device: "sensor".into(), epc: "0x80".into(), equals: "0x30".into() },
        active: None,
        thens: Thens::One(then),
    }
}

fn on(device: &str) -> Then {
    Then::On { device: device.into() }
}

fn off(device: &str) -> Then {
    Then::Off { device: device.into() }
}

fn job(rule: &Rule) -> Job<'_> {
    Job { rule, action: &rule.thens.actions()[0] }
}

fn policy(grace_ms: u128, gap_ms: u128) -> WorkerPolicy {
    WorkerPolicy { off_grace_nanos: grace_ms * MS, min_gap_nanos: gap_ms * MS }
}

fn ran<'a>(step: Step<'a>) -> Option<&'static str> {
    match step {
        Step::Run(j) => Some(j.action.action_name()),
        _ => None,
    }
}

#[test]
fn policy_from_settings_uses_whole_seconds() {
    let p = WorkerPolicy::from_settings(&Settings::default());
    assert_eq!(p.off_grace_nanos, 30 * NANOS_PER_SEC);
    assert_eq!(p.min_gap_nanos, 2 * NANOS_PER_SEC);
    let p = WorkerPolicy::from_settings(&Settings { off_grace_secs: 0, min_gap_secs: 0 });
    assert_eq!(p, policy(0, 0));
}

#[test]
fn event_off_in_grace_is_discarded_by_on() {
    let off_rule = event_rule("leave", off("dev_a"));
    let on_rule = event_rule("return", on("dev_a"));
    let p = policy(200, 0);
    let mut w = WorkerState::new();
    assert!(matches!(w.step(WorkerEvent::Received(job(&off_rule)), 0, p), Step::Hold));
    assert_eq!(w.deadline(), Some(200 * MS));
    assert_eq!(ran(w.step(WorkerEvent::Received(job(&on_rule)), 50 * MS, p)), Some("on"));
    assert!(matches!(w.step(WorkerEvent::Disconnected, 60 * MS, p), Step::Finish(None)));
}

#[test]
fn event_off_fires_after_grace_expires() {
    let off_rule = event_rule("leave", off("dev_a"));
    let p = policy(100, 0);
    let mut w = WorkerState::new();
    assert!(matches!(w.step(WorkerEvent::Received(job(&off_rule)), 0, p), Step::Hold));
    // The wait on the queue ends when the grace ends, not before.
    assert_eq!(w.deadline(), Some(100 * MS));
    assert_eq!(ran(w.step(WorkerEvent::Timeout, 100 * MS, p)), Some("off"));
    assert_eq!(w.deadline(), None);
}

#[test]
fn time_triggered_off_runs_immediately_without_grace() {
    let bedtime = time_rule("bedtime", Thens::One(off("dev_a")));
    let p = policy(10_000, 0);
    let mut w = WorkerState::new();
    assert!(!grace_applies(&job(&bedtime), p));
    assert_eq!(ran(w.step(WorkerEvent::Received(job(&bedtime)), 0, p)), Some("off"));
}

#[test]
fn min_gap_spaces_consecutive_commands() {
    let p = policy(0, 100);
    let mut w = WorkerState::new();
    assert_eq!(w.gap_delay(0, p), 0);
    w.sent(0);
    assert_eq!(w.gap_delay(30 * MS, p), 70 * MS);
    assert_eq!(w.gap_delay(100 * MS, p), 0);
    assert_eq!(w.gap_delay(250 * MS, p), 0);
}

#[test]
fn shutdown_flushes_pending_off_without_waiting_grace() {
    let off_rule = event_rule("leave", off("dev_a"));
    let p = policy(30_000, 0);
    let mut w = WorkerState::new();
    assert!(matches!(w.step(WorkerEvent::Received(job(&off_rule)), 0, p), Step::Hold));
    match w.step(WorkerEvent::Disconnected, 1, p) {
        Step::Finish(Some(j)) => assert_eq!(j.action.action_name(), "off"),
        _ => panic!("the held off must be flushed"),
    }
}

#[test]
fn repeated_event_offs_conflate_into_one() {
    let off_rule = event_rule("leave", off("dev_a"));
    let p = policy(100, 0);
    let mut w = WorkerState::new();
    assert!(matches!(w.step(WorkerEvent::Received(job(&off_rule)), 0, p), Step::Hold));
    assert!(matches!(w.step(WorkerEvent::Received(job(&off_rule)), 30 * MS, p), Step::Hold));
    // The second off restarts the grace period.
    assert_eq!(w.deadline(), Some(130 * MS));
    assert_eq!(ran(w.step(WorkerEvent::Timeout, 130 * MS, p)), Some("off"));
    assert!(matches!(w.step(WorkerEvent::Disconnected, 400 * MS, p), Step::Finish(None)));
}

#[test]
fn invoke_keeps_the_held_off() {
    let off_rule = event_rule("leave", off("dev_a"));
    let blink = event_rule("blink", Then::Invoke { device: "dev_a".into(), command: "blink".into(), args: vec![] });
    let p = policy(100, 0);
    let mut w = WorkerState::new();
    assert!(matches!(w.step(WorkerEvent::Received(job(&off_rule)), 0, p), Step::Hold));
    assert_eq!(ran(w.step(WorkerEvent::Received(job(&blink)), 10 * MS, p)), Some("invoke"));
    assert_eq!(w.deadline(), Some(100 * MS));
}

#[test]
fn zero_grace_sends_event_off_at_once() {
    let off_rule = event_rule("leave", off("dev_a"));
    let p = policy(0, 0);
    let mut w = WorkerState::new();
    assert_eq!(ran(w.step(WorkerEvent::Received(job(&off_rule)), 0, p)), Some("off"));
}

#[test]
fn distinct_devices_dedupes_then_targets() {
    let file = RuleFile {
        version: 1,
        settings: Settings::default(),
        rules: vec![
            time_rule("a", Thens::One(on("hallway_light"))),
            time_rule("b", Thens::One(off("hallway_light"))),
            time_rule("c", Thens::One(off("bedroom_light"))),
        ],
    };
    assert_eq!(distinct_devices(&file), ["bedroom_light", "hallway_light"]);
}

#[test]
fn distinct_devices_collects_every_then_action() {
    let file = RuleFile {
        version: 1,
        settings: Settings::default(),
        rules: vec![
            time_rule("a", Thens::Many(vec![on("desk_light"), on("desk_tape_light")])),
            time_rule("b", Thens::One(off("desk_light"))),
        ],
    };
    assert_eq!(distinct_devices(&file), ["desk_light", "desk_tape_light"]);
}

#[test]
fn distinct_devices_orders_by_code_point() {
    let file = RuleFile {
        version: 1,
        settings: Settings::default(),
        rules: vec![time_rule("a", Thens::Many(vec![on("b"), on("a_long"), on("B"), on("a"), on("é")]))],
    };
    let mut expected = vec!["b", "a_long", "B", "a", "é"];
    expected.sort();
    assert_eq!(distinct_devices(&file), expected);
}

#[test]
fn dispatch_counts_only_actions_with_a_worker() {
    let workers: Vec<String> = vec!["dev_a".into(), "dev_b".into()];
    assert_eq!(worker_for(&workers, "dev_a"), Some(0));
    assert_eq!(worker_for(&workers, "dev_b"), Some(1));
    assert_eq!(worker_for(&workers, "no_such_device"), None);
}
