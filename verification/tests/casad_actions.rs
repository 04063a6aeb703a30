use casa::casad::action::Action;
use casa::casad::rules::{parse_node_id, Then};

#[test]
fn casa_args_maps_action_and_passes_config() {
    let args = Action::On.casa_args("living_aircon", Some("/tmp/d.toml"));
    assert_eq!(args, ["on", "living_aircon", "--config", "/tmp/d.toml"]);
}

#[test]
fn casa_args_off_without_config() {
    let args = Action::Off.casa_args("bedroom_light", None);
    assert_eq!(args, ["off", "bedroom_light"]);
}

#[test]
fn casa_args_places_config_before_subcommand() {
    let then = Then::Invoke {
        device: "hallway_light".into(),
        command: "color-temp".into(),
        args: vec!["--kelvin".into(), "2700".into()],
    };
    assert_eq!(
        then.casa_args(Some("/tmp/d.toml")),
        ["--config", "/tmp/d.toml", "invoke", "hallway_light", "color-temp", "--kelvin", "2700"]
    );
    let on = Then::On { device: "hallway_light".into() };
    assert_eq!(on.casa_args(Some("/tmp/d.toml")), ["--config", "/tmp/d.toml", "on", "hallway_light"]);
    assert_eq!(on.casa_args(None), ["on", "hallway_light"]);
}

#[test]
fn parse_node_id_accepts_decimal_only() {
    assert_eq!(parse_node_id("16"), Some(16));
    assert_eq!(parse_node_id(" 16 "), Some(16));
    assert_eq!(parse_node_id("0x10"), None);
    assert_eq!(parse_node_id("study_motion"), None);
}

#[test]
fn action_name_matches_the_toml_action_value() {
    assert_eq!(Then::On { device: "a".into() }.action_name(), "on");
    assert_eq!(Then::Off { device: "a".into() }.action_name(), "off");
    assert_eq!(
        Then::Invoke { device: "a".into(), command: "blink".into(), args: vec![] }.action_name(),
        "invoke"
    );
}
