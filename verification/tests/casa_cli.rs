use casa::casad::action::Action;
use casa::casad::cli::ExecAction;
use casa::casad::rules::Then;
use casa::cli::Command;
use casa::ops::Operation;

#[test]
fn commands_addressing_a_name_become_operations() {
    assert!(Command::List { describe: true }.request().is_none());
    assert!(Command::Validate.request().is_none());
    match (Command::Off { name: "living".into() }).request() {
        Some((n, Operation::Power { on: false })) => assert_eq!(n, "living"),
        _ => panic!("off must map to power off"),
    }
    match (Command::Invoke { name: "tv".into(), command: "pair".into(), args: vec!["--port".into()] }).request() {
        Some((n, Operation::Invoke { command, args })) => {
            assert_eq!(n, "tv");
            assert_eq!(command, "pair");
            assert_eq!(args, ["--port"]);
        }
        _ => panic!("invoke must map to an invoke operation"),
    }
}

#[test]
fn exec_actions_share_the_rule_vocabulary() {
    let t = ExecAction::Invoke { name: "desk".into(), command: "color-temp".into(), args: vec!["--kelvin".into()] }
        .into_then();
    assert_eq!(t.casa_args(None), ["invoke", "desk", "color-temp", "--kelvin"]);
    assert!(matches!(ExecAction::On { name: "a".into() }.into_then(), Then::On { .. }));
    assert!(matches!(ExecAction::Off { name: "a".into() }.into_then(), Then::Off { .. }));
}

#[test]
fn action_subcommands() {
    assert_eq!(Action::On.subcommand(), "on");
    assert_eq!(Action::Off.subcommand(), "off");
}
