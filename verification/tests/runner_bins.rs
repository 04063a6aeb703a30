use casa::config::Config;
use casa::error::ErrorKind;
use casa::runner::{check_exit, env_key, resolve_bin};

fn config(binaries: Vec<(&str, &str)>) -> Config {
    Config {
        version: 1,
        devices: vec![],
        groups: vec![],
        binaries: binaries.into_iter().map(|(k, v)| (k.to_string(), v.to_string())).collect(),
    }
}

#[test]
fn resolve_bin_defaults_to_name() {
    assert_eq!(resolve_bin("enl", None, &config(vec![])), "enl");
}

#[test]
fn resolve_bin_prefers_config_binaries() {
    assert_eq!(resolve_bin("enl", None, &config(vec![("enl", "/opt/bin/enl")])), "/opt/bin/enl");
}

#[test]
fn environment_override_wins_unless_empty() {
    let c = config(vec![("enl", "/opt/bin/enl")]);
    assert_eq!(resolve_bin("enl", Some("/usr/local/bin/enl"), &c), "/usr/local/bin/enl");
    assert_eq!(resolve_bin("enl", Some(""), &c), "/opt/bin/enl");
}

#[test]
fn env_key_upper_cases_the_binary() {
    assert_eq!(env_key("enl"), "CASA_ENL_BIN");
    assert_eq!(env_key("mat"), "CASA_MAT_BIN");
}

#[test]
fn child_exit_codes_map_to_errors() {
    assert!(check_exit("enl", Some(0), "").is_ok());
    let err = check_exit("enl", Some(3), "timeout").unwrap_err();
    assert_eq!(err.kind, ErrorKind::ChildFailed(3));
    assert_eq!(err.exit_code(), 3);
    assert_eq!(err.detail, "\"enl\" exited with code 3: timeout");
    let err = check_exit("enl", None, "").unwrap_err();
    assert_eq!(err.kind, ErrorKind::ChildFailed(1));
    let err = check_exit("enl", Some(-2), "x").unwrap_err();
    assert_eq!(err.detail, "\"enl\" exited with code -2: x");
}

#[test]
fn casa_binary_comes_from_casa_bin_when_set() {
    assert_eq!(casa::runner::resolve_casa_bin(Some("/opt/casa")), "/opt/casa");
    assert_eq!(casa::runner::resolve_casa_bin(Some("")), "casa");
    assert_eq!(casa::runner::resolve_casa_bin(None), "casa");
}
