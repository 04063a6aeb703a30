use casa::adapter::androidtv::AndroidtvAdapter;
use casa::adapter::echonet::EchonetAdapter;
use casa::adapter::matter::MatterAdapter;
use casa::adapter::switchbot::SwitchbotAdapter;
use casa::adapter::{adapter_for, Adapter, Invocation};
use casa::config::Device;

fn args(inv: &Invocation) -> Vec<&str> {
    inv.args.iter().map(String::as_str).collect()
}

fn atv() -> Device {
    Device::Androidtv { host: "192.0.2.10".into() }
}

fn enl() -> Device {
    Device::Echonet { ip: "192.0.2.10".into(), eoj: "0x013001".into() }
}

fn mat() -> Device {
    Device::Matter { node_id: Some("1234".into()), group: None, endpoint: None }
}

fn mat_on_endpoint(ep: u32) -> Device {
    Device::Matter { node_id: Some("1234".into()), group: None, endpoint: Some(ep) }
}

fn mat_group() -> Device {
    Device::Matter { node_id: None, group: Some("desk_room_lights".into()), endpoint: None }
}

fn swb() -> Device {
    Device::Switchbot { device_id: "DUMMY-XX-XX".into() }
}

#[test]
fn power_on_builds_atv_on_with_host() {
    let inv = AndroidtvAdapter.power(&atv(), true).unwrap();
    assert_eq!(inv.bin, "atv");
    assert_eq!(args(&inv), ["on", "--host", "192.0.2.10"]);
}

#[test]
fn power_off_builds_atv_off_with_host() {
    let inv = AndroidtvAdapter.power(&atv(), false).unwrap();
    assert_eq!(args(&inv), ["off", "--host", "192.0.2.10"]);
}

#[test]
fn invoke_injects_host_flag_after_command() {
    let inv = AndroidtvAdapter.invoke(&atv(), "status", &[]).unwrap();
    assert_eq!(inv.bin, "atv");
    assert_eq!(args(&inv), ["status", "--host", "192.0.2.10"]);
}

#[test]
fn invoke_passes_trailing_args_through() {
    let extra: Vec<String> = vec!["--port".into(), "6467".into()];
    let inv = AndroidtvAdapter.invoke(&atv(), "pair", &extra).unwrap();
    assert_eq!(args(&inv), ["pair", "--host", "192.0.2.10", "--port", "6467"]);
}

#[test]
fn androidtv_get_set_describe_are_unsupported() {
    assert!(AndroidtvAdapter.get(&atv(), "power").is_none());
    assert!(AndroidtvAdapter.set(&atv(), "power", "on").is_none());
    assert!(AndroidtvAdapter.describe(&atv()).is_none());
}

#[test]
fn get_builds_enl_args() {
    let inv = EchonetAdapter.get(&enl(), "0x80").unwrap();
    assert_eq!(inv.bin, "enl");
    assert_eq!(args(&inv), ["get", "--ip", "192.0.2.10", "--eoj", "0x013001", "--epc", "0x80"]);
}

#[test]
fn set_builds_enl_args() {
    let inv = EchonetAdapter.set(&enl(), "0xb0", "0x42").unwrap();
    assert_eq!(
        args(&inv),
        ["set", "--ip", "192.0.2.10", "--eoj", "0x013001", "--epc", "0xb0", "--value", "0x42"]
    );
}

#[test]
fn describe_builds_enl_args() {
    let inv = EchonetAdapter.describe(&enl()).unwrap();
    assert_eq!(args(&inv), ["describe", "--ip", "192.0.2.10", "--eoj", "0x013001"]);
}

#[test]
fn power_on_maps_to_epc_0x80_value_0x30() {
    let inv = EchonetAdapter.power(&enl(), true).unwrap();
    assert_eq!(
        args(&inv),
        ["set", "--ip", "192.0.2.10", "--eoj", "0x013001", "--epc", "0x80", "--value", "0x30"]
    );
}

#[test]
fn power_off_maps_to_epc_0x80_value_0x31() {
    let inv = EchonetAdapter.power(&enl(), false).unwrap();
    assert_eq!(
        args(&inv),
        ["set", "--ip", "192.0.2.10", "--eoj", "0x013001", "--epc", "0x80", "--value", "0x31"]
    );
}

#[test]
fn invoke_injects_address_and_passes_args_through() {
    let extra: Vec<String> = vec!["--epc".into(), "0x80".into()];
    let inv = EchonetAdapter.invoke(&enl(), "blink", &extra).unwrap();
    assert_eq!(inv.bin, "enl");
    assert_eq!(args(&inv), ["blink", "--ip", "192.0.2.10", "--eoj", "0x013001", "--epc", "0x80"]);
}

#[test]
fn invoke_with_no_extra_args_is_just_command_and_address() {
    let inv = EchonetAdapter.invoke(&enl(), "blink", &[]).unwrap();
    assert_eq!(args(&inv), ["blink", "--ip", "192.0.2.10", "--eoj", "0x013001"]);
}

#[test]
fn get_maps_selector_to_mat_read_flags() {
    let inv = MatterAdapter.get(&mat(), "1/onoff/on-off").unwrap();
    assert_eq!(inv.bin, "mat");
    assert_eq!(
        args(&inv),
        ["read", "--node", "1234", "--endpoint", "1", "--cluster", "onoff", "--attribute", "on-off"]
    );
}

#[test]
fn get_without_endpoint_relies_on_mat_default() {
    let inv = MatterAdapter.get(&mat(), "onoff/on-off").unwrap();
    assert_eq!(args(&inv), ["read", "--node", "1234", "--cluster", "onoff", "--attribute", "on-off"]);
}

#[test]
fn get_rejects_malformed_selector() {
    assert!(MatterAdapter.get(&mat(), "on-off").is_none());
    assert!(MatterAdapter.get(&mat(), "1/onoff/on-off/extra").is_none());
}

#[test]
fn set_maps_selector_and_value_to_mat_write_flags() {
    let inv = MatterAdapter.set(&mat(), "1/levelcontrol/current-level", "128").unwrap();
    assert_eq!(
        args(&inv),
        [
            "write", "--node", "1234", "--endpoint", "1", "--cluster", "levelcontrol", "--attribute",
            "current-level", "--value", "128"
        ]
    );
}

#[test]
fn matter_describe_builds_mat_describe_args() {
    let inv = MatterAdapter.describe(&mat()).unwrap();
    assert_eq!(args(&inv), ["describe", "--node", "1234"]);
    // The single-binary CLI passes the node positionally.
    let dev = casa::standalone::config::Device::Matter { node_id: 5, endpoint: 1 };
    let inv = casa::standalone::adapter::Adapter::describe(&casa::standalone::adapter::matter::MatterAdapter, &dev).unwrap();
    assert_eq!(args(&inv), ["describe", "5"]);
}

#[test]
fn power_on_without_endpoint_relies_on_mat_default() {
    let inv = MatterAdapter.power(&mat(), true).unwrap();
    assert_eq!(args(&inv), ["on", "--node", "1234"]);
}

#[test]
fn power_off_with_endpoint_passes_flag() {
    let inv = MatterAdapter.power(&mat_on_endpoint(2), false).unwrap();
    assert_eq!(args(&inv), ["off", "--node", "1234", "--endpoint", "2"]);
}

#[test]
fn invoke_injects_node_and_passes_args_through() {
    let extra: Vec<String> = vec!["--kelvin".into(), "2700".into()];
    let inv = MatterAdapter.invoke(&mat(), "color-temp", &extra).unwrap();
    assert_eq!(inv.bin, "mat");
    assert_eq!(args(&inv), ["color-temp", "--node", "1234", "--kelvin", "2700"]);
}

#[test]
fn invoke_with_endpoint_injects_endpoint_flag() {
    let extra: Vec<String> = vec!["--mireds".into(), "370".into()];
    let inv = MatterAdapter.invoke(&mat_on_endpoint(2), "color-temp", &extra).unwrap();
    assert_eq!(args(&inv), ["color-temp", "--node", "1234", "--endpoint", "2", "--mireds", "370"]);
}

#[test]
fn group_power_on_builds_mat_group_invoke() {
    let inv = MatterAdapter.power(&mat_group(), true).unwrap();
    assert_eq!(inv.bin, "mat");
    assert_eq!(
        args(&inv),
        ["group", "invoke", "--group", "desk_room_lights", "--cluster", "onoff", "--command", "on"]
    );
}

#[test]
fn group_power_off_builds_mat_group_invoke() {
    let inv = MatterAdapter.power(&mat_group(), false).unwrap();
    assert_eq!(
        args(&inv),
        ["group", "invoke", "--group", "desk_room_lights", "--cluster", "onoff", "--command", "off"]
    );
}

#[test]
fn group_power_with_endpoint_passes_flag() {
    let dev = Device::Matter { node_id: None, group: Some("desk_room_lights".into()), endpoint: Some(2) };
    let inv = MatterAdapter.power(&dev, true).unwrap();
    assert_eq!(
        args(&inv),
        [
            "group", "invoke", "--group", "desk_room_lights", "--cluster", "onoff", "--command", "on",
            "--endpoint", "2"
        ]
    );
}

#[test]
fn group_invoke_shortcut_injects_group_and_passes_args() {
    let extra: Vec<String> = vec!["--kelvin".into(), "2700".into()];
    let inv = MatterAdapter.invoke(&mat_group(), "color-temp", &extra).unwrap();
    assert_eq!(args(&inv), ["group", "color-temp", "--group", "desk_room_lights", "--kelvin", "2700"]);
}

#[test]
fn group_invoke_arbitrary_passes_through() {
    let extra: Vec<String> = vec!["--cluster".into(), "onoff".into(), "--command".into(), "on".into()];
    let inv = MatterAdapter.invoke(&mat_group(), "invoke", &extra).unwrap();
    assert_eq!(
        args(&inv),
        ["group", "invoke", "--group", "desk_room_lights", "--cluster", "onoff", "--command", "on"]
    );
}

#[test]
fn group_get_set_describe_are_unsupported() {
    assert!(MatterAdapter.get(&mat_group(), "onoff/on-off").is_none());
    assert!(MatterAdapter.set(&mat_group(), "onoff/on-off", "1").is_none());
    assert!(MatterAdapter.describe(&mat_group()).is_none());
}

#[test]
fn mod_echonet_devices_dispatch_to_echonet_adapter() {
    let device = enl();
    let adapter = adapter_for(&device).unwrap();
    assert_eq!(adapter.get(&device, "0x80").unwrap().bin, "enl");
    // The single-binary CLI dispatches the same way.
    let device = casa::standalone::config::Device::Echonet { ip: "192.0.2.10".into(), eoj: "0x013001".into() };
    let adapter = casa::standalone::adapter::adapter_for(&device).unwrap();
    assert_eq!(casa::standalone::adapter::Adapter::get(&adapter, &device, "0x80").unwrap().bin, "enl");
}

#[test]
fn mod_matter_devices_dispatch_to_matter_adapter() {
    let device = mat();
    let adapter = adapter_for(&device).unwrap();
    assert_eq!(adapter.get(&device, "1/onoff/on-off").unwrap().bin, "mat");
    // The single-binary CLI dispatches the same way.
    let device = casa::standalone::config::Device::Matter { node_id: 5, endpoint: 1 };
    let adapter = casa::standalone::adapter::adapter_for(&device).unwrap();
    assert_eq!(casa::standalone::adapter::Adapter::describe(&adapter, &device).unwrap().bin, "mat");
}

#[test]
fn switchbot_devices_dispatch_to_switchbot_adapter() {
    let device = swb();
    let adapter = adapter_for(&device).unwrap();
    assert_eq!(adapter.power(&device, true).unwrap().bin, "swb");
}

#[test]
fn power_on_sends_turn_on_command() {
    let inv = SwitchbotAdapter.power(&swb(), true).unwrap();
    assert_eq!(inv.bin, "swb");
    assert_eq!(args(&inv), ["cmd", "DUMMY-XX-XX", "turnOn"]);
}

#[test]
fn power_off_sends_turn_off_command() {
    let inv = SwitchbotAdapter.power(&swb(), false).unwrap();
    assert_eq!(args(&inv), ["cmd", "DUMMY-XX-XX", "turnOff"]);
}

#[test]
fn invoke_status_injects_device_id_as_positional() {
    let inv = SwitchbotAdapter.invoke(&swb(), "status", &[]).unwrap();
    assert_eq!(inv.bin, "swb");
    assert_eq!(args(&inv), ["status", "DUMMY-XX-XX"]);
}

#[test]
fn invoke_cmd_passes_command_and_args_through() {
    let extra: Vec<String> = vec!["turnOn".into()];
    let inv = SwitchbotAdapter.invoke(&swb(), "cmd", &extra).unwrap();
    assert_eq!(args(&inv), ["cmd", "DUMMY-XX-XX", "turnOn"]);
}

#[test]
fn invoke_passes_trailing_flags_through() {
    let extra: Vec<String> = vec!["setBrightness".into(), "--param".into(), "50".into()];
    let inv = SwitchbotAdapter.invoke(&swb(), "cmd", &extra).unwrap();
    assert_eq!(args(&inv), ["cmd", "DUMMY-XX-XX", "setBrightness", "--param", "50"]);
}

#[test]
fn switchbot_get_set_describe_are_unsupported() {
    assert!(SwitchbotAdapter.get(&swb(), "power").is_none());
    assert!(SwitchbotAdapter.set(&swb(), "power", "on").is_none());
    assert!(SwitchbotAdapter.describe(&swb()).is_none());
}
