use std::cell::RefCell;

use tasmota::error::Error;
use tasmota::json::Json;
use tasmota::model::RelayState;
use tasmota::ops::{
    backup_config, config_set, firmware_update, firmware_version, get_status, mqtt_info, power_command,
    restore_config, set_power, template_apply, PowerAction,
};
use tasmota::transport::{DeviceAddr, Transport};

/// A scripted transport: returns queued replies and records the commands sent.
struct FakeTransport {
    responses: RefCell<Vec<Json>>,
    commands: RefCell<Vec<String>>,
}

impl FakeTransport {
    fn new(responses: Vec<Json>) -> Self {
        FakeTransport { responses: RefCell::new(responses), commands: RefCell::new(Vec::new()) }
    }

    fn sent(&self) -> Vec<String> {
        self.commands.borrow().clone()
    }
}

impl Transport for FakeTransport {
    fn command(&self, _addr: &DeviceAddr, cmnd: &str) -> Result<Json, Error> {
        self.commands.borrow_mut().push(cmnd.to_string());
        let mut r = self.responses.borrow_mut();
        if r.is_empty() {
            // A device that does not answer a follow-up (e.g. StateText).
            return Err(Error::Network { message: "no scripted response".into() });
        }
        Ok(r.remove(0))
    }

    fn download(&self, _addr: &DeviceAddr, _path: &str) -> Result<Vec<u8>, Error> {
        Ok(b"dmp".to_vec())
    }

    fn upload(&self, _addr: &DeviceAddr, _path: &str, _field: &str, _filename: &str, _data: &[u8]) -> Result<Json, Error> {
        Ok(obj(vec![("restored", Json::Bool(true))]))
    }
}

/// Rejects `StateText`, answers everything else with a relay device's status.
struct RejectStateText;

impl Transport for RejectStateText {
    fn command(&self, _addr: &DeviceAddr, cmnd: &str) -> Result<Json, Error> {
        if cmnd == "StateText" {
            Err(Error::CommandRejected { command: "StateText".into(), message: "rejected".into() })
        } else {
            Ok(relay_status("ON"))
        }
    }

    fn download(&self, _addr: &DeviceAddr, _path: &str) -> Result<Vec<u8>, Error> {
        Ok(Vec::new())
    }

    fn upload(&self, _addr: &DeviceAddr, _path: &str, _field: &str, _filename: &str, _data: &[u8]) -> Result<Json, Error> {
        Ok(Json::Null)
    }
}

fn obj(members: Vec<(&str, Json)>) -> Json {
    Json::Object(members.into_iter().map(|(k, v)| (k.to_string(), v)).collect())
}

fn text(s: &str) -> Json {
    Json::Str(s.to_string())
}

fn num(s: &str) -> Json {
    Json::Number(s.to_string())
}

fn statetext(off: &str, on: &str) -> Json {
    obj(vec![("StateText1", text(off)), ("StateText2", text(on))])
}

fn relay_status(power: &str) -> Json {
    obj(vec![
        ("StatusFWR", obj(vec![("Version", text("14.2.0"))])),
        ("StatusSTS", obj(vec![("POWER", text(power))])),
    ])
}

#[test]
fn set_power_toggle_reports_new_state() {
    let t = FakeTransport::new(vec![obj(vec![("POWER", text("ON"))]), statetext("OFF", "ON")]);
    let addr = DeviceAddr::new("192.0.2.30");
    let relay = set_power(&t, &addr, None, PowerAction::Toggle).unwrap();
    assert_eq!(relay.index, 0);
    assert_eq!(relay.state, RelayState::On);
    assert_eq!(t.sent()[0], "Power TOGGLE");
}

#[test]
fn set_power_response_respects_inverted_statetext() {
    let t = FakeTransport::new(vec![obj(vec![("POWER", text("ON"))]), statetext("ON", "OFF")]);
    let addr = DeviceAddr::new("192.0.2.37");
    let relay = set_power(&t, &addr, None, PowerAction::Off).unwrap();
    assert_eq!(relay.state, RelayState::Off);
}

#[test]
fn set_power_resolves_custom_statetext_in_response() {
    let t = FakeTransport::new(vec![obj(vec![("POWER", text("Open"))]), statetext("Closed", "Open")]);
    let addr = DeviceAddr::new("192.0.2.36");
    let relay = set_power(&t, &addr, None, PowerAction::On).unwrap();
    assert_eq!(relay.state, RelayState::On);
    let cmds = t.sent();
    assert_eq!(cmds[0], "Power ON");
    assert_eq!(cmds[1], "StateText");
}

#[test]
fn set_power_indexed_relay_builds_powern() {
    let t = FakeTransport::new(vec![obj(vec![("POWER2", text("OFF"))]), statetext("OFF", "ON")]);
    let addr = DeviceAddr::new("192.0.2.31");
    let relay = set_power(&t, &addr, Some(2), PowerAction::Off).unwrap();
    assert_eq!(relay.index, 2);
    assert_eq!(relay.state, RelayState::Off);
    assert_eq!(t.sent()[0], "Power2 OFF");
}

#[test]
fn firmware_update_sets_url_then_upgrades() {
    let t = FakeTransport::new(vec![obj(vec![("OtaUrl", text("http://x"))]), obj(vec![("Upgrade", text("..."))])]);
    let addr = DeviceAddr::new("192.0.2.32");
    firmware_update(&t, &addr, Some("http://x/f.bin")).unwrap();
    let cmds = t.sent();
    assert_eq!(cmds[0], "OtaUrl http://x/f.bin");
    assert_eq!(cmds[1], "Upgrade 1");
}

#[test]
fn firmware_update_rejects_failed_ota() {
    let t = FakeTransport::new(vec![
        obj(vec![("OtaUrl", text("http://x"))]),
        obj(vec![("Upgrade", text("Failed Verify Bin Header Failed"))]),
    ]);
    let addr = DeviceAddr::new("192.0.2.43");
    let err = firmware_update(&t, &addr, Some("http://x/f.bin")).unwrap_err();
    assert_eq!(err.kind(), "command_rejected");
}

#[test]
fn firmware_version_requires_statusfwr() {
    let ok = FakeTransport::new(vec![obj(vec![("StatusFWR", obj(vec![("Version", text("14.2.0"))]))])]);
    assert_eq!(firmware_version(&ok, &DeviceAddr::new("192.0.2.41")).unwrap(), "14.2.0");
    let bad = FakeTransport::new(vec![obj(vec![("foo", text("bar"))])]);
    assert!(firmware_version(&bad, &DeviceAddr::new("192.0.2.42")).is_err());
}

#[test]
fn mqtt_info_parses_status6() {
    let t = FakeTransport::new(vec![obj(vec![(
        "StatusMQT",
        obj(vec![("MqttHost", text("192.0.2.1")), ("MqttPort", num("1883")), ("MqttCount", num("2"))]),
    )])]);
    let addr = DeviceAddr::new("192.0.2.40");
    let m = mqtt_info(&t, &addr).unwrap().unwrap();
    assert_eq!(m.host.as_deref(), Some("192.0.2.1"));
    assert_eq!(m.port, Some(1883));
    assert_eq!(m.connected, None);
    assert_eq!(t.sent()[0], "Status 6");
}

#[test]
fn get_status_applies_statetext_for_relay_device() {
    let t = FakeTransport::new(vec![relay_status("ON"), statetext("OFF", "ON")]);
    let addr = DeviceAddr::new("192.0.2.33");
    let status = get_status(&t, &addr).unwrap();
    assert_eq!(status.relays[0].state, RelayState::On);
    let cmds = t.sent();
    assert_eq!(cmds[0], "Status 0");
    assert_eq!(cmds[1], "StateText");
}

#[test]
fn status_marks_relays_unknown_when_statetext_unavailable() {
    let t = FakeTransport::new(vec![relay_status("ON")]);
    let addr = DeviceAddr::new("192.0.2.50");
    let s = get_status(&t, &addr).unwrap();
    assert!(matches!(s.relays[0].state, RelayState::Unknown(_)));
    assert_eq!(s.relays[0].raw, "ON");
}

#[test]
fn set_power_marks_unknown_when_statetext_unavailable() {
    let t = FakeTransport::new(vec![obj(vec![("POWER", text("ON"))])]);
    let addr = DeviceAddr::new("192.0.2.51");
    let relay = set_power(&t, &addr, None, PowerAction::On).unwrap();
    assert!(matches!(relay.state, RelayState::Unknown(_)));
}

#[test]
fn status_propagates_statetext_command_rejection() {
    let err = get_status(&RejectStateText, &DeviceAddr::new("192.0.2.52")).unwrap_err();
    assert_eq!(err.kind(), "command_rejected");
}

#[test]
fn inverted_statetext_flips_default_looking_labels() {
    let t = FakeTransport::new(vec![relay_status("ON"), statetext("ON", "OFF")]);
    let addr = DeviceAddr::new("192.0.2.34");
    let status = get_status(&t, &addr).unwrap();
    assert_eq!(status.relays[0].state, RelayState::Off);
}

#[test]
fn sensor_only_device_skips_statetext() {
    let t = FakeTransport::new(vec![obj(vec![
        ("StatusFWR", obj(vec![("Version", text("14.2.0"))])),
        ("StatusSTS", obj(vec![("Uptime", text("1T00:00:00"))])),
    ])]);
    let addr = DeviceAddr::new("192.0.2.35");
    let status = get_status(&t, &addr).unwrap();
    assert!(status.relays.is_empty());
    assert_eq!(t.sent().len(), 1);
}

#[test]
fn power_command_names_the_relay() {
    assert_eq!(power_command(None, PowerAction::On), "Power ON");
    assert_eq!(power_command(Some(0), PowerAction::Toggle), "Power TOGGLE");
    assert_eq!(power_command(Some(12), PowerAction::Off), "Power12 OFF");
}

#[test]
fn config_set_and_template_apply_send_their_commands() {
    let t = FakeTransport::new(vec![obj(vec![("TelePeriod", num("60"))]), obj(vec![]), obj(vec![("Module", text("0"))])]);
    let addr = DeviceAddr::new("192.0.2.60");
    config_set(&t, &addr, "TelePeriod", "60").unwrap();
    let applied = template_apply(&t, &addr, "{\"NAME\":\"x\"}").unwrap();
    assert!(applied.get("Module").is_some());
    assert_eq!(t.sent(), vec!["TelePeriod 60", "Template {\"NAME\":\"x\"}", "Module 0"]);
}

#[test]
fn backup_and_restore_use_the_transfer_endpoints() {
    let t = FakeTransport::new(Vec::new());
    let addr = DeviceAddr::new("192.0.2.61");
    assert_eq!(backup_config(&t, &addr).unwrap(), b"dmp".to_vec());
    assert!(restore_config(&t, &addr, b"dmp").unwrap().get("restored").is_some());
}
