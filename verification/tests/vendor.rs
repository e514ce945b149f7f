use std::cell::RefCell;

use tasmota::error::Error;
use tasmota::json::Json;
use tasmota::model::RelayState;
use tasmota::ops::PowerAction;
use tasmota::transport::{DeviceAddr, Transport};
use tasmota::vendor::{map_err, power_vendor, probe_snapshot, status_snapshot, VendorErrorKind};

/// Answers `Status 0` and `StateText` from fixed replies; every other command
/// fails as a rejected command.
struct ScriptedDevice {
    status: Result<Json, Error>,
    statetext: Option<Json>,
    sent: RefCell<Vec<String>>,
}

impl ScriptedDevice {
    fn new(status: Result<Json, Error>, statetext: Option<Json>) -> Self {
        ScriptedDevice { status, statetext, sent: RefCell::new(Vec::new()) }
    }
}

fn copy(j: &Json) -> Json {
    match j {
        Json::Null => Json::Null,
        Json::Bool(b) => Json::Bool(*b),
        Json::Number(n) => Json::Number(n.clone()),
        Json::Str(s) => Json::Str(s.clone()),
        Json::Array(a) => Json::Array(a.iter().map(copy).collect()),
        Json::Object(es) => Json::Object(es.iter().map(|(k, v)| (k.clone(), copy(v))).collect()),
    }
}

impl Transport for ScriptedDevice {
    fn command(&self, _addr: &DeviceAddr, cmnd: &str) -> Result<Json, Error> {
        self.sent.borrow_mut().push(cmnd.to_string());
        if cmnd == "Status 0" {
            return match &self.status {
                Ok(v) => Ok(copy(v)),
                Err(e) => Err(e.clone()),
            };
        }
        if cmnd == "StateText" {
            if let Some(v) = &self.statetext {
                return Ok(copy(v));
            }
            return Err(Error::Network { message: "no answer".into() });
        }
        if cmnd.starts_with("Power") {
            return Ok(obj(vec![("POWER", text("OFF"))]));
        }
        Err(Error::CommandRejected { command: cmnd.to_string(), message: "unknown".into() })
    }

    fn download(&self, _addr: &DeviceAddr, _path: &str) -> Result<Vec<u8>, Error> {
        Ok(Vec::new())
    }

    fn upload(&self, _addr: &DeviceAddr, _path: &str, _field: &str, _filename: &str, _data: &[u8]) -> Result<Json, Error> {
        Ok(Json::Null)
    }
}

fn obj(members: Vec<(&str, Json)>) -> Json {
    Json::Object(members.into_iter().map(|(k, v)| (k.to_string(), v)).collect())
}

fn text(s: &str) -> Json {
    Json::Str(s.to_string())
}

fn num(s: &str) -> Json {
    Json::Number(s.to_string())
}

fn status0_body(power: &str, energy: Option<Json>) -> Json {
    let mut members = vec![
        (
            "Status",
            obj(vec![
                ("DeviceName", text("TestPlug")),
                ("Module", num("1")),
                ("FriendlyName", Json::Array(vec![text("TestPlug")])),
                ("Power", num("1")),
            ]),
        ),
        ("StatusFWR", obj(vec![("Version", text("14.2.0"))])),
        (
            "StatusNET",
            obj(vec![("IPAddress", text("192.0.2.50")), ("Mac", text("AA:BB:CC:00:11:22")), ("Hostname", text("testplug"))]),
        ),
        (
            "StatusSTS",
            obj(vec![("POWER", text(power)), ("Uptime", text("1T02:03:04")), ("Wifi", obj(vec![("RSSI", num("76"))]))]),
        ),
    ];
    if let Some(e) = energy {
        members.push(("StatusSNS", obj(vec![("ENERGY", e)])));
    }
    obj(members)
}

fn default_labels() -> Option<Json> {
    Some(obj(vec![("StateText1", text("OFF")), ("StateText2", text("ON"))]))
}

fn addr() -> DeviceAddr {
    DeviceAddr::new("127.0.0.1:8080")
}

#[test]
fn metering_plug_status_maps_every_field_honestly() {
    let energy = obj(vec![("Power", num("42.5")), ("Voltage", num("230.0")), ("Total", num("12.3"))]);
    let device = ScriptedDevice::new(Ok(status0_body("ON", Some(energy))), default_labels());
    let snapshot = status_snapshot(&device, &addr()).expect("status succeeds");
    assert_eq!(snapshot.relays[0].state, RelayState::On);
    let power: Option<f64> = snapshot.energy.as_ref().unwrap().power_w.as_deref().map(|t| t.parse().unwrap());
    assert_eq!(power, Some(42.5));
    assert_eq!(snapshot.signal.unwrap().quality_percent, Some(76));
    assert!(snapshot.capabilities.metering);
    assert_eq!(snapshot.firmware.unwrap().version, Some("14.2.0".to_string()));
}

#[test]
fn no_energy_block_yields_none_not_zeroed_energy() {
    let device = ScriptedDevice::new(Ok(status0_body("ON", None)), default_labels());
    let snapshot = status_snapshot(&device, &addr()).expect("status succeeds");
    assert!(snapshot.energy.is_none(), "a device with no ENERGY block must yield None, not a zeroed Energy");
    assert!(!snapshot.capabilities.metering);
}

#[test]
fn unmapped_relay_text_is_unknown_not_guessed() {
    let device = ScriptedDevice::new(Ok(status0_body("Blinking", None)), default_labels());
    let snapshot = status_snapshot(&device, &addr()).expect("status succeeds");
    assert_eq!(
        snapshot.relays[0].state,
        RelayState::Unknown("Blinking".to_string()),
        "a relay label that matches neither ON nor OFF must never be guessed Off"
    );
}

#[test]
fn probe_confirms_a_tasmota_responder() {
    let device = ScriptedDevice::new(Ok(status0_body("ON", None)), default_labels());
    let result = probe_snapshot(&device, &addr()).expect("probe succeeds");
    assert!(result.is_some(), "a Tasmota responder must be confirmed");
}

#[test]
fn probe_declines_a_non_tasmota_json_responder() {
    let device = ScriptedDevice::new(Ok(obj(vec![("hello", text("world"))])), None);
    let result = probe_snapshot(&device, &addr()).expect("probe must not error on a reachable non-match");
    assert!(result.is_none(), "a non-Tasmota JSON body must never be guessed as Tasmota");
}

#[test]
fn connection_refused_is_network_error_never_a_snapshot() {
    let device = ScriptedDevice::new(Err(Error::Network { message: "127.0.0.1:1: connection refused".into() }), None);
    let err = status_snapshot(&device, &DeviceAddr::new("127.0.0.1:1"))
        .expect_err("an unreachable host must error, never a successful empty snapshot");
    assert_eq!(err.kind, VendorErrorKind::Network);
    assert_eq!(err.host, "127.0.0.1:1");
}

#[test]
fn probe_treats_a_non_json_answer_as_no_match() {
    let device = ScriptedDevice::new(Err(Error::Parse { message: "not JSON".into() }), None);
    assert!(probe_snapshot(&device, &addr()).unwrap().is_none());
    let down = ScriptedDevice::new(Err(Error::Auth { message: "401".into() }), None);
    assert_eq!(probe_snapshot(&down, &addr()).unwrap_err().kind, VendorErrorKind::Auth);
}

#[test]
fn snapshot_has_primary_name_model_and_clamped_signal() {
    let mut body = status0_body("ON", None);
    if let Json::Object(es) = &mut body {
        for (k, v) in es.iter_mut() {
            if k == "StatusSTS" {
                *v = obj(vec![("POWER", text("ON")), ("Wifi", obj(vec![("RSSI", num("150"))]))]);
            }
        }
    }
    let device = ScriptedDevice::new(Ok(body), default_labels());
    let snapshot = status_snapshot(&device, &addr()).unwrap();
    assert_eq!(snapshot.name.as_deref(), Some("TestPlug"));
    assert_eq!(snapshot.model.as_deref(), Some("1"));
    assert_eq!(snapshot.signal.unwrap().quality_percent, Some(100));
    assert_eq!(snapshot.signal.unwrap().rssi_dbm, None);
    assert!(!snapshot.capabilities.multi_channel);
    assert!(snapshot.capabilities.firmware_ota && snapshot.capabilities.config_backup && snapshot.capabilities.console);
    assert_eq!(snapshot.net.hostname.as_deref(), Some("testplug"));
}

#[test]
fn errors_map_to_vendor_classes() {
    let cases = vec![
        (Error::Network { message: "n".into() }, VendorErrorKind::Network),
        (Error::Io { message: "i".into() }, VendorErrorKind::Network),
        (Error::Auth { message: "a".into() }, VendorErrorKind::Auth),
        (Error::CommandRejected { command: "X".into(), message: "m".into() }, VendorErrorKind::Rejected),
        (Error::NotFound { message: "f".into() }, VendorErrorKind::Rejected),
        (Error::Aborted { message: "b".into() }, VendorErrorKind::Rejected),
        (Error::Parse { message: "p".into() }, VendorErrorKind::Parse),
        (Error::Usage { message: "u".into() }, VendorErrorKind::Unsupported),
        (Error::Unavailable { message: "v".into() }, VendorErrorKind::Unsupported),
    ];
    for (e, kind) in cases {
        let m = map_err(e, "192.0.2.9");
        assert_eq!(m.kind, kind);
        assert_eq!(m.host, "192.0.2.9");
    }
    let m = map_err(Error::CommandRejected { command: "X".into(), message: "m".into() }, "h");
    assert_eq!(m.message, "device rejected command `X`: m");
}

#[test]
fn vendor_power_reports_the_relay() {
    let device = ScriptedDevice::new(Ok(Json::Null), default_labels());
    let relay = power_vendor(&device, &addr(), Some(0), PowerAction::Off).unwrap();
    assert_eq!(relay.state, RelayState::Off);
    assert_eq!(device.sent.borrow()[0], "Power OFF");
}
