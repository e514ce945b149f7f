use tasmota::json::Json;
use tasmota::model::RelayState;
use tasmota::parse::{looks_like_tasmota, mqtt_from_status, normalize_relay, parse_status, relay_index, StateTextMap};

fn obj(members: Vec<(&str, Json)>) -> Json {
    Json::Object(members.into_iter().map(|(k, v)| (k.to_string(), v)).collect())
}

fn text(s: &str) -> Json {
    Json::Str(s.to_string())
}

fn num(s: &str) -> Json {
    Json::Number(s.to_string())
}

fn fwr() -> (&'static str, Json) {
    ("StatusFWR", obj(vec![("Version", text("14.2.0"))]))
}

fn number(t: &Option<String>) -> Option<f64> {
    t.as_deref().map(|x| x.parse::<f64>().unwrap())
}

#[test]
fn single_relay_on_from_status_sts() {
    let v = obj(vec![
        (
            "Status",
            obj(vec![
                ("DeviceName", text("Plug")),
                ("Power", num("0")),
                ("Module", num("1")),
                ("FriendlyName", Json::Array(vec![text("Plug")])),
            ]),
        ),
        fwr(),
        (
            "StatusSTS",
            obj(vec![
                ("POWER", text("ON")),
                ("Uptime", text("1T00:00:00")),
                ("Wifi", obj(vec![("RSSI", num("72"))])),
            ]),
        ),
    ]);
    let d = parse_status("192.0.2.10", &v, None).unwrap();
    assert_eq!(d.relays.len(), 1);
    assert_eq!(d.relays[0].index, 0);
    assert_eq!(d.relays[0].state, RelayState::On);
    assert_eq!(d.wifi_rssi, Some(72));
    assert_eq!(d.firmware.as_deref(), Some("14.2.0"));
}

#[test]
fn multi_relay_power1_power2() {
    let v = obj(vec![
        ("Status", obj(vec![("DeviceName", text("Strip")), ("Power", num("2"))])),
        fwr(),
        ("StatusSTS", obj(vec![("POWER1", text("OFF")), ("POWER2", text("ON")), ("POWER3", text("OFF"))])),
    ]);
    let d = parse_status("192.0.2.11", &v, None).unwrap();
    assert_eq!(d.relays.len(), 3);
    assert_eq!(d.relays[0].index, 1);
    assert_eq!(d.relays[0].state, RelayState::Off);
    assert_eq!(d.relays[1].index, 2);
    assert_eq!(d.relays[1].state, RelayState::On);
}

#[test]
fn custom_statetext_maps_to_on_off() {
    let map = StateTextMap { off: Some("Closed".into()), on: Some("Open".into()) };
    let v = obj(vec![fwr(), ("StatusSTS", obj(vec![("POWER", text("Open"))]))]);
    let d = parse_status("192.0.2.12", &v, Some(&map)).unwrap();
    assert_eq!(d.relays[0].state, RelayState::On);
    assert_eq!(d.relays[0].raw, "Open");
}

#[test]
fn statetext_map_present_but_no_match_is_unknown() {
    let map = StateTextMap { off: Some("Closed".into()), on: Some("Open".into()) };
    assert_eq!(normalize_relay("ON", Some(&map)), RelayState::Unknown("ON".into()));
}

#[test]
fn ambiguous_statetext_map_is_unknown() {
    let map = StateTextMap { off: Some("X".into()), on: Some("X".into()) };
    assert_eq!(normalize_relay("X", Some(&map)), RelayState::Unknown("X".into()));
}

#[test]
fn unrecognized_relay_string_is_unknown_not_off() {
    let v = obj(vec![fwr(), ("StatusSTS", obj(vec![("POWER", text("Blinking"))]))]);
    let d = parse_status("192.0.2.13", &v, None).unwrap();
    assert_eq!(d.relays[0].state, RelayState::Unknown("Blinking".into()));
    assert_ne!(d.relays[0].state, RelayState::Off);
}

#[test]
fn missing_energy_block_is_none_not_zero() {
    let v = obj(vec![
        fwr(),
        ("StatusSTS", obj(vec![("POWER", text("ON"))])),
        ("StatusSNS", obj(vec![("Time", text("2026-07-18T00:00:00"))])),
    ]);
    let d = parse_status("192.0.2.14", &v, None).unwrap();
    assert!(d.energy.is_none(), "no ENERGY block must be None, not 0");
}

#[test]
fn energy_block_present_parses_fields() {
    let v = obj(vec![
        fwr(),
        ("StatusSTS", obj(vec![("POWER", text("ON"))])),
        (
            "StatusSNS",
            obj(vec![(
                "ENERGY",
                obj(vec![("Power", num("42.5")), ("Voltage", num("230")), ("Today", num("1.234")), ("Total", num("99.9"))]),
            )]),
        ),
    ]);
    let d = parse_status("192.0.2.15", &v, None).unwrap();
    let e = d.energy.unwrap();
    assert_eq!(number(&e.power_w), Some(42.5));
    assert_eq!(number(&e.voltage_v), Some(230.0));
    assert_eq!(number(&e.today_kwh), Some(1.234));
    assert_eq!(number(&e.yesterday_kwh), None);
}

#[test]
fn mqtt_connected_is_never_inferred() {
    let v = obj(vec![
        fwr(),
        ("StatusMQT", obj(vec![("MqttHost", text("192.0.2.1")), ("MqttPort", num("1883")), ("MqttCount", num("3"))])),
    ]);
    let d = parse_status("192.0.2.16", &v, None).unwrap();
    let m = d.mqtt.unwrap();
    assert_eq!(m.host.as_deref(), Some("192.0.2.1"));
    assert_eq!(m.port, Some(1883));
    assert_eq!(m.connected, None);
}

#[test]
fn tasmota_signature_requires_firmware_version() {
    assert!(looks_like_tasmota(&obj(vec![("StatusFWR", obj(vec![("Version", text("14.2.0"))]))])));
    assert!(!looks_like_tasmota(&obj(vec![("something", text("else"))])));
    assert!(!looks_like_tasmota(&obj(vec![("StatusFWR", obj(vec![]))])));
}

#[test]
fn non_object_response_is_parse_error() {
    let v = text("not an object");
    assert!(parse_status("192.0.2.17", &v, None).is_err());
}

#[test]
fn non_tasmota_object_is_parse_error() {
    assert!(parse_status("192.0.2.18", &obj(vec![]), None).is_err());
    assert!(parse_status("192.0.2.19", &obj(vec![("foo", text("bar"))]), None).is_err());
}

#[test]
fn relays_come_out_in_index_order() {
    let v = obj(vec![
        fwr(),
        ("StatusSTS", obj(vec![("POWER3", text("ON")), ("POWER1", text("OFF")), ("POWER2", text("1"))])),
    ]);
    let d = parse_status("192.0.2.20", &v, None).unwrap();
    let idx: Vec<u8> = d.relays.iter().map(|r| r.index).collect();
    assert_eq!(idx, vec![1, 2, 3]);
    assert_eq!(d.relays[1].state, RelayState::On);
}

#[test]
fn relay_index_reads_power_keys() {
    assert_eq!(relay_index("POWER"), Some(0));
    assert_eq!(relay_index("POWER7"), Some(7));
    assert_eq!(relay_index("POWER256"), None);
    assert_eq!(relay_index("Power1"), None);
    assert_eq!(relay_index("POWER255"), Some(255));
    assert_eq!(relay_index("POWER0"), None);
    assert_eq!(relay_index("POWER01"), None);
    assert_eq!(relay_index("POWER+1"), None);
    assert_eq!(relay_index("XPOWER1"), None);
}

#[test]
fn default_labels_accept_numeric_and_boolean_words() {
    assert_eq!(normalize_relay(" off ", None), RelayState::Off);
    assert_eq!(normalize_relay("true", None), RelayState::On);
    assert_eq!(normalize_relay("0", None), RelayState::Off);
    assert_eq!(normalize_relay("maybe", None), RelayState::Unknown("maybe".into()));
}

#[test]
fn mqtt_block_absent_gives_none() {
    assert!(mqtt_from_status(&obj(vec![fwr()])).is_none());
}

#[test]
fn display_name_prefers_device_name_then_friendly_name_then_host() {
    let named = obj(vec![("Status", obj(vec![("DeviceName", text("Plug"))])), fwr()]);
    assert_eq!(parse_status("h1", &named, None).unwrap().display_name(), "Plug");
    let friendly = obj(vec![
        ("Status", obj(vec![("DeviceName", text("")), ("FriendlyName", Json::Array(vec![text("Lamp")]))])),
        fwr(),
    ]);
    assert_eq!(parse_status("h2", &friendly, None).unwrap().display_name(), "Lamp");
    let bare = obj(vec![fwr()]);
    assert_eq!(parse_status("h3", &bare, None).unwrap().display_name(), "h3");
}

#[test]
fn status_power_bitmask_does_not_change_the_parse() {
    let doc = |status: Json| {
        obj(vec![
            ("Status", status),
            fwr(),
            ("StatusSTS", obj(vec![("POWER1", text("ON")), ("POWER2", text("OFF"))])),
        ])
    };
    let with_power = doc(obj(vec![("DeviceName", text("Strip")), ("Power", num("0"))]));
    let other_power = doc(obj(vec![("DeviceName", text("Strip")), ("Power", num("3"))]));
    let no_power = doc(obj(vec![("DeviceName", text("Strip"))]));
    let a = parse_status("192.0.2.20", &with_power, None).unwrap();
    let b = parse_status("192.0.2.20", &other_power, None).unwrap();
    let c = parse_status("192.0.2.20", &no_power, None).unwrap();
    assert_eq!(a, b);
    assert_eq!(a, c);
    assert_eq!(a.relays[0].state, RelayState::On);
    assert_eq!(a.relays[1].state, RelayState::Off);
}
