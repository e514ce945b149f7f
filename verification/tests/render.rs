use tasmota::cache::CachedDevice;
use tasmota::cli::{build_ctx, config_dir, join_path, resolve_credentials, OutputFormat};
use tasmota::discovery::Discovered;
use tasmota::model::{DeviceStatus, Energy, MqttInfo, NetInfo, Relay, RelayState};
use tasmota::render::{devices, discovered, energy, health, na, na_int, power, status};
use tasmota::transport::Credentials;

fn plug() -> DeviceStatus {
    DeviceStatus {
        host: "192.0.2.50".to_string(),
        name: Some("Plug".to_string()),
        friendly_names: vec!["Plug".to_string()],
        module: Some(1),
        relays: vec![
            Relay { index: 0, state: RelayState::On, raw: "ON".to_string() },
            Relay { index: 2, state: RelayState::Unknown("Blink".to_string()), raw: "Blink".to_string() },
        ],
        firmware: Some("14.2.0".to_string()),
        net: NetInfo { ip: Some("192.0.2.50".to_string()), mac: None, hostname: None },
        uptime: Some("1T02:03:04".to_string()),
        wifi_rssi: Some(-67),
        energy: None,
        mqtt: None,
    }
}

#[test]
fn absent_values_render_as_na() {
    assert_eq!(na(None), "n/a");
    assert_eq!(na(Some("x")), "x");
    assert_eq!(na_int(None), "n/a");
    assert_eq!(na_int(Some(-5)), "-5");
}

#[test]
fn status_block_lists_relays_and_readings() {
    let s = plug();
    assert_eq!(
        status(&s, None),
        "Plug (192.0.2.50)\n  relays:  power=on  power2=unknown\n  firmware: 14.2.0\n  rssi:    -67\n  uptime:  1T02:03:04\n  ip:      192.0.2.50\n  power:   n/a (no energy sensor)"
    );
    let mut metered = plug();
    metered.relays.clear();
    metered.energy = Some(Energy::default());
    let text = status(&metered, Some("42.5"));
    assert!(text.contains("  relays:  none\n"));
    assert!(text.ends_with("  power:   42.5 W"));
    assert!(status(&metered, None).ends_with("  power:   n/a W"));
}

#[test]
fn health_summary_shows_mqtt_settings() {
    let mut s = plug();
    assert!(health(&s).ends_with("  mqtt:     n/a"));
    s.mqtt = Some(MqttInfo { host: Some("mq".to_string()), port: Some(1883), client: None, reconnect_count: None, connected: None });
    assert_eq!(
        health(&s),
        "Plug (192.0.2.50)\n  online:   yes\n  rssi:     -67\n  uptime:   1T02:03:04\n  firmware: 14.2.0\n  mqtt:     host=mq port=1883 (connected: n/a over HTTP)"
    );
}

#[test]
fn device_list_is_padded_and_trimmed() {
    assert_eq!(devices(&[]), "no cached devices (run `tasmota discover`)");
    let list = vec![
        CachedDevice { name: "Dryer".into(), host: "192.0.2.20".into(), module: None, mac: None },
        CachedDevice { name: "A-very-long-device-name-here".into(), host: "192.0.2.21".into(), module: None, mac: None },
    ];
    assert_eq!(devices(&list), "Dryer                    192.0.2.20\nA-very-long-device-name-here 192.0.2.21");
}

#[test]
fn discovery_report_lists_found_devices() {
    assert_eq!(discovered(&[]), "no Tasmota devices found");
    let list = vec![Discovered { host: "192.0.2.50".to_string(), status: plug() }];
    assert_eq!(discovered(&list), "found 1 device(s):\n  Plug                     192.0.2.50       14.2.0");
}

#[test]
fn credentials_fall_back_to_environment_and_default_user() {
    let c = resolve_credentials(None, Some("pw".into()), None, None).unwrap();
    assert_eq!(c, Credentials { user: "admin".into(), password: "pw".into() });
    let c = resolve_credentials(Some("".into()), None, Some("bob".into()), None).unwrap();
    assert_eq!(c, Credentials { user: "bob".into(), password: "".into() });
    assert_eq!(resolve_credentials(Some("".into()), Some("".into()), None, Some("".into())), None);
    let c = resolve_credentials(Some("eve".into()), None, Some("bob".into()), Some("envpw".into())).unwrap();
    assert_eq!(c, Credentials { user: "eve".into(), password: "envpw".into() });
}

#[test]
fn config_dir_prefers_xdg_then_home() {
    assert_eq!(config_dir(Some("/x"), Some("/home/u")), "/x/tasmota");
    assert_eq!(config_dir(Some(""), Some("/home/u/")), "/home/u/.config/tasmota");
    assert_eq!(config_dir(None, None), ".tasmota");
    assert_eq!(join_path("", "a"), "a");
    let ctx = build_ctx(OutputFormat::Text, 5, None, "/cfg/tasmota", true, false);
    assert_eq!(ctx.cache_path, "/cfg/tasmota/devices.json");
    assert_eq!(ctx.groups_path, "/cfg/tasmota/groups.toml");
}

fn metered() -> DeviceStatus {
    let mut s = plug();
    s.energy = Some(Energy {
        power_w: Some("42.5".to_string()),
        voltage_v: Some("230".to_string()),
        current_a: None,
        today_kwh: Some("0.3".to_string()),
        yesterday_kwh: Some("1.2".to_string()),
        total_kwh: Some("12.3".to_string()),
    });
    s
}

#[test]
fn power_without_a_sensor_is_na_not_zero() {
    assert_eq!(power(&plug(), Some("0")), "Plug: n/a (no energy sensor)");
    assert_eq!(power(&metered(), Some("42.5")), "Plug: 42.5 W");
    assert_eq!(power(&metered(), None), "Plug: n/a W");
}

#[test]
fn energy_block_shows_each_reading_or_na() {
    assert_eq!(energy(&plug(), None, None, None, None, None, None), "Plug: n/a (no energy sensor)");
    assert_eq!(
        energy(&metered(), Some("42.5"), Some("230"), None, Some("0.3"), Some("1.2"), Some("12.3")),
        "Plug\n  power:     42.5 W\n  voltage:   230 V\n  current:   n/a A\n  today:     0.3 kWh\n  yesterday: 1.2 kWh\n  total:     12.3 kWh"
    );
}
