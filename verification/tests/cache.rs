use tasmota::cache::{CachedDevice, DeviceCache};
use tasmota::model::{DeviceStatus, NetInfo};

fn device(name: &str, host: &str) -> CachedDevice {
    CachedDevice { name: name.to_string(), host: host.to_string(), module: None, mac: None }
}

fn status_named(host: &str, name: Option<&str>, friendly: &[&str]) -> DeviceStatus {
    DeviceStatus {
        host: host.to_string(),
        name: name.map(|s| s.to_string()),
        friendly_names: friendly.iter().map(|s| s.to_string()).collect(),
        module: Some(1),
        relays: Vec::new(),
        firmware: None,
        net: NetInfo { ip: None, mac: Some("AA:BB".to_string()), hostname: None },
        uptime: None,
        wifi_rssi: None,
        energy: None,
        mqtt: None,
    }
}

#[test]
fn roundtrip_and_find_is_case_insensitive() {
    let mut cache = DeviceCache::default();
    cache.upsert(CachedDevice { name: "Dryer".into(), host: "192.0.2.20".into(), module: Some(1), mac: None });
    assert_eq!(cache.find("dryer").unwrap().host, "192.0.2.20");
    assert!(cache.find("freezer").is_none());
}

#[test]
fn upsert_replaces_on_same_host() {
    let mut cache = DeviceCache::default();
    cache.upsert(device("Old", "192.0.2.21"));
    cache.upsert(device("New", "192.0.2.21"));
    assert_eq!(cache.devices.len(), 1);
    assert_eq!(cache.devices[0].name, "New");
}

#[test]
fn upsert_keeps_devices_sorted_by_name() {
    let mut cache = DeviceCache::default();
    cache.upsert(device("Washer", "192.0.2.3"));
    cache.upsert(device("Dryer", "192.0.2.2"));
    cache.upsert(device("Freezer", "192.0.2.4"));
    let names: Vec<&str> = cache.devices.iter().map(|d| d.name.as_str()).collect();
    assert_eq!(names, vec!["Dryer", "Freezer", "Washer"]);
}

#[test]
fn upsert_on_a_new_host_adds_one_device() {
    let mut cache = DeviceCache::default();
    cache.upsert(device("A", "192.0.2.1"));
    cache.upsert(device("A", "192.0.2.2"));
    assert_eq!(cache.devices.len(), 2);
}

#[test]
fn from_statuses_uses_display_names_and_sorts() {
    let statuses = vec![
        status_named("192.0.2.9", None, &["Zeta"]),
        status_named("192.0.2.8", Some("Alpha"), &[]),
        status_named("192.0.2.7", Some(""), &[]),
    ];
    let cache = DeviceCache::from_statuses(&statuses);
    let names: Vec<&str> = cache.devices.iter().map(|d| d.name.as_str()).collect();
    assert_eq!(names, vec!["192.0.2.7", "Alpha", "Zeta"]);
    assert_eq!(cache.devices[1].module, Some(1));
    assert_eq!(cache.devices[1].mac.as_deref(), Some("AA:BB"));
}
