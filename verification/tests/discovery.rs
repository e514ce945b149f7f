use std::cell::RefCell;

use tasmota::discovery::{cidr_from_octets, hosts_in_cidr, parse_ipv4, probe, sort_discovered, Discovered};
use tasmota::error::Error;
use tasmota::json::Json;
use tasmota::model::{DeviceStatus, NetInfo};
use tasmota::transport::{Credentials, DeviceAddr, Transport};

struct Lan {
    asked: RefCell<Vec<(String, Option<Credentials>, String)>>,
}

impl Transport for Lan {
    fn command(&self, addr: &DeviceAddr, cmnd: &str) -> Result<Json, Error> {
        self.asked.borrow_mut().push((addr.host.clone(), addr.credentials.clone(), cmnd.to_string()));
        match addr.host.as_str() {
            "192.0.2.1" => Ok(Json::Object(vec![
                ("Status".to_string(), Json::Object(vec![("DeviceName".to_string(), Json::Str("Kettle".to_string()))])),
                ("StatusFWR".to_string(), Json::Object(vec![("Version".to_string(), Json::Str("14.2.0".to_string()))])),
            ])),
            "192.0.2.2" => Ok(Json::Object(vec![("hello".to_string(), Json::Str("world".to_string()))])),
            _ => Err(Error::Network { message: "unreachable".into() }),
        }
    }

    fn download(&self, _addr: &DeviceAddr, _path: &str) -> Result<Vec<u8>, Error> {
        Ok(Vec::new())
    }

    fn upload(&self, _addr: &DeviceAddr, _path: &str, _field: &str, _filename: &str, _data: &[u8]) -> Result<Json, Error> {
        Ok(Json::Null)
    }
}

fn found(host: &str, name: &str) -> Discovered {
    Discovered {
        host: host.to_string(),
        status: DeviceStatus {
            host: host.to_string(),
            name: Some(name.to_string()),
            friendly_names: Vec::new(),
            module: None,
            relays: Vec::new(),
            firmware: None,
            net: NetInfo::default(),
            uptime: None,
            wifi_rssi: None,
            energy: None,
            mqtt: None,
        },
    }
}

#[test]
fn cidr_24_excludes_network_and_broadcast() {
    let hosts = hosts_in_cidr("192.0.2.0/24").unwrap();
    assert_eq!(hosts.len(), 254);
    assert_eq!(hosts[0], "192.0.2.1");
    assert_eq!(hosts[253], "192.0.2.254");
}

#[test]
fn cidr_rejects_too_large_and_malformed() {
    assert!(hosts_in_cidr("192.0.2.0/8").is_err());
    assert!(hosts_in_cidr("not-a-cidr").is_err());
    assert!(hosts_in_cidr("192.0.2.0/33").is_err());
}

#[test]
fn cidr_32_is_single_host() {
    let hosts = hosts_in_cidr("198.51.100.7/32").unwrap();
    assert_eq!(hosts, vec!["198.51.100.7"]);
}

#[test]
fn cidr_31_keeps_both_addresses_and_masks_the_base() {
    assert_eq!(hosts_in_cidr("198.51.100.7/31").unwrap(), vec!["198.51.100.6", "198.51.100.7"]);
    let h = hosts_in_cidr("10.1.2.3/16").unwrap();
    assert_eq!(h.len(), 65534);
    assert_eq!(h[0], "10.1.0.1");
    assert_eq!(h[65533], "10.1.255.254");
}

#[test]
fn cidr_errors_say_what_is_wrong() {
    assert_eq!(hosts_in_cidr("192.0.2.0/8").unwrap_err().message(), "refusing to scan a range larger than /16 (got /8)");
    assert_eq!(hosts_in_cidr("192.0.2.0/33").unwrap_err().message(), "prefix /33 out of range");
    assert_eq!(hosts_in_cidr("192.0.2.0/x").unwrap_err().message(), "invalid prefix length in CIDR `192.0.2.0/x`");
    assert_eq!(hosts_in_cidr("192.0.02.0/24").unwrap_err().kind(), "usage");
}

#[test]
fn ipv4_parsing_follows_dotted_quads() {
    let v = |s: &str| parse_ipv4(&s.chars().collect::<Vec<char>>());
    assert_eq!(v("192.0.2.1"), Some(3221225985));
    assert_eq!(v("0.0.0.0"), Some(0));
    assert_eq!(v("256.0.0.1"), None);
    assert_eq!(v("1.2.3"), None);
    assert_eq!(v("01.2.3.4"), None);
}

#[test]
fn default_range_is_the_hosts_slash_24() {
    assert_eq!(cidr_from_octets(192, 168, 7), "192.168.7.0/24");
}

#[test]
fn probe_finds_only_tasmota_devices() {
    let lan = Lan { asked: RefCell::new(Vec::new()) };
    let creds = Some(Credentials { user: "admin".into(), password: "pw".into() });
    let d = probe(&lan, "192.0.2.1", &creds).unwrap();
    assert_eq!(d.host, "192.0.2.1");
    assert_eq!(d.status.display_name(), "Kettle");
    assert!(probe(&lan, "192.0.2.2", &creds).is_none());
    assert!(probe(&lan, "192.0.2.3", &None).is_none());
    let asked = lan.asked.borrow();
    assert_eq!(asked[0].1, creds);
    assert_eq!(asked[0].2, "Status 0");
    assert_eq!(asked[2].1, None);
}

#[test]
fn found_devices_are_sorted_by_name_stably() {
    let list = vec![found("192.0.2.3", "b"), found("192.0.2.1", "a"), found("192.0.2.2", "b"), found("192.0.2.4", "B")];
    let sorted = sort_discovered(list);
    let order: Vec<&str> = sorted.iter().map(|d| d.host.as_str()).collect();
    assert_eq!(order, vec!["192.0.2.4", "192.0.2.1", "192.0.2.3", "192.0.2.2"]);
}
