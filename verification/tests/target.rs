use tasmota::cache::{CachedDevice, DeviceCache};
use tasmota::error::Error;
use tasmota::target::{resolve, Resolved, Selector};
use tasmota::transport::Credentials;

const GROUPS_PATH: &str = "/nonexistent/groups.toml";

fn empty_cache() -> Result<DeviceCache, Error> {
    Ok(DeviceCache::default())
}

fn no_groups() -> Result<Vec<(String, Vec<String>)>, Error> {
    Ok(Vec::new())
}

fn cache_of(devices: &[(&str, &str)]) -> Result<DeviceCache, Error> {
    let mut c = DeviceCache::default();
    for (name, host) in devices {
        c.upsert(CachedDevice { name: name.to_string(), host: host.to_string(), module: None, mac: None });
    }
    Ok(c)
}

fn hosts(r: &[Resolved]) -> Vec<String> {
    r.iter().map(|x| x.addr.host.clone()).collect()
}

#[test]
fn no_selection_is_usage_error() {
    let sel = Selector::default();
    let err = resolve(&sel, empty_cache(), no_groups(), GROUPS_PATH, &None).unwrap_err();
    assert_eq!(err.kind(), "usage");
}

#[test]
fn two_selections_is_usage_error() {
    let sel = Selector { host: Some("192.0.2.1".into()), all: true, ..Default::default() };
    let err = resolve(&sel, empty_cache(), no_groups(), GROUPS_PATH, &None).unwrap_err();
    assert_eq!(err.kind(), "usage");
}

#[test]
fn host_resolves_directly() {
    let sel = Selector { host: Some("198.51.100.5".into()), ..Default::default() };
    let out = resolve(&sel, empty_cache(), no_groups(), GROUPS_PATH, &None).unwrap();
    assert_eq!(out.len(), 1);
    assert_eq!(out[0].addr.host, "198.51.100.5");
}

#[test]
fn host_selection_ignores_an_unreadable_cache() {
    let sel = Selector { host: Some("198.51.100.6".into()), ..Default::default() };
    let broken = Err(Error::Io { message: "parsing cache".into() });
    let out = resolve(&sel, broken, no_groups(), GROUPS_PATH, &None).unwrap();
    assert_eq!(out[0].label, "198.51.100.6");
}

#[test]
fn unknown_name_exits_not_found() {
    let sel = Selector { name: Some("does-not-exist".into()), ..Default::default() };
    let err = resolve(&sel, empty_cache(), no_groups(), GROUPS_PATH, &None).unwrap_err();
    assert_eq!(err.kind(), "not_found");
    assert_eq!(err.exit_code(), 4);
}

#[test]
fn no_target_exits_usage() {
    let err = resolve(&Selector::default(), empty_cache(), no_groups(), GROUPS_PATH, &None).unwrap_err();
    assert_eq!(err.kind(), "usage");
    assert_eq!(err.exit_code(), 3);
}

#[test]
fn name_resolves_case_insensitively_with_credentials() {
    let sel = Selector { name: Some("dryer".into()), ..Default::default() };
    let creds = Some(Credentials { user: "admin".into(), password: "pw".into() });
    let out = resolve(&sel, cache_of(&[("Dryer", "192.0.2.20")]), no_groups(), GROUPS_PATH, &creds).unwrap();
    assert_eq!(out.len(), 1);
    assert_eq!(out[0].label, "Dryer");
    assert_eq!(out[0].addr.host, "192.0.2.20");
    assert_eq!(out[0].addr.credentials, creds);
}

#[test]
fn all_selects_every_cached_device_in_name_order() {
    let sel = Selector { all: true, ..Default::default() };
    let cache = cache_of(&[("Washer", "192.0.2.3"), ("Dryer", "192.0.2.2")]);
    let out = resolve(&sel, cache, no_groups(), GROUPS_PATH, &None).unwrap();
    assert_eq!(hosts(&out), vec!["192.0.2.2", "192.0.2.3"]);
}

#[test]
fn all_with_empty_cache_is_not_found() {
    let sel = Selector { all: true, ..Default::default() };
    let err = resolve(&sel, empty_cache(), no_groups(), GROUPS_PATH, &None).unwrap_err();
    assert_eq!(err.kind(), "not_found");
}

#[test]
fn group_members_resolve_by_name_or_ip() {
    let sel = Selector { group: Some("kitchen".into()), ..Default::default() };
    let groups = Ok(vec![("kitchen".to_string(), vec!["Freezer".to_string(), "10.10.20.5".to_string()])]);
    let out = resolve(&sel, cache_of(&[("Freezer", "192.0.2.7")]), groups, GROUPS_PATH, &None).unwrap();
    assert_eq!(hosts(&out), vec!["192.0.2.7", "10.10.20.5"]);
    assert_eq!(out[0].label, "Freezer");
    assert_eq!(out[1].label, "10.10.20.5");
}

#[test]
fn group_member_neither_cached_nor_ip_is_not_found() {
    let sel = Selector { group: Some("kitchen".into()), ..Default::default() };
    let groups = Ok(vec![("kitchen".to_string(), vec!["Toaster".to_string(), "10.10.20.500".to_string()])]);
    let err = resolve(&sel, empty_cache(), groups, GROUPS_PATH, &None).unwrap_err();
    assert_eq!(err.kind(), "not_found");
    assert_eq!(err.message(), "group member `Toaster` is not a cached device or an IP");
}

#[test]
fn unknown_or_empty_group_errors() {
    let sel = Selector { group: Some("attic".into()), ..Default::default() };
    let err = resolve(&sel, empty_cache(), no_groups(), GROUPS_PATH, &None).unwrap_err();
    assert_eq!(err.kind(), "not_found");
    assert_eq!(err.message(), "no group named `attic` in /nonexistent/groups.toml");
    let groups = Ok(vec![("attic".to_string(), Vec::new())]);
    let err = resolve(&sel, empty_cache(), groups, GROUPS_PATH, &None).unwrap_err();
    assert_eq!(err.kind(), "usage");
}

#[test]
fn unreadable_groups_file_error_is_reported() {
    let sel = Selector { group: Some("attic".into()), ..Default::default() };
    let broken = Err(Error::Io { message: "parsing groups.toml".into() });
    let err = resolve(&sel, empty_cache(), broken, GROUPS_PATH, &None).unwrap_err();
    assert_eq!(err.kind(), "io");
}
