//! Parse a Tasmota `Status 0` response into a [`DeviceStatus`].
//!
//! - Live relay state comes from `StatusSTS.POWER` / `POWERn`, never from the
//!   numeric `Status.Power` bitmask.
//! - Relay text defaults to `ON`/`OFF` but is configurable via `StateText`; an
//!   unrecognized string is `Unknown`, never coerced to `Off`.
//! - A missing `StatusSNS.ENERGY` block yields `None` (no sensor), not zero.
//! - `Wifi.RSSI` is nested under `StatusSTS.Wifi`.
//! - MQTT comes from `StatusMQT`; `connected` is never inferred over HTTP.

use vstd::prelude::*;
use crate::error::{Error, ErrorView};
use crate::json::{jget, jstr, oget, oint, onum, ostr, Json};
use crate::model::{
    opt_view, relays_view, strings_view, DeviceStatus, DeviceStatusView, Energy, EnergyView,
    MqttInfo, MqttInfoView, NetInfo, NetInfoView, Relay, RelayState, RelayStateView, RelayView,
};
use crate::text::{
    chars_eq_str, eq_ic, eq_ic_chars, parse_unsigned, parse_unsigned_range, slice_vec, string_of,
    to_chars, trim, trimmed, upper_chars, upper_s,
};

verus! {

/// The device's configured relay state labels, from the `StateText` command
/// (`{"StateText1":"OFF","StateText2":"ON",...}`).
#[derive(Debug, Clone, Default)]
pub struct StateTextMap {
    pub off: Option<String>,
    pub on: Option<String>,
}

pub struct StateTextMapView {
    pub off: Option<Seq<char>>,
    pub on: Option<Seq<char>>,
}

impl View for StateTextMap {
    type V = StateTextMapView;

    open spec fn view(&self) -> StateTextMapView {
        StateTextMapView { off: opt_view(self.off), on: opt_view(self.on) }
    }
}

/// The labels carried by a `StateText` response.
pub open spec fn statetext_of(v: Json) -> StateTextMapView {
    StateTextMapView { off: ostr(jget(v, "StateText1"@)), on: ostr(jget(v, "StateText2"@)) }
}

/// An optional string member, as an owned string.
fn str_member(v: &Json, key: &str) -> (r: Option<String>)
    ensures
        opt_view(r) == ostr(jget(*v, key@)),
{
    match v.get(key) {
        Some(m) => match m.as_str() {
            Some(s) => Some(String::from_str(s)),
            None => None,
        },
        None => None,
    }
}

impl StateTextMap {
    /// Reads the labels from the JSON returned by the `StateText` command.
    pub fn from_value(v: &Json) -> (r: StateTextMap)
        ensures
            r@ == statetext_of(*v),
    {
        StateTextMap { off: str_member(v, "StateText1"), on: str_member(v, "StateText2") }
    }

    fn is_empty(&self) -> (r: bool)
        ensures
            r == (self@.off is None && self@.on is None),
    {
        self.off.is_none() && self.on.is_none()
    }
}

/// The state a raw relay string denotes. With a non-empty label map the trimmed text
/// is matched (ignoring ASCII case) only against that map, and an ambiguous map
/// (identical labels) or a text matching neither label is `Unknown`; without one the
/// built-in `ON`/`1`/`TRUE` and `OFF`/`0`/`FALSE` apply.
pub open spec fn relay_state_of(raw: Seq<char>, map: Option<StateTextMapView>) -> RelayStateView {
    let t = trim(raw);
    match map {
        Some(m) if !(m.off is None && m.on is None) => {
            if m.on is Some && m.off is Some && eq_ic(m.on->0, m.off->0) {
                RelayStateView::Unknown(t)
            } else if m.on is Some && eq_ic(t, m.on->0) {
                RelayStateView::On
            } else if m.off is Some && eq_ic(t, m.off->0) {
                RelayStateView::Off
            } else {
                RelayStateView::Unknown(t)
            }
        },
        _ => {
            let u = upper_s(t);
            if u == "ON"@ || u == "1"@ || u == "TRUE"@ {
                RelayStateView::On
            } else if u == "OFF"@ || u == "0"@ || u == "FALSE"@ {
                RelayStateView::Off
            } else {
                RelayStateView::Unknown(t)
            }
        },
    }
}

pub open spec fn map_view(map: Option<&StateTextMap>) -> Option<StateTextMapView> {
    match map {
        Some(m) => Some(m@),
        None => None,
    }
}

/// Normalizes a raw relay string to a [`RelayState`] (see `relay_state_of`).
pub fn normalize_relay(raw: &str, map: Option<&StateTextMap>) -> (r: RelayState)
    ensures
        r@ == relay_state_of(raw@, map_view(map)),
{
    let cs = to_chars(raw);
    let t = trimmed(cs.as_slice());
    match map {
        Some(m) if !m.is_empty() => {
            if let (Some(on), Some(off)) = (&m.on, &m.off) {
                let onc = to_chars(on.as_str());
                let offc = to_chars(off.as_str());
                if eq_ic_chars(onc.as_slice(), offc.as_slice()) {
                    return RelayState::Unknown(string_of(t.as_slice()));
                }
            }
            if let Some(on) = &m.on {
                let onc = to_chars(on.as_str());
                if eq_ic_chars(t.as_slice(), onc.as_slice()) {
                    return RelayState::On;
                }
            }
            if let Some(off) = &m.off {
                let offc = to_chars(off.as_str());
                if eq_ic_chars(t.as_slice(), offc.as_slice()) {
                    return RelayState::Off;
                }
            }
            RelayState::Unknown(string_of(t.as_slice()))
        },
        _ => {
            let u = upper_chars(t.as_slice());
            if chars_eq_str(u.as_slice(), "ON") || chars_eq_str(u.as_slice(), "1")
                || chars_eq_str(u.as_slice(), "TRUE") {
                RelayState::On
            } else if chars_eq_str(u.as_slice(), "OFF") || chars_eq_str(u.as_slice(), "0")
                || chars_eq_str(u.as_slice(), "FALSE") {
                RelayState::Off
            } else {
                RelayState::Unknown(string_of(t.as_slice()))
            }
        },
    }
}

/// The relay index a `StatusSTS` member name denotes: `POWER` is 0, and `POWER<n>` is
/// `n` for a decimal `n` from 1 to 255 written without sign or leading zero; any other
/// name denotes none.
pub open spec fn relay_index_of(key: Seq<char>) -> Option<u8> {
    if key.len() >= 5 && key.take(5) == "POWER"@ {
        let d = key.skip(5);
        if d.len() == 0 {
            Some(0u8)
        } else if d[0] != '0' && d[0] != '+' && parse_unsigned(d, 255) is Some {
            Some(parse_unsigned(d, 255)->0 as u8)
        } else {
            None
        }
    } else {
        None
    }
}

/// `POWER` -> 0, `POWER1`..`POWERn` -> n, anything else -> `None`.
pub fn relay_index(key: &str) -> (r: Option<u8>)
    ensures
        r == relay_index_of(key@),
{
    let cs = to_chars(key);
    if cs.len() < 5 {
        return None;
    }
    let head = slice_vec(cs.as_slice(), 0, 5);
    if !chars_eq_str(head.as_slice(), "POWER") {
        return None;
    }
    if cs.len() == 5 {
        return Some(0);
    }
    assert(cs@.subrange(5, cs@.len() as int) == key@.skip(5));
    if cs[5] == '0' || cs[5] == '+' {
        return None;
    }
    match parse_unsigned_range(cs.as_slice(), 5, cs.len(), 255) {
        Some(n) => Some(n as u8),
        None => None,
    }
}

/// A non-empty string member (`as_string` of the device parser).
pub open spec fn nonempty_str(j: Option<Json>, key: Seq<char>) -> Option<Seq<char>> {
    match ostr(oget(j, key)) {
        Some(s) => if s.len() > 0 {
            Some(s)
        } else {
            None
        },
        None => None,
    }
}

fn as_string(v: &Json, key: &str) -> (r: Option<String>)
    ensures
        opt_view(r) == nonempty_str(Some(*v), key@),
{
    match v.get(key) {
        Some(m) => match m.as_str() {
            Some(s) => if s.is_empty() {
                None
            } else {
                Some(String::from_str(s))
            },
            None => None,
        },
        None => None,
    }
}

fn as_i64(v: &Json, key: &str) -> (r: Option<i64>)
    ensures
        match r {
            Some(n) => oint(jget(*v, key@)) == Some(n as int),
            None => oint(jget(*v, key@)) is None,
        },
{
    match v.get(key) {
        Some(m) => m.as_i64(),
        None => None,
    }
}

fn as_f64(v: &Json, key: &str) -> (r: Option<String>)
    ensures
        opt_view(r) == onum(jget(*v, key@)),
{
    match v.get(key) {
        Some(m) => match m.as_number() {
            Some(t) => Some(t.clone()),
            None => None,
        },
        None => None,
    }
}

/// The string elements of an array, in order.
pub open spec fn strings_in(a: Seq<Json>) -> Seq<Seq<char>>
    decreases a.len(),
{
    if a.len() == 0 {
        Seq::empty()
    } else {
        let init = strings_in(a.drop_last());
        match jstr(a.last()) {
            Some(s) => init.push(s),
            None => init,
        }
    }
}

/// Friendly names, reported either as an array (its string elements) or a scalar.
pub open spec fn friendly_names_of(status: Json) -> Seq<Seq<char>> {
    match jget(status, "FriendlyName"@) {
        Some(Json::Array(a)) => strings_in(a@),
        Some(Json::Str(s)) => seq![s@],
        _ => Seq::empty(),
    }
}

fn friendly_names(status: &Json) -> (r: Vec<String>)
    ensures
        strings_view(r@) == friendly_names_of(*status),
{
    match status.get("FriendlyName") {
        Some(Json::Array(a)) => {
            let mut r: Vec<String> = Vec::new();
            let mut i: usize = 0;
            while i < a.len()
                invariant
                    i <= a.len(),
                    strings_view(r@) == strings_in(a@.take(i as int)),
                decreases a.len() - i,
            {
                assert(a@.take(i + 1).drop_last() =~= a@.take(i as int));
                if let Some(s) = a[i].as_str() {
                    r.push(String::from_str(s));
                    assert(strings_view(r@) =~= strings_in(a@.take(i as int)).push(s@));
                }
                i = i + 1;
            }
            assert(a@.take(a.len() as int) =~= a@);
            r
        },
        Some(Json::Str(s)) => {
            let mut r: Vec<String> = Vec::new();
            r.push(s.clone());
            assert(strings_view(r@) =~= seq![s@]);
            r
        },
        _ => {
            let r: Vec<String> = Vec::new();
            assert(strings_view(r@) =~= Seq::<Seq<char>>::empty());
            r
        },
    }
}

/// The relays named by object members, in member order: each member `POWER`/`POWERn`
/// whose value is a string.
pub open spec fn relay_entries(es: Seq<(String, Json)>, map: Option<StateTextMapView>) -> Seq<
    RelayView,
>
    decreases es.len(),
{
    if es.len() == 0 {
        Seq::empty()
    } else {
        let init = relay_entries(es.drop_last(), map);
        match (relay_index_of(es.last().0@), jstr(es.last().1)) {
            (Some(i), Some(raw)) => init.push(
                RelayView { index: i, state: relay_state_of(raw, map), raw: raw },
            ),
            _ => init,
        }
    }
}

/// Number of leading elements of `s` whose index is at most `k`.
pub open spec fn index_pos(s: Seq<RelayView>, k: u8) -> nat
    decreases s.len(),
{
    if s.len() == 0 || s[0].index > k { 0 } else { 1 + index_pos(s.drop_first(), k) }
}

/// `s` with `x` inserted after every leading element whose index is at most `x`'s.
pub open spec fn insert_by_index(s: Seq<RelayView>, x: RelayView) -> Seq<RelayView> {
    s.insert(index_pos(s, x.index) as int, x)
}

/// The stable sort of relays by index (insertion sort).
pub open spec fn sort_by_index(s: Seq<RelayView>) -> Seq<RelayView>
    decreases s.len(),
{
    if s.len() == 0 {
        Seq::empty()
    } else {
        insert_by_index(sort_by_index(s.drop_last()), s.last())
    }
}

/// The relays of a `StatusSTS` block: its relay members ordered (stably) by index.
pub open spec fn relays_of(sts: Option<Json>, map: Option<StateTextMapView>) -> Seq<RelayView> {
    match sts {
        Some(Json::Object(es)) => sort_by_index(relay_entries(es@, map)),
        _ => Seq::empty(),
    }
}

proof fn lemma_index_pos(s: Seq<RelayView>, k: u8, p: int)
    requires
        0 <= p <= s.len(),
        forall|j: int| 0 <= j < p ==> (#[trigger] s[j]).index <= k,
        p == s.len() || s[p].index > k,
    ensures
        index_pos(s, k) == p,
    decreases p,
{
    if p > 0 {
        lemma_index_pos(s.drop_first(), k, p - 1);
    }
}

fn copy_relay(r: &Relay) -> (c: Relay)
    ensures
        c@ == r@,
{
    let state = match &r.state {
        RelayState::On => RelayState::On,
        RelayState::Off => RelayState::Off,
        RelayState::Unknown(s) => RelayState::Unknown(s.clone()),
    };
    Relay { index: r.index, state, raw: r.raw.clone() }
}

/// Sorts relays by index, keeping the order of relays with equal indices.
fn sort_relays(v: Vec<Relay>) -> (r: Vec<Relay>)
    ensures
        relays_view(r@) == sort_by_index(relays_view(v@)),
{
    let mut r: Vec<Relay> = Vec::new();
    let mut i: usize = 0;
    while i < v.len()
        invariant
            i <= v.len(),
            relays_view(r@) == sort_by_index(relays_view(v@.take(i as int))),
        decreases v.len() - i,
    {
        let x = copy_relay(&v[i]);
        let mut p: usize = 0;
        while p < r.len() && r[p].index <= x.index
            invariant
                p <= r.len(),
                forall|j: int| 0 <= j < p ==> (#[trigger] r@[j]).index <= x.index,
            decreases r.len() - p,
        {
            p = p + 1;
        }
        proof {
            let rv = relays_view(r@);
            assert forall|j: int| 0 <= j < p implies (#[trigger] rv[j]).index <= x.index by {
                assert(rv[j] == r@[j]@);
            }
            if p < r.len() {
                assert(rv[p as int] == r@[p as int]@);
            }
            lemma_index_pos(rv, x.index, p as int);
            assert(relays_view(v@.take(i + 1)).drop_last() =~= relays_view(v@.take(i as int)));
            assert(relays_view(v@.take(i + 1)).last() == v@[i as int]@);
        }
        let ghost old_r = r@;
        r.insert(p, x);
        assert(relays_view(r@) =~= relays_view(old_r).insert(p as int, x@));
        i = i + 1;
    }
    assert(v@.take(v.len() as int) =~= v@);
    r
}

/// Collects relays from `StatusSTS`, reading only `POWER`/`POWERn` string members.
fn parse_relays(sts: &Json, map: Option<&StateTextMap>) -> (r: Vec<Relay>)
    ensures
        relays_view(r@) == relays_of(Some(*sts), map_view(map)),
{
    match sts {
        Json::Object(obj) => {
            let mut relays: Vec<Relay> = Vec::new();
            let mut i: usize = 0;
            while i < obj.len()
                invariant
                    i <= obj.len(),
                    relays_view(relays@) == relay_entries(obj@.take(i as int), map_view(map)),
                decreases obj.len() - i,
            {
                assert(obj@.take(i + 1).drop_last() =~= obj@.take(i as int));
                assert(obj@.take(i + 1).last() == obj@[i as int]);
                let (key, val) = (&obj[i].0, &obj[i].1);
                match relay_index(key.as_str()) {
                    Some(index) => match val.as_str() {
                        Some(raw) => {
                            let rel = Relay {
                                index,
                                state: normalize_relay(raw, map),
                                raw: String::from_str(raw),
                            };
                            relays.push(rel);
                            assert(relays_view(relays@) =~= relay_entries(
                                obj@.take(i as int),
                                map_view(map),
                            ).push(rel@));
                        },
                        None => {},
                    },
                    None => {},
                }
                i = i + 1;
            }
            assert(obj@.take(obj.len() as int) =~= obj@);
            sort_relays(relays)
        },
        _ => {
            let r: Vec<Relay> = Vec::new();
            assert(relays_view(r@) =~= Seq::<RelayView>::empty());
            r
        },
    }
}


/// The energy readings of a `StatusSNS` block: `None` when it has no `ENERGY` member.
pub open spec fn energy_of(sns: Json) -> Option<EnergyView> {
    match jget(sns, "ENERGY"@) {
        Some(e) => Some(
            EnergyView {
                power_w: onum(jget(e, "Power"@)),
                voltage_v: onum(jget(e, "Voltage"@)),
                current_a: onum(jget(e, "Current"@)),
                today_kwh: onum(jget(e, "Today"@)),
                yesterday_kwh: onum(jget(e, "Yesterday"@)),
                total_kwh: onum(jget(e, "Total"@)),
            },
        ),
        None => None,
    }
}

fn parse_energy(sns: &Json) -> (r: Option<Energy>)
    ensures
        match r {
            Some(e) => energy_of(*sns) == Some(e@),
            None => energy_of(*sns) is None,
        },
{
    match sns.get("ENERGY") {
        Some(energy) => Some(
            Energy {
                power_w: as_f64(energy, "Power"),
                voltage_v: as_f64(energy, "Voltage"),
                current_a: as_f64(energy, "Current"),
                today_kwh: as_f64(energy, "Today"),
                yesterday_kwh: as_f64(energy, "Yesterday"),
                total_kwh: as_f64(energy, "Total"),
            },
        ),
        None => None,
    }
}

/// The network identity of a `StatusNET` block.
pub open spec fn net_of(net: Json) -> NetInfoView {
    NetInfoView {
        ip: nonempty_str(Some(net), "IPAddress"@),
        mac: nonempty_str(Some(net), "Mac"@),
        hostname: nonempty_str(Some(net), "Hostname"@),
    }
}

fn parse_net(net: &Json) -> (r: NetInfo)
    ensures
        r@ == net_of(*net),
{
    NetInfo {
        ip: as_string(net, "IPAddress"),
        mac: as_string(net, "Mac"),
        hostname: as_string(net, "Hostname"),
    }
}

pub open spec fn opt_i64(o: Option<int>) -> Option<i64> {
    match o {
        Some(n) => Some(n as i64),
        None => None,
    }
}

/// The MQTT configuration of a `StatusMQT` block; `connected` is never inferred.
pub open spec fn mqtt_of(mqt: Json) -> MqttInfoView {
    MqttInfoView {
        host: nonempty_str(Some(mqt), "MqttHost"@),
        port: opt_i64(oint(jget(mqt, "MqttPort"@))),
        client: nonempty_str(Some(mqt), "MqttClient"@),
        reconnect_count: opt_i64(oint(jget(mqt, "MqttCount"@))),
        connected: None,
    }
}

fn parse_mqtt(mqt: &Json) -> (r: MqttInfo)
    ensures
        r@ == mqtt_of(*mqt),
{
    let port = as_i64(mqt, "MqttPort");
    let count = as_i64(mqt, "MqttCount");
    let r = MqttInfo {
        host: as_string(mqt, "MqttHost"),
        port,
        client: as_string(mqt, "MqttClient"),
        reconnect_count: count,
        connected: None,
    };
    assert(r@.port == opt_i64(oint(jget(*mqt, "MqttPort"@))));
    assert(r@.reconnect_count == opt_i64(oint(jget(*mqt, "MqttCount"@))));
    r
}

pub open spec fn mqtt_from(value: Json) -> Option<MqttInfoView> {
    match jget(value, "StatusMQT"@) {
        Some(m) => Some(mqtt_of(m)),
        None => None,
    }
}

/// MQTT info from any status response carrying `StatusMQT` (e.g. `Status 6`).
pub fn mqtt_from_status(value: &Json) -> (r: Option<MqttInfo>)
    ensures
        match r {
            Some(m) => mqtt_from(*value) == Some(m@),
            None => mqtt_from(*value) is None,
        },
{
    match value.get("StatusMQT") {
        Some(m) => Some(parse_mqtt(m)),
        None => None,
    }
}

/// A response is a Tasmota `Status 0` reply when it carries `StatusFWR.Version`.
pub open spec fn is_tasmota(value: Json) -> bool {
    oget(jget(value, "StatusFWR"@), "Version"@) is Some
}

/// A device is "Tasmota" for discovery purposes when its `Status 0` response has
/// the `StatusFWR` firmware object with a `Version`. Header sniffing is not used.
pub fn looks_like_tasmota(value: &Json) -> (r: bool)
    ensures
        r == is_tasmota(*value),
{
    match value.get("StatusFWR") {
        Some(f) => f.get("Version").is_some(),
        None => false,
    }
}

/// The device status a `Status 0` document describes, read from `host`, with the
/// relay labels `map`: an error for a non-object or a non-Tasmota document.
pub open spec fn status_of(host: Seq<char>, value: Json, map: Option<StateTextMapView>) -> Result<
    DeviceStatusView,
    ErrorView,
> {
    if !(value is Object) {
        Err(
            ErrorView::Parse(
                "expected a JSON object from "@ + host + ", got a non-object response"@,
            ),
        )
    } else if !is_tasmota(value) {
        Err(
            ErrorView::Parse(
                host + " did not return a Tasmota Status 0 response (no StatusFWR.Version)"@,
            ),
        )
    } else {
        let status = jget(value, "Status"@);
        let sts = jget(value, "StatusSTS"@);
        Ok(
            DeviceStatusView {
                host: host,
                name: nonempty_str(status, "DeviceName"@),
                friendly_names: match status {
                    Some(s) => friendly_names_of(s),
                    None => Seq::empty(),
                },
                module: opt_i64(oint(oget(status, "Module"@))),
                relays: relays_of(sts, map),
                firmware: nonempty_str(jget(value, "StatusFWR"@), "Version"@),
                net: match jget(value, "StatusNET"@) {
                    Some(n) => net_of(n),
                    None => NetInfoView { ip: None, mac: None, hostname: None },
                },
                uptime: nonempty_str(sts, "Uptime"@),
                wifi_rssi: opt_i64(oint(oget(oget(sts, "Wifi"@), "RSSI"@))),
                energy: match jget(value, "StatusSNS"@) {
                    Some(sns) => energy_of(sns),
                    None => None,
                },
                mqtt: mqtt_from(value),
            },
        )
    }
}

pub open spec fn result_view(r: Result<DeviceStatus, Error>) -> Result<DeviceStatusView, ErrorView> {
    match r {
        Ok(s) => Ok(s@),
        Err(e) => Err(e@),
    }
}

/// Parses a `Status 0` document. `statetext` may carry the device's configured relay
/// labels (from the `StateText` command) so custom labels resolve correctly.
pub fn parse_status(host: &str, value: &Json, statetext: Option<&StateTextMap>) -> (r: Result<
    DeviceStatus,
    Error,
>)
    ensures
        result_view(r) == status_of(host@, *value, map_view(statetext)),
{
    if !value.is_object() {
        let mut m = String::from_str("expected a JSON object from ");
        m.append(host);
        m.append(", got a non-object response");
        return Err(Error::Parse { message: m });
    }
    if !looks_like_tasmota(value) {
        let mut m = String::from_str(host);
        m.append(" did not return a Tasmota Status 0 response (no StatusFWR.Version)");
        return Err(Error::Parse { message: m });
    }
    let status = value.get("Status");
    let sts = value.get("StatusSTS");
    let relays = match sts {
        Some(s) => parse_relays(s, statetext),
        None => {
            let r: Vec<Relay> = Vec::new();
            assert(relays_view(r@) =~= Seq::<RelayView>::empty());
            r
        },
    };
    let name = match status {
        Some(s) => as_string(s, "DeviceName"),
        None => None,
    };
    let friendly = match status {
        Some(s) => friendly_names(s),
        None => {
            let r: Vec<String> = Vec::new();
            assert(strings_view(r@) =~= Seq::<Seq<char>>::empty());
            r
        },
    };
    let module = match status {
        Some(s) => as_i64(s, "Module"),
        None => None,
    };
    let firmware = match value.get("StatusFWR") {
        Some(f) => as_string(f, "Version"),
        None => None,
    };
    let net = match value.get("StatusNET") {
        Some(n) => parse_net(n),
        None => NetInfo { ip: None, mac: None, hostname: None },
    };
    let uptime = match sts {
        Some(s) => as_string(s, "Uptime"),
        None => None,
    };
    let wifi_rssi = match sts {
        Some(s) => match s.get("Wifi") {
            Some(w) => as_i64(w, "RSSI"),
            None => None,
        },
        None => None,
    };
    let energy = match value.get("StatusSNS") {
        Some(sns) => parse_energy(sns),
        None => None,
    };
    let mqtt = match value.get("StatusMQT") {
        Some(m) => Some(parse_mqtt(m)),
        None => None,
    };
    let d = DeviceStatus {
        host: String::from_str(host),
        name,
        friendly_names: friendly,
        module,
        relays,
        firmware,
        net,
        uptime,
        wifi_rssi,
        energy,
        mqtt,
    };
    Ok(d)
}

/// Whether relays are in index order.
pub open spec fn index_ordered(s: Seq<RelayView>) -> bool {
    forall|i: int, j: int| 0 <= i < j < s.len() ==> (#[trigger] s[i]).index <= (#[trigger] s[j]).index
}

/// The relay members of a `StatusSTS` block, in the order the block lists them.
pub open spec fn sts_relays(sts: Option<Json>, map: Option<StateTextMapView>) -> Seq<RelayView> {
    match sts {
        Some(Json::Object(es)) => relay_entries(es@, map),
        _ => Seq::empty(),
    }
}

proof fn lemma_index_pos_split(s: Seq<RelayView>, k: u8)
    requires
        index_ordered(s),
    ensures
        index_pos(s, k) <= s.len(),
        forall|j: int| 0 <= j < index_pos(s, k) ==> (#[trigger] s[j]).index <= k,
        forall|j: int| index_pos(s, k) <= j < s.len() ==> (#[trigger] s[j]).index > k,
    decreases s.len(),
{
    if s.len() > 0 {
        if s[0].index <= k {
            let t = s.drop_first();
            assert forall|i: int, j: int| 0 <= i < j < t.len() implies (#[trigger] t[i]).index
                <= (#[trigger] t[j]).index by {
                assert(t[i] == s[i + 1] && t[j] == s[j + 1]);
            }
            lemma_index_pos_split(t, k);
            assert forall|j: int| 0 <= j < index_pos(s, k) implies (#[trigger] s[j]).index <= k by {
                if j > 0 {
                    assert(s[j] == t[j - 1]);
                }
            }
            assert forall|j: int| index_pos(s, k) <= j < s.len() implies (#[trigger] s[j]).index
                > k by {
                assert(s[j] == t[j - 1]);
            }
        } else {
            assert forall|j: int| 0 <= j < s.len() implies (#[trigger] s[j]).index > k by {
                if j > 0 {
                    assert(s[0].index <= s[j].index);
                }
            }
        }
    }
}

proof fn lemma_sort_by_index(s: Seq<RelayView>)
    ensures
        index_ordered(sort_by_index(s)),
        sort_by_index(s).to_multiset() == s.to_multiset(),
    decreases s.len(),
{
    broadcast use vstd::seq_lib::group_to_multiset_ensures;

    if s.len() == 0 {
        assert(sort_by_index(s) =~= s);
    } else {
        let init = sort_by_index(s.drop_last());
        lemma_sort_by_index(s.drop_last());
        let x = s.last();
        lemma_index_pos_split(init, x.index);
        let p = index_pos(init, x.index) as int;
        let t = init.insert(p, x);
        assert(sort_by_index(s) == t);
        assert forall|i: int, j: int| 0 <= i < j < t.len() implies (#[trigger] t[i]).index
            <= (#[trigger] t[j]).index by {
            if j < p {
                assert(t[i] == init[i] && t[j] == init[j]);
            } else if j == p {
                assert(t[i] == init[i]);
            } else if i < p {
                assert(t[i] == init[i] && t[j] == init[j - 1]);
            } else if i == p {
                assert(t[j] == init[j - 1]);
            } else {
                assert(t[i] == init[i - 1] && t[j] == init[j - 1]);
            }
        }
        vstd::seq_lib::to_multiset_insert(init, p, x);
        vstd::seq_lib::to_multiset_build(s.drop_last(), x);
        assert(s.drop_last().push(x) =~= s);
    }
}

/// The relays of a parsed status are exactly the `POWER`/`POWERn` members of its
/// `StatusSTS` block (never the `Status.Power` bitmask), ordered by index.
pub proof fn parsed_relays_are_ordered(host: Seq<char>, value: Json, map: Option<StateTextMapView>)
    ensures
        status_of(host, value, map) matches Ok(s) ==> index_ordered(s.relays)
            && s.relays.to_multiset() == sts_relays(jget(value, "StatusSTS"@), map).to_multiset(),
{
    match jget(value, "StatusSTS"@) {
        Some(Json::Object(es)) => lemma_sort_by_index(relay_entries(es@, map)),
        _ => {},
    }
}

/// Whether a map holds labels (one or both).
pub open spec fn has_labels(map: Option<StateTextMapView>) -> bool {
    map matches Some(m) && !(m.off is None && m.on is None)
}

/// A relay is reported `On` only for its on-label: the configured one when the
/// device has labels, else `ON`, `1` or `TRUE` in any ASCII case; likewise `Off`.
/// Any other text is `Unknown`, never a guessed state.
pub proof fn relay_state_is_never_guessed(raw: Seq<char>, map: Option<StateTextMapView>)
    ensures
        relay_state_of(raw, map) is On ==> if has_labels(map) {
            map->0.on is Some && eq_ic(trim(raw), map->0.on->0)
        } else {
            upper_s(trim(raw)) == "ON"@ || upper_s(trim(raw)) == "1"@ || upper_s(trim(raw))
                == "TRUE"@
        },
        relay_state_of(raw, map) is Off ==> if has_labels(map) {
            map->0.off is Some && eq_ic(trim(raw), map->0.off->0)
        } else {
            upper_s(trim(raw)) == "OFF"@ || upper_s(trim(raw)) == "0"@ || upper_s(trim(raw))
                == "FALSE"@
        },
        relay_state_of(raw, map) matches RelayStateView::Unknown(t) ==> t == trim(raw),
{
}

/// MQTT settings never claim a connection state: nothing over HTTP reports it.
pub proof fn mqtt_connected_is_never_inferred(value: Json)
    ensures
        mqtt_from(value) matches Some(m) ==> m.connected is None,
{
}

/// The parsed status never reads `Status.Power`: two documents that agree on every
/// member but `Status`, and whose `Status` blocks agree on every member but `Power`,
/// parse to the same status (or the same error).
pub proof fn status_power_is_never_read(
    host: Seq<char>,
    v1: Json,
    v2: Json,
    map: Option<StateTextMapView>,
)
    requires
        (v1 is Object) == (v2 is Object),
        forall|k: Seq<char>| k != "Status"@ ==> #[trigger] jget(v1, k) == jget(v2, k),
        forall|k: Seq<char>|
            k != "Power"@ ==> #[trigger] oget(jget(v1, "Status"@), k) == oget(
                jget(v2, "Status"@),
                k,
            ),
    ensures
        status_of(host, v1, map) == status_of(host, v2, map),
{
    reveal_strlit("Status");
    reveal_strlit("Power");
    reveal_strlit("StatusFWR");
    reveal_strlit("StatusSTS");
    reveal_strlit("StatusNET");
    reveal_strlit("StatusSNS");
    reveal_strlit("StatusMQT");
    reveal_strlit("DeviceName");
    reveal_strlit("FriendlyName");
    reveal_strlit("Module");
    assert("StatusFWR"@.len() != "Status"@.len());
    assert(jget(v1, "StatusFWR"@) == jget(v2, "StatusFWR"@));
    assert("StatusSTS"@.len() != "Status"@.len());
    assert(jget(v1, "StatusSTS"@) == jget(v2, "StatusSTS"@));
    assert("StatusNET"@.len() != "Status"@.len());
    assert(jget(v1, "StatusNET"@) == jget(v2, "StatusNET"@));
    assert("StatusSNS"@.len() != "Status"@.len());
    assert(jget(v1, "StatusSNS"@) == jget(v2, "StatusSNS"@));
    assert("StatusMQT"@.len() != "Status"@.len());
    assert(jget(v1, "StatusMQT"@) == jget(v2, "StatusMQT"@));
    let s1 = jget(v1, "Status"@);
    let s2 = jget(v2, "Status"@);
    assert("DeviceName"@.len() != "Power"@.len());
    assert(oget(s1, "DeviceName"@) == oget(s2, "DeviceName"@));
    assert("FriendlyName"@.len() != "Power"@.len());
    assert(oget(s1, "FriendlyName"@) == oget(s2, "FriendlyName"@));
    assert("Module"@.len() != "Power"@.len());
    assert(oget(s1, "Module"@) == oget(s2, "Module"@));
    let f1 = match s1 {
        Some(s) => friendly_names_of(s),
        None => Seq::empty(),
    };
    let f2 = match s2 {
        Some(s) => friendly_names_of(s),
        None => Seq::empty(),
    };
    assert(f1 == f2);
}

/// The energy readings of a parsed status are the numbers of the `ENERGY` block of
/// `StatusSNS`, each from its own member: `Power`, `Voltage`, `Current`, `Today`,
/// `Yesterday` and `Total`; with no `ENERGY` block there are no readings at all.
pub proof fn energy_readings_come_from_their_keys(
    host: Seq<char>,
    value: Json,
    map: Option<StateTextMapView>,
)
    ensures
        status_of(host, value, map) matches Ok(s) ==> match oget(
            jget(value, "StatusSNS"@),
            "ENERGY"@,
        ) {
            Some(e) => s.energy == Some(
                EnergyView {
                    power_w: onum(jget(e, "Power"@)),
                    voltage_v: onum(jget(e, "Voltage"@)),
                    current_a: onum(jget(e, "Current"@)),
                    today_kwh: onum(jget(e, "Today"@)),
                    yesterday_kwh: onum(jget(e, "Yesterday"@)),
                    total_kwh: onum(jget(e, "Total"@)),
                },
            ),
            None => s.energy is None,
        },
{
}

/// Each field of a parsed status is read from its own member of the `Status 0`
/// document: the name from `Status.DeviceName`, the module from `Status.Module`, the
/// firmware from `StatusFWR.Version`, the uptime from `StatusSTS.Uptime`, the signal
/// from `StatusSTS.Wifi.RSSI`, the address from `StatusNET.IPAddress`, and the MQTT
/// settings from `StatusMQT`; the host is the one asked.
pub proof fn status_fields_come_from_their_keys(
    host: Seq<char>,
    value: Json,
    map: Option<StateTextMapView>,
)
    ensures
        status_of(host, value, map) matches Ok(s) ==> {
            &&& s.host == host
            &&& s.name == nonempty_str(jget(value, "Status"@), "DeviceName"@)
            &&& s.module == opt_i64(oint(oget(jget(value, "Status"@), "Module"@)))
            &&& s.firmware == nonempty_str(jget(value, "StatusFWR"@), "Version"@)
            &&& s.uptime == nonempty_str(jget(value, "StatusSTS"@), "Uptime"@)
            &&& s.wifi_rssi == opt_i64(oint(oget(oget(jget(value, "StatusSTS"@), "Wifi"@), "RSSI"@)))
            &&& s.net.ip == nonempty_str(jget(value, "StatusNET"@), "IPAddress"@)
            &&& s.net.mac == nonempty_str(jget(value, "StatusNET"@), "Mac"@)
            &&& s.net.hostname == nonempty_str(jget(value, "StatusNET"@), "Hostname"@)
            &&& s.mqtt == match jget(value, "StatusMQT"@) {
                Some(m) => Some(mqtt_of(m)),
                None => None,
            }
        },
        status_of(host, value, map) is Ok <==> value is Object && oget(
            jget(value, "StatusFWR"@),
            "Version"@,
        ) is Some,
{
}

/// Without labels, `ON`, `1` and `TRUE` (any ASCII case, surrounding whitespace
/// ignored) read as on, and `OFF`, `0` and `FALSE` as off. With distinct labels, the
/// on-label reads as on and the off-label as off (ignoring ASCII case).
pub proof fn relay_labels_are_read(raw: Seq<char>, map: Option<StateTextMapView>)
    ensures
        !has_labels(map) ==> {
            &&& (upper_s(trim(raw)) == "ON"@ || upper_s(trim(raw)) == "1"@ || upper_s(trim(raw))
                == "TRUE"@) ==> relay_state_of(raw, map) is On
            &&& (upper_s(trim(raw)) == "OFF"@ || upper_s(trim(raw)) == "0"@ || upper_s(trim(raw))
                == "FALSE"@) ==> relay_state_of(raw, map) is Off
        },
        has_labels(map) && !(map->0.on is Some && map->0.off is Some && eq_ic(
            map->0.on->0,
            map->0.off->0,
        )) ==> {
            &&& (map->0.on matches Some(on) && eq_ic(trim(raw), on)) ==> relay_state_of(raw, map) is On
            &&& (map->0.off matches Some(off) && eq_ic(trim(raw), off) && !(map->0.on matches Some(
                on,
            ) && eq_ic(trim(raw), on))) ==> relay_state_of(raw, map) is Off
        },
{
    reveal_strlit("ON");
    reveal_strlit("1");
    reveal_strlit("TRUE");
    reveal_strlit("OFF");
    reveal_strlit("0");
    reveal_strlit("FALSE");
    let u = upper_s(trim(raw));
    if u == "OFF"@ || u == "0"@ || u == "FALSE"@ {
        assert(u != "ON"@ && u != "1"@ && u != "TRUE"@) by {
            if u == "OFF"@ {
                assert(u.len() == 3);
            }
            if u == "0"@ {
                assert(u[0] == '0');
            }
            if u == "FALSE"@ {
                assert(u.len() == 5);
            }
        }
    }
}

} // verus!
