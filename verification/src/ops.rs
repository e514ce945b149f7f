//! Device operations built on a [`Transport`].
//!
//! Each returns typed results with absent data preserved as `None`. Destructive
//! operations (firmware, restore, template apply) are plain calls here; the
//! confirmation guardrails live in the command-line layer around them.

use vstd::prelude::*;
use crate::error::{Error, ErrorView};
use crate::json::{jget, jstr, ostr, Json};
use crate::model::{
    relays_view, DeviceStatus, DeviceStatusView, MqttInfo, MqttInfoView, Relay, RelayState,
    RelayStateView, RelayView,
};
use crate::parse::{
    mqtt_from, mqtt_from_status, normalize_relay, parse_status, relay_index, relay_index_of,
    relay_state_of, result_view, status_of, statetext_of, StateTextMap, StateTextMapView,
};
use crate::text::{dec, dec_string, lower_s, to_chars};
use crate::transport::{contains, reply_view, DeviceAddr, DeviceAddrView, Transport};

verus! {

/// A power action for a relay.
#[derive(Debug, Clone, Copy, PartialEq, Eq)]
pub enum PowerAction {
    On,
    Off,
    Toggle,
}

pub open spec fn action_word(a: PowerAction) -> Seq<char> {
    match a {
        PowerAction::On => "ON"@,
        PowerAction::Off => "OFF"@,
        PowerAction::Toggle => "TOGGLE"@,
    }
}

impl PowerAction {
    fn as_cmd(self) -> (r: &'static str)
        ensures
            r@ == action_word(self),
    {
        match self {
            PowerAction::On => "ON",
            PowerAction::Off => "OFF",
            PowerAction::Toggle => "TOGGLE",
        }
    }
}

/// `status` with every relay's state replaced by `Unknown` of its raw text.
pub open spec fn relays_unknown(s: DeviceStatusView) -> DeviceStatusView {
    DeviceStatusView {
        relays: s.relays.map_values(
            |r: RelayView| RelayView { index: r.index, state: RelayStateView::Unknown(r.raw), raw: r.raw },
        ),
        ..s
    }
}

/// The status a `Status 0` document gives once the `StateText` reply `labels` is
/// known. Without relays the labels are not needed. A no-answer (network error) for
/// the labels leaves every relay `Unknown`; any other failure to get them is the
/// result.
pub open spec fn status_with_labels(host: Seq<char>, value: Json, labels: Result<Json, ErrorView>) -> Result<
    DeviceStatusView,
    ErrorView,
> {
    match status_of(host, value, None) {
        Err(e) => Err(e),
        Ok(p) => if p.relays.len() == 0 {
            Ok(p)
        } else {
            match labels {
                Ok(stv) => status_of(host, value, Some(statetext_of(stv))),
                Err(ErrorView::Network(m)) => Ok(relays_unknown(p)),
                Err(e) => Err(e),
            }
        },
    }
}

/// Whether the status of `value` has relays, so the labels are asked for.
pub open spec fn needs_labels(host: Seq<char>, value: Json) -> bool {
    match status_of(host, value, None) {
        Ok(p) => p.relays.len() > 0,
        Err(_) => false,
    }
}

fn mark_relays_unknown(status: DeviceStatus) -> (r: DeviceStatus)
    ensures
        r@ == relays_unknown(status@),
{
    let mut s = status;
    let mut relays: Vec<Relay> = Vec::new();
    let mut i: usize = 0;
    while i < s.relays.len()
        invariant
            i <= s.relays.len(),
            relays_view(relays@) == relays_unknown(status@).relays.take(i as int),
            s@ == status@,
        decreases s.relays.len() - i,
    {
        let r = &s.relays[i];
        assert(status@.relays[i as int] == s.relays@[i as int]@);
        let nr = Relay { index: r.index, state: RelayState::Unknown(r.raw.clone()), raw: r.raw.clone() };
        assert(nr@ == relays_unknown(status@).relays[i as int]);
        let ghost before = relays@;
        relays.push(nr);
        assert(relays_view(relays@) == relays_view(before).push(nr@));
        assert(relays_view(relays@) =~= relays_unknown(status@).relays.take(i + 1));
        i = i + 1;
    }
    assert(relays_unknown(status@).relays.take(s.relays.len() as int) =~= relays_unknown(status@).relays);
    s.relays = relays;
    assert(s@ =~= relays_unknown(status@));
    s
}

/// The status of a `Status 0` document given the reply to the `StateText` command.
pub fn status_with_statetext(host: &str, value: &Json, labels: Result<Json, Error>) -> (r: Result<
    DeviceStatus,
    Error,
>)
    ensures
        result_view(r) == status_with_labels(host@, *value, reply_view(labels)),
{
    let prelim = parse_status(host, value, None)?;
    if prelim.relays.len() == 0 {
        return Ok(prelim);
    }
    match labels {
        Ok(stv) => {
            let map = StateTextMap::from_value(&stv);
            parse_status(host, value, Some(&map))
        },
        Err(Error::Network { .. }) => Ok(mark_relays_unknown(prelim)),
        Err(e) => Err(e),
    }
}

/// Parses an already-fetched `Status 0` value, then resolves the device's relay
/// labels with `StateText` when there are relays to label.
pub fn status_from_value<T: Transport>(t: &T, addr: &DeviceAddr, value: &Json) -> (r: Result<
    DeviceStatus,
    Error,
>)
    ensures
        exists|labels: Result<Json, ErrorView>|
            (needs_labels(addr@.host, *value) ==> t.answers(addr@, "StateText"@, labels))
                && #[trigger] status_with_labels(addr@.host, *value, labels) == result_view(r),
{
    let prelim = parse_status(addr.host.as_str(), value, None);
    match prelim {
        Err(e) => {
            let ghost any: Result<Json, ErrorView> = Ok(Json::Null);
            assert(status_with_labels(addr@.host, *value, any) == result_view(Err::<DeviceStatus, Error>(e)));
            Err(e)
        },
        Ok(p) => {
            if p.relays.len() == 0 {
                let ghost any: Result<Json, ErrorView> = Ok(Json::Null);
                assert(status_with_labels(addr@.host, *value, any) == result_view(Ok::<DeviceStatus, Error>(p)));
                return Ok(p);
            }
            let labels = t.command(addr, "StateText");
            let ghost lv = reply_view(labels);
            let r = status_with_statetext(addr.host.as_str(), value, labels);
            assert(status_with_labels(addr@.host, *value, lv) == result_view(r));
            r
        },
    }
}

/// The result of asking for a device's status: the `Status 0` reply, then the
/// status with labels.
pub open spec fn status_reply<T: Transport>(t: T, addr: DeviceAddrView, r: Result<DeviceStatusView, ErrorView>) -> bool {
    ||| exists|e: ErrorView| t.answers(addr, "Status 0"@, Err(e)) && r == Err::<DeviceStatusView, ErrorView>(e)
    ||| exists|v: Json, labels: Result<Json, ErrorView>|
        t.answers(addr, "Status 0"@, Ok(v)) && (needs_labels(addr.host, v) ==> t.answers(
            addr,
            "StateText"@,
            labels,
        )) && #[trigger] status_with_labels(addr.host, v, labels) == r
}

/// Fetches and parses the full device status (`Status 0`).
pub fn get_status<T: Transport>(t: &T, addr: &DeviceAddr) -> (r: Result<DeviceStatus, Error>)
    ensures
        status_reply(*t, addr@, result_view(r)),
{
    let value = t.command(addr, "Status 0");
    match value {
        Err(e) => Err(e),
        Ok(v) => status_from_value(t, addr, &v),
    }
}


/// The first member (in order) of a `Power` reply that names a relay and holds a
/// string, as a relay with the labels `map`.
pub open spec fn first_relay(es: Seq<(String, Json)>, map: Option<StateTextMapView>) -> Option<RelayView>
    decreases es.len(),
{
    if es.len() == 0 {
        None
    } else {
        match (relay_index_of(es[0].0@), jstr(es[0].1)) {
            (Some(i), Some(raw)) => Some(RelayView { index: i, state: relay_state_of(raw, map), raw }),
            _ => first_relay(es.drop_first(), map),
        }
    }
}

/// The relay state reported by a `Power` reply (`{"POWER":"ON"}`).
pub open spec fn relay_in_reply(value: Json, map: Option<StateTextMapView>) -> Option<RelayView> {
    match value {
        Json::Object(es) => first_relay(es@, map),
        _ => None,
    }
}

fn relay_from_response(value: &Json, map: Option<&StateTextMap>) -> (r: Option<Relay>)
    ensures
        match r {
            Some(x) => relay_in_reply(*value, crate::parse::map_view(map)) == Some(x@),
            None => relay_in_reply(*value, crate::parse::map_view(map)) is None,
        },
{
    match value {
        Json::Object(obj) => {
            let mut i: usize = 0;
            assert(obj@.skip(0) =~= obj@);
            while i < obj.len()
                invariant
                    i <= obj.len(),
                    *value == Json::Object(*obj),
                    first_relay(obj@, crate::parse::map_view(map)) == first_relay(
                        obj@.skip(i as int),
                        crate::parse::map_view(map),
                    ),
                decreases obj.len() - i,
            {
                assert(obj@.skip(i as int).drop_first() =~= obj@.skip(i + 1));
                assert(obj@.skip(i as int)[0] == obj@[i as int]);
                let e = &obj[i];
                if let Some(idx) = relay_index(e.0.as_str()) {
                    if let Some(raw) = e.1.as_str() {
                        return Some(
                            Relay { index: idx, state: normalize_relay(raw, map), raw: String::from_str(raw) },
                        );
                    }
                }
                i = i + 1;
            }
            None
        },
        _ => None,
    }
}

/// The command that sets relay `relay` (`None`/`Some(0)`: the primary relay).
pub open spec fn power_command_of(relay: Option<u8>, action: PowerAction) -> Seq<char> {
    let idx = match relay {
        None => Seq::empty(),
        Some(n) => if n == 0 {
            Seq::empty()
        } else {
            dec(n as nat)
        },
    };
    "Power"@ + idx + " "@ + action_word(action)
}

/// Builds the `Power<n> <ACTION>` command.
pub fn power_command(relay: Option<u8>, action: PowerAction) -> (r: String)
    ensures
        r@ == power_command_of(relay, action),
{
    let mut c = String::from_str("Power");
    match relay {
        None => {},
        Some(n) => if n != 0 {
            let d = dec_string(n as u64);
            c.append(d.as_str());
        },
    }
    c.append(" ");
    c.append(action.as_cmd());
    c
}

/// The relay a `Power` reply reports once the `StateText` reply `labels` is known: a
/// no-answer (network error) for the labels leaves the relay `Unknown`, any other
/// failure to get them is the result, and a reply naming no relay is a parse error.
pub open spec fn relay_with_labels(host: Seq<char>, cmnd: Seq<char>, value: Json, labels: Result<Json, ErrorView>) -> Result<
    RelayView,
    ErrorView,
> {
    let found = match labels {
        Ok(stv) => Ok(relay_in_reply(value, Some(statetext_of(stv)))),
        Err(ErrorView::Network(m)) => Ok(
            match relay_in_reply(value, None) {
                Some(r) => Some(RelayView { index: r.index, state: RelayStateView::Unknown(r.raw), raw: r.raw }),
                None => None,
            },
        ),
        Err(e) => Err(e),
    };
    match found {
        Err(e) => Err(e),
        Ok(Some(r)) => Ok(r),
        Ok(None) => Err(
            ErrorView::Parse(host + " did not report a relay state after `"@ + cmnd + "`"@),
        ),
    }
}

pub open spec fn relay_result_view(r: Result<Relay, Error>) -> Result<RelayView, ErrorView> {
    match r {
        Ok(x) => Ok(x@),
        Err(e) => Err(e@),
    }
}

/// The relay a `Power` reply reports, given the reply to the `StateText` command.
pub fn relay_with_statetext(host: &str, cmnd: &str, value: &Json, labels: Result<Json, Error>) -> (r: Result<
    Relay,
    Error,
>)
    ensures
        relay_result_view(r) == relay_with_labels(host@, cmnd@, *value, reply_view(labels)),
{
    let relay = match labels {
        Ok(stv) => {
            let map = StateTextMap::from_value(&stv);
            relay_from_response(value, Some(&map))
        },
        Err(Error::Network { .. }) => match relay_from_response(value, None) {
            Some(r) => Some(Relay { index: r.index, state: RelayState::Unknown(r.raw.clone()), raw: r.raw }),
            None => None,
        },
        Err(e) => return Err(e),
    };
    match relay {
        Some(r) => Ok(r),
        None => {
            let mut m = String::from_str(host);
            m.append(" did not report a relay state after `");
            m.append(cmnd);
            m.append("`");
            Err(Error::Parse { message: m })
        },
    }
}

/// The result of setting a relay: the failed `Power` request, or the relay its
/// reply reports once the `StateText` reply is known.
pub open spec fn power_reply<T: Transport>(
    t: T,
    addr: DeviceAddrView,
    relay: Option<u8>,
    action: PowerAction,
    r: Result<RelayView, ErrorView>,
) -> bool {
    ||| exists|e: ErrorView|
        #[trigger] t.answers(addr, power_command_of(relay, action), Err(e)) && r == Err::<RelayView, ErrorView>(e)
    ||| exists|v: Json, labels: Result<Json, ErrorView>|
        t.answers(addr, power_command_of(relay, action), Ok(v)) && t.answers(addr, "StateText"@, labels)
            && #[trigger] relay_with_labels(addr.host, power_command_of(relay, action), v, labels) == r
}

/// Sets a relay's power. `relay` is `None`/`Some(0)` for the primary relay. The
/// reply is read with the device's relay labels (`StateText`).
pub fn set_power<T: Transport>(t: &T, addr: &DeviceAddr, relay: Option<u8>, action: PowerAction) -> (r: Result<
    Relay,
    Error,
>)
    ensures
        power_reply(*t, addr@, relay, action, relay_result_view(r)),
{
    let cmnd = power_command(relay, action);
    let value = t.command(addr, cmnd.as_str());
    match value {
        Err(e) => Err(e),
        Ok(v) => {
            let labels = t.command(addr, "StateText");
            let ghost lv = reply_view(labels);
            let r = relay_with_statetext(addr.host.as_str(), cmnd.as_str(), &v, labels);
            assert(relay_with_labels(addr@.host, power_command_of(relay, action), v, lv) == relay_result_view(r));
            r
        },
    }
}

/// The firmware version a `Status 2` reply reports: `StatusFWR.Version`, or a parse
/// error when it has none (it is then not a Tasmota reply).
pub open spec fn firmware_of(host: Seq<char>, value: Json) -> Result<Seq<char>, ErrorView> {
    match ostr(crate::json::oget(jget(value, "StatusFWR"@), "Version"@)) {
        Some(v) => Ok(v),
        None => Err(
            ErrorView::Parse(
                host + " did not return a firmware version (not a Tasmota Status 2 response)"@,
            ),
        ),
    }
}

pub open spec fn string_result_view(r: Result<String, Error>) -> Result<Seq<char>, ErrorView> {
    match r {
        Ok(s) => Ok(s@),
        Err(e) => Err(e@),
    }
}

/// Reads the firmware version from a `Status 2` reply.
pub fn firmware_from_reply(host: &str, value: &Json) -> (r: Result<String, Error>)
    ensures
        string_result_view(r) == firmware_of(host@, *value),
{
    let v = match value.get("StatusFWR") {
        Some(f) => match f.get("Version") {
            Some(v) => v.as_str(),
            None => None,
        },
        None => None,
    };
    match v {
        Some(s) => Ok(String::from_str(s)),
        None => {
            let mut m = String::from_str(host);
            m.append(" did not return a firmware version (not a Tasmota Status 2 response)");
            Err(Error::Parse { message: m })
        },
    }
}

/// The result of asking for the firmware version: the failed `Status 2` request, or
/// the version its reply reports.
pub open spec fn firmware_reply<T: Transport>(t: T, addr: DeviceAddrView, r: Result<Seq<char>, ErrorView>) -> bool {
    ||| exists|e: ErrorView| #[trigger] t.answers(addr, "Status 2"@, Err(e)) && r == Err::<Seq<char>, ErrorView>(e)
    ||| exists|v: Json| t.answers(addr, "Status 2"@, Ok(v)) && #[trigger] firmware_of(addr.host, v) == r
}

/// The firmware version string, from `Status 2`.
pub fn firmware_version<T: Transport>(t: &T, addr: &DeviceAddr) -> (r: Result<String, Error>)
    ensures
        firmware_reply(*t, addr@, string_result_view(r)),
{
    match t.command(addr, "Status 2") {
        Err(e) => Err(e),
        Ok(v) => {
            let r = firmware_from_reply(addr.host.as_str(), &v);
            assert(firmware_of(addr@.host, v) == string_result_view(r));
            r
        },
    }
}

pub open spec fn mqtt_result_view(r: Result<Option<MqttInfo>, Error>) -> Result<Option<MqttInfoView>, ErrorView> {
    match r {
        Ok(Some(m)) => Ok(Some(m@)),
        Ok(None) => Ok(None),
        Err(e) => Err(e@),
    }
}

/// The result of asking for the MQTT settings: the failed `Status 6` request, or
/// the settings its reply holds.
pub open spec fn mqtt_reply<T: Transport>(t: T, addr: DeviceAddrView, r: Result<Option<MqttInfoView>, ErrorView>) -> bool {
    match r {
        Err(e) => t.answers(addr, "Status 6"@, Err(e)),
        Ok(m) => exists|v: Json| #[trigger] t.answers(addr, "Status 6"@, Ok(v)) && mqtt_from(v) == m,
    }
}

/// MQTT configuration from `Status 6` (`StatusMQT`); the connected flag stays `None`.
pub fn mqtt_info<T: Transport>(t: &T, addr: &DeviceAddr) -> (r: Result<Option<MqttInfo>, Error>)
    ensures
        mqtt_reply(*t, addr@, mqtt_result_view(r)),
{
    match t.command(addr, "Status 6") {
        Err(e) => Err(e),
        Ok(v) => Ok(mqtt_from_status(&v)),
    }
}

/// Whether an `Upgrade` reply reports a failure: its `Upgrade` text mentions `fail`
/// or `error` in any ASCII case.
pub open spec fn upgrade_failure(value: Json) -> Option<Seq<char>> {
    match ostr(jget(value, "Upgrade"@)) {
        Some(s) => if contains(lower_s(s), "fail"@) || contains(lower_s(s), "error"@) {
            Some(s)
        } else {
            None
        },
        None => None,
    }
}

/// Checks an `Upgrade 1` reply: Tasmota reports OTA failures as HTTP 200 with an
/// `Upgrade` text like `"Failed Verify Bin Header Failed"`.
pub fn check_upgrade(response: Json) -> (r: Result<Json, Error>)
    ensures
        match upgrade_failure(response) {
            Some(s) => reply_view(r) == Err::<Json, ErrorView>(
                ErrorView::CommandRejected("Upgrade 1"@, "OTA rejected: "@ + s),
            ),
            None => r == Ok::<Json, Error>(response),
        },
{
    let failed = match response.get("Upgrade") {
        Some(u) => match u.as_str() {
            Some(status) => {
                let sc = to_chars(status);
                let lower = crate::transport::lower_chars(sc.as_slice());
                let f = to_chars("fail");
                let e = to_chars("error");
                if crate::transport::contains_chars(lower.as_slice(), f.as_slice())
                    || crate::transport::contains_chars(lower.as_slice(), e.as_slice()) {
                    Some(String::from_str(status))
                } else {
                    None
                }
            },
            None => None,
        },
        None => None,
    };
    match failed {
        Some(status) => {
            let mut m = String::from_str("OTA rejected: ");
            m.append(status.as_str());
            Err(Error::CommandRejected { command: String::from_str("Upgrade 1"), message: m })
        },
        None => Ok(response),
    }
}

/// The `OtaUrl <url>` command.
pub open spec fn ota_command_of(url: Seq<char>) -> Seq<char> {
    "OtaUrl "@ + url
}

/// The result of a firmware update after `OtaUrl <u>`: that request failed, or it
/// was answered and the result is the outcome of `Upgrade 1`.
pub open spec fn ota_reply<T: Transport>(t: T, addr: DeviceAddrView, u: Seq<char>, r: Result<Json, ErrorView>) -> bool {
    ||| exists|e: ErrorView| #[trigger] t.answers(addr, ota_command_of(u), Err(e)) && r == Err::<Json, ErrorView>(e)
    ||| exists|v: Json| #[trigger] t.answers(addr, ota_command_of(u), Ok(v)) && upgrade_outcome(t, addr, r)
}

/// The result of a firmware update: with a URL, as [`ota_reply`] says; without
/// one, the outcome of `Upgrade 1`.
pub open spec fn update_reply<T: Transport>(t: T, addr: DeviceAddrView, ota_url: Option<Seq<char>>, r: Result<Json, ErrorView>) -> bool {
    match ota_url {
        Some(u) => ota_reply(t, addr, u, r),
        None => upgrade_outcome(t, addr, r),
    }
}

/// Points the device at an OTA URL (if given) and triggers an upgrade. Destructive:
/// the caller must have confirmed before calling this.
pub fn firmware_update<T: Transport>(t: &T, addr: &DeviceAddr, ota_url: Option<&str>) -> (r: Result<Json, Error>)
    ensures
        update_reply(*t, addr@, crate::cli::opt_str(ota_url), reply_view(r)),
{
    let ghost mut ota_answer: Json = Json::Null;
    if let Some(url) = ota_url {
        let mut c = String::from_str("OtaUrl ");
        c.append(url);
        match t.command(addr, c.as_str()) {
            Err(e) => {
                assert(crate::cli::opt_str(ota_url) == Some(url@));
                assert(t.answers(addr@, ota_command_of(url@), Err(e@)));
                assert(ota_reply(*t, addr@, url@, Err(e@)));
                return Err(e);
            },
            Ok(v) => {
                proof {
                    ota_answer = v;
                }
            },
        }
    }
    let r = match t.command(addr, "Upgrade 1") {
        Err(e) => Err(e),
        Ok(response) => {
            let ghost resp = response;
            let r = check_upgrade(response);
            assert(t.answers(addr@, "Upgrade 1"@, Ok(resp)));
            r
        },
    };
    assert(upgrade_outcome(*t, addr@, reply_view(r)));
    if let Some(u) = ota_url {
        assert(crate::cli::opt_str(ota_url) == Some(u@));
        assert(t.answers(addr@, ota_command_of(u@), Ok(ota_answer)));
        assert(ota_reply(*t, addr@, u@, reply_view(r)));
    } else {
        assert(crate::cli::opt_str(ota_url) is None);
    }
    r
}

/// The result of `Upgrade 1`: the failed reply, or the reply checked by `check_upgrade`.
pub open spec fn upgrade_outcome<T: Transport>(t: T, addr: DeviceAddrView, r: Result<Json, ErrorView>) -> bool {
    ||| exists|e: ErrorView| t.answers(addr, "Upgrade 1"@, Err(e)) && r == Err::<Json, ErrorView>(e)
    ||| exists|v: Json| #[trigger] t.answers(addr, "Upgrade 1"@, Ok(v)) && match upgrade_failure(v) {
        Some(s) => r == Err::<Json, ErrorView>(ErrorView::CommandRejected("Upgrade 1"@, "OTA rejected: "@ + s)),
        None => r == Ok::<Json, ErrorView>(v),
    }
}

/// Downloads the device's binary configuration backup (`.dmp`) from `/dl`.
pub fn backup_config<T: Transport>(t: &T, addr: &DeviceAddr) -> (r: Result<Vec<u8>, Error>)
    ensures
        t.delivers(addr@, "/dl"@, crate::transport::bytes_view(r)),
{
    t.download(addr, "/dl")
}

/// Reads a single setting by issuing its command with no argument.
pub fn config_get<T: Transport>(t: &T, addr: &DeviceAddr, setting: &str) -> (r: Result<Json, Error>)
    ensures
        t.answers(addr@, setting@, reply_view(r)),
{
    t.command(addr, setting)
}

/// Writes a setting (`<Setting> <value>`).
pub fn config_set<T: Transport>(t: &T, addr: &DeviceAddr, setting: &str, value: &str) -> (r: Result<Json, Error>)
    ensures
        t.answers(addr@, setting@ + " "@ + value@, reply_view(r)),
{
    let mut c = String::from_str(setting);
    c.append(" ");
    c.append(value);
    t.command(addr, c.as_str())
}

/// Sends an arbitrary console command and returns the raw JSON reply.
pub fn console<T: Transport>(t: &T, addr: &DeviceAddr, command: &str) -> (r: Result<Json, Error>)
    ensures
        t.answers(addr@, command@, reply_view(r)),
{
    t.command(addr, command)
}

/// Reads the current GPIO template.
pub fn template_get<T: Transport>(t: &T, addr: &DeviceAddr) -> (r: Result<Json, Error>)
    ensures
        t.answers(addr@, "Template"@, reply_view(r)),
{
    t.command(addr, "Template")
}

/// The result of applying a template: the failed `Template` request, or the reply
/// to the `Module 0` that follows it.
pub open spec fn template_reply<T: Transport>(t: T, addr: DeviceAddrView, template_json: Seq<char>, r: Result<Json, ErrorView>) -> bool {
    ||| exists|e: ErrorView| #[trigger] t.answers(addr, "Template "@ + template_json, Err(e)) && r == Err::<Json, ErrorView>(e)
    ||| exists|v: Json| #[trigger] t.answers(addr, "Template "@ + template_json, Ok(v)) && t.answers(addr, "Module 0"@, r)
}

/// Applies a GPIO template (`Template <json>`) and activates it (`Module 0`).
pub fn template_apply<T: Transport>(t: &T, addr: &DeviceAddr, template_json: &str) -> (r: Result<Json, Error>)
    ensures
        template_reply(*t, addr@, template_json@, reply_view(r)),
{
    let mut c = String::from_str("Template ");
    c.append(template_json);
    match t.command(addr, c.as_str()) {
        Err(e) => Err(e),
        Ok(_) => t.command(addr, "Module 0"),
    }
}

/// Restores a binary config backup by uploading it to the device's restore endpoint
/// (`/u2`, form field `u2`, file `config.dmp`).
pub fn restore_config<T: Transport>(t: &T, addr: &DeviceAddr, data: &[u8]) -> (r: Result<Json, Error>)
    ensures
        t.accepts(addr@, "/u2"@, "u2"@, "config.dmp"@, data@, reply_view(r)),
{
    t.upload(addr, "/u2", "u2", "config.dmp", data)
}

/// An `Upgrade 1` reply whose `Upgrade` text mentions `fail` or `error` in any ASCII
/// case is a failed flash: `check_upgrade` reports it as the device rejecting
/// `Upgrade 1`, quoting the text, never as a success.
pub proof fn failed_upgrade_is_rejected(value: Json, s: Seq<char>, i: int)
    requires
        ostr(jget(value, "Upgrade"@)) == Some(s),
        0 <= i,
        (i + 4 <= s.len() && lower_s(s.subrange(i, i + 4)) == "fail"@) || (i + 5 <= s.len()
            && lower_s(s.subrange(i, i + 5)) == "error"@),
    ensures
        upgrade_failure(value) == Some(s),
{
    reveal_strlit("fail");
    reveal_strlit("error");
    if i + 4 <= s.len() && lower_s(s.subrange(i, i + 4)) == "fail"@ {
        assert(lower_s(s).subrange(i, i + 4) =~= lower_s(s.subrange(i, i + 4)));
        assert(contains(lower_s(s), "fail"@));
    } else {
        assert(lower_s(s).subrange(i, i + 5) =~= lower_s(s.subrange(i, i + 5)));
        assert(contains(lower_s(s), "error"@));
    }
}

/// An `Upgrade 1` reply whose `Upgrade` text mentions neither `fail` nor `error` (any
/// ASCII case), or that has no `Upgrade` text, is a success: `check_upgrade` hands
/// the reply back unchanged.
pub proof fn clean_upgrade_is_accepted(value: Json)
    requires
        ostr(jget(value, "Upgrade"@)) matches Some(s) ==> !contains(lower_s(s), "fail"@)
            && !contains(lower_s(s), "error"@),
    ensures
        upgrade_failure(value) is None,
{
}

} // verus!
