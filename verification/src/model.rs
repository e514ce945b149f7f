//! The device model produced from a Tasmota `Status 0` response.
//!
//! Absent data is `None`, never coerced to `0` or an empty string: a missing energy
//! block means "no energy sensor", not "0 watts", and an unrecognized relay string
//! is `Unknown`, not `Off`. Energy readings are kept as the JSON number text the
//! device reported.

use vstd::prelude::*;

verus! {

/// The text held by an optional string.
pub open spec fn opt_view(o: Option<String>) -> Option<Seq<char>> {
    match o {
        Some(s) => Some(s@),
        None => None,
    }
}

/// Live state of a single relay, taken from `StatusSTS.POWER`/`POWERn`.
#[derive(Debug, Clone, PartialEq, Eq)]
pub enum RelayState {
    On,
    Off,
    /// A relay string that could not confidently be mapped to on/off; the text is kept.
    Unknown(String),
}

pub enum RelayStateView {
    On,
    Off,
    Unknown(Seq<char>),
}

impl View for RelayState {
    type V = RelayStateView;

    open spec fn view(&self) -> RelayStateView {
        match self {
            RelayState::On => RelayStateView::On,
            RelayState::Off => RelayStateView::Off,
            RelayState::Unknown(s) => RelayStateView::Unknown(s@),
        }
    }
}

pub open spec fn relay_state_name(s: RelayStateView) -> Seq<char> {
    match s {
        RelayStateView::On => "on"@,
        RelayStateView::Off => "off"@,
        RelayStateView::Unknown(_) => "unknown"@,
    }
}

impl RelayState {
    pub fn as_str(&self) -> (r: &str)
        ensures
            r@ == relay_state_name(self@),
    {
        match self {
            RelayState::On => "on",
            RelayState::Off => "off",
            RelayState::Unknown(_) => "unknown",
        }
    }
}

/// A relay and its live state.
#[derive(Debug, Clone, PartialEq, Eq)]
pub struct Relay {
    /// `0` for a single-relay `POWER`, otherwise the index of `POWERn`.
    pub index: u8,
    pub state: RelayState,
    /// The raw relay string as reported.
    pub raw: String,
}

pub struct RelayView {
    pub index: u8,
    pub state: RelayStateView,
    pub raw: Seq<char>,
}

impl View for Relay {
    type V = RelayView;

    open spec fn view(&self) -> RelayView {
        RelayView { index: self.index, state: self.state@, raw: self.raw@ }
    }
}

/// Energy readings from `StatusSNS.ENERGY`, each the JSON number text reported, or
/// `None` when that field is missing or not a number.
#[derive(Debug, Clone, PartialEq, Eq, Default)]
pub struct Energy {
    pub power_w: Option<String>,
    pub voltage_v: Option<String>,
    pub current_a: Option<String>,
    pub today_kwh: Option<String>,
    pub yesterday_kwh: Option<String>,
    pub total_kwh: Option<String>,
}

pub struct EnergyView {
    pub power_w: Option<Seq<char>>,
    pub voltage_v: Option<Seq<char>>,
    pub current_a: Option<Seq<char>>,
    pub today_kwh: Option<Seq<char>>,
    pub yesterday_kwh: Option<Seq<char>>,
    pub total_kwh: Option<Seq<char>>,
}

impl View for Energy {
    type V = EnergyView;

    open spec fn view(&self) -> EnergyView {
        EnergyView {
            power_w: opt_view(self.power_w),
            voltage_v: opt_view(self.voltage_v),
            current_a: opt_view(self.current_a),
            today_kwh: opt_view(self.today_kwh),
            yesterday_kwh: opt_view(self.yesterday_kwh),
            total_kwh: opt_view(self.total_kwh),
        }
    }
}

/// Network identity from `StatusNET`.
#[derive(Debug, Clone, PartialEq, Eq, Default)]
pub struct NetInfo {
    pub ip: Option<String>,
    pub mac: Option<String>,
    pub hostname: Option<String>,
}

pub struct NetInfoView {
    pub ip: Option<Seq<char>>,
    pub mac: Option<Seq<char>>,
    pub hostname: Option<Seq<char>>,
}

impl View for NetInfo {
    type V = NetInfoView;

    open spec fn view(&self) -> NetInfoView {
        NetInfoView {
            ip: opt_view(self.ip),
            mac: opt_view(self.mac),
            hostname: opt_view(self.hostname),
        }
    }
}

/// MQTT configuration from `StatusMQT`. No reliable live connected flag exists over
/// HTTP, so `connected` stays `None`.
#[derive(Debug, Clone, PartialEq, Eq, Default)]
pub struct MqttInfo {
    pub host: Option<String>,
    pub port: Option<i64>,
    pub client: Option<String>,
    pub reconnect_count: Option<i64>,
    pub connected: Option<bool>,
}

pub struct MqttInfoView {
    pub host: Option<Seq<char>>,
    pub port: Option<i64>,
    pub client: Option<Seq<char>>,
    pub reconnect_count: Option<i64>,
    pub connected: Option<bool>,
}

impl View for MqttInfo {
    type V = MqttInfoView;

    open spec fn view(&self) -> MqttInfoView {
        MqttInfoView {
            host: opt_view(self.host),
            port: self.port,
            client: opt_view(self.client),
            reconnect_count: self.reconnect_count,
            connected: self.connected,
        }
    }
}

/// The full parsed picture of a device from `Status 0`.
#[derive(Debug, Clone, PartialEq, Eq)]
pub struct DeviceStatus {
    /// The host (ip or hostname) the status was read from.
    pub host: String,
    pub name: Option<String>,
    pub friendly_names: Vec<String>,
    pub module: Option<i64>,
    /// Live relay states from `StatusSTS`, ordered by index.
    pub relays: Vec<Relay>,
    pub firmware: Option<String>,
    pub net: NetInfo,
    pub uptime: Option<String>,
    pub wifi_rssi: Option<i64>,
    /// `None` means the device has no energy sensor (not zero power).
    pub energy: Option<Energy>,
    pub mqtt: Option<MqttInfo>,
}

pub struct DeviceStatusView {
    pub host: Seq<char>,
    pub name: Option<Seq<char>>,
    pub friendly_names: Seq<Seq<char>>,
    pub module: Option<i64>,
    pub relays: Seq<RelayView>,
    pub firmware: Option<Seq<char>>,
    pub net: NetInfoView,
    pub uptime: Option<Seq<char>>,
    pub wifi_rssi: Option<i64>,
    pub energy: Option<EnergyView>,
    pub mqtt: Option<MqttInfoView>,
}

pub open spec fn strings_view(v: Seq<String>) -> Seq<Seq<char>> {
    v.map_values(|s: String| s@)
}

pub open spec fn relays_view(v: Seq<Relay>) -> Seq<RelayView> {
    v.map_values(|r: Relay| r@)
}

impl View for DeviceStatus {
    type V = DeviceStatusView;

    open spec fn view(&self) -> DeviceStatusView {
        DeviceStatusView {
            host: self.host@,
            name: opt_view(self.name),
            friendly_names: strings_view(self.friendly_names@),
            module: self.module,
            relays: relays_view(self.relays@),
            firmware: opt_view(self.firmware),
            net: self.net@,
            uptime: opt_view(self.uptime),
            wifi_rssi: self.wifi_rssi,
            energy: match self.energy {
                Some(e) => Some(e@),
                None => None,
            },
            mqtt: match self.mqtt {
                Some(m) => Some(m@),
                None => None,
            },
        }
    }
}

/// The primary display name: `DeviceName` when non-empty, else the first friendly
/// name, else the host.
pub open spec fn display_name_of(s: DeviceStatusView) -> Seq<char> {
    match s.name {
        Some(n) if n.len() > 0 => n,
        _ => if s.friendly_names.len() > 0 {
            s.friendly_names[0]
        } else {
            s.host
        },
    }
}

impl DeviceStatus {
    /// The device's primary display name: `DeviceName`, else the first friendly
    /// name, else the host.
    pub fn display_name(&self) -> (r: &str)
        ensures
            r@ == display_name_of(self@),
    {
        match &self.name {
            Some(n) if !n.as_str().is_empty() => n.as_str(),
            _ => if self.friendly_names.len() > 0 {
                self.friendly_names[0].as_str()
            } else {
                self.host.as_str()
            },
        }
    }
}

} // verus!
