//! Human-readable text rendering: the `--output text` view of device status,
//! health, the device cache and discovery results.
//!
//! Absent values render as `n/a`, never `0`. Energy readings are reported by the
//! device as numbers and are formatted by the tool; [`status`] takes the formatted
//! power reading.

use vstd::prelude::*;
use crate::cache::{devices_view, CachedDevice, CachedDeviceView};
use crate::discovery::{found_view, Discovered, DiscoveredView};
use crate::model::{
    display_name_of, relay_state_name, DeviceStatus, DeviceStatusView, MqttInfoView,
    RelayView,
};
use crate::text::{
    dec, dec_int, dec_int_string, dec_string, pad_right, padded, trim_end, trim_end_string,
};

verus! {

/// An optional text, or `n/a` when absent.
pub open spec fn na_text(v: Option<Seq<char>>) -> Seq<char> {
    match v {
        Some(s) => s,
        None => "n/a"@,
    }
}

/// An optional integer in decimal, or `n/a` when absent.
pub open spec fn na_int_text(v: Option<i64>) -> Seq<char> {
    match v {
        Some(n) => dec_int(n as int),
        None => "n/a"@,
    }
}

pub open spec fn opt_str_view(v: Option<&str>) -> Option<Seq<char>> {
    match v {
        Some(s) => Some(s@),
        None => None,
    }
}

/// Formats an optional value, or `n/a` when absent.
pub fn na(v: Option<&str>) -> (r: String)
    ensures
        r@ == na_text(opt_str_view(v)),
{
    match v {
        Some(s) => String::from_str(s),
        None => String::from_str("n/a"),
    }
}

/// Formats an optional integer, or `n/a` when absent.
pub fn na_int(v: Option<i64>) -> (r: String)
    ensures
        r@ == na_int_text(v),
{
    match v {
        Some(n) => dec_int_string(n),
        None => String::from_str("n/a"),
    }
}

fn opt_as_str(v: &Option<String>) -> (r: Option<&str>)
    ensures
        opt_str_view(r) == crate::model::opt_view(*v),
{
    match v {
        Some(s) => Some(s.as_str()),
        None => None,
    }
}

/// `power` for the single relay, `powerN` for relay N.
pub open spec fn relay_label(index: u8) -> Seq<char> {
    if index == 0 {
        "power"@
    } else {
        "power"@ + dec(index as nat)
    }
}

pub open spec fn relay_part(r: RelayView) -> Seq<char> {
    relay_label(r.index) + "="@ + relay_state_name(r.state)
}

/// The relay parts separated by two spaces.
pub open spec fn relay_parts(rs: Seq<RelayView>) -> Seq<char>
    decreases rs.len(),
{
    if rs.len() == 0 {
        Seq::empty()
    } else if rs.len() == 1 {
        relay_part(rs[0])
    } else {
        relay_parts(rs.drop_last()) + "  "@ + relay_part(rs.last())
    }
}

/// The relays line of a status block.
pub open spec fn relays_text(s: DeviceStatusView) -> Seq<char> {
    if s.relays.len() == 0 {
        "relays:  none"@
    } else {
        "relays:  "@ + relay_parts(s.relays)
    }
}

/// The full status block; `power_w` is the formatted power reading.
pub open spec fn status_text(s: DeviceStatusView, power_w: Option<Seq<char>>) -> Seq<char> {
    display_name_of(s) + " ("@ + s.host + ")\n"@ + "  "@ + relays_text(s) + "\n"@
        + "  firmware: "@ + na_text(s.firmware) + "\n"@ + "  rssi:    "@ + na_int_text(s.wifi_rssi)
        + "\n"@ + "  uptime:  "@ + na_text(s.uptime) + "\n"@ + "  ip:      "@ + na_text(s.net.ip)
        + "\n"@ + "  power:   "@ + match s.energy {
        None => "n/a (no energy sensor)"@,
        Some(_) => na_text(power_w) + " W"@,
    }
}

/// The MQTT part of a health summary.
pub open spec fn mqtt_text(m: Option<MqttInfoView>) -> Seq<char> {
    match m {
        None => "n/a"@,
        Some(m) => "host="@ + na_text(m.host) + " port="@ + na_int_text(m.port)
            + " (connected: n/a over HTTP)"@,
    }
}

/// The health summary.
pub open spec fn health_text(s: DeviceStatusView) -> Seq<char> {
    display_name_of(s) + " ("@ + s.host + ")\n  online:   yes\n  rssi:     "@ + na_int_text(
        s.wifi_rssi,
    ) + "\n  uptime:   "@ + na_text(s.uptime) + "\n  firmware: "@ + na_text(s.firmware)
        + "\n  mqtt:     "@ + mqtt_text(s.mqtt)
}

/// One line per cached device: the name in a 24-character column, then the host.
pub open spec fn device_lines(list: Seq<CachedDeviceView>) -> Seq<char>
    decreases list.len(),
{
    if list.len() == 0 {
        Seq::empty()
    } else {
        device_lines(list.drop_last()) + padded(list.last().name, 24) + " "@ + list.last().host
            + "\n"@
    }
}

pub open spec fn devices_text(list: Seq<CachedDeviceView>) -> Seq<char> {
    if list.len() == 0 {
        "no cached devices (run `tasmota discover`)"@
    } else {
        trim_end(device_lines(list))
    }
}

/// One line per found device: name, host and firmware in columns.
pub open spec fn found_lines(list: Seq<DiscoveredView>) -> Seq<char>
    decreases list.len(),
{
    if list.len() == 0 {
        Seq::empty()
    } else {
        let d = list.last();
        found_lines(list.drop_last()) + "  "@ + padded(display_name_of(d.status), 24) + " "@
            + padded(d.host, 16) + " "@ + na_text(d.status.firmware) + "\n"@
    }
}

pub open spec fn discovered_text(list: Seq<DiscoveredView>) -> Seq<char> {
    if list.len() == 0 {
        "no Tasmota devices found"@
    } else {
        trim_end("found "@ + dec(list.len()) + " device(s):\n"@ + found_lines(list))
    }
}

fn relay_label_string(index: u8) -> (r: String)
    ensures
        r@ == relay_label(index),
{
    let mut s = String::from_str("power");
    if index != 0 {
        s.append(dec_string(index as u64).as_str());
    }
    s
}

fn relays_line(status: &DeviceStatus) -> (r: String)
    ensures
        r@ == relays_text(status@),
{
    if status.relays.len() == 0 {
        return String::from_str("relays:  none");
    }
    let ghost rs = status@.relays;
    let mut parts = String::new();
    let mut i: usize = 0;
    while i < status.relays.len()
        invariant
            i <= status.relays.len(),
            rs == status@.relays,
            rs.len() == status.relays.len(),
            parts@ == relay_parts(rs.take(i as int)),
        decreases status.relays.len() - i,
    {
        let r = &status.relays[i];
        assert(rs[i as int] == r@);
        if i > 0 {
            parts.append("  ");
        }
        parts.append(relay_label_string(r.index).as_str());
        parts.append("=");
        parts.append(r.state.as_str());
        proof {
            let t = rs.take(i + 1);
            assert(t.drop_last() =~= rs.take(i as int));
            assert(t.last() == r@);
        }
        i = i + 1;
    }
    assert(rs.take(rs.len() as int) =~= rs);
    let mut out = String::from_str("relays:  ");
    out.append(parts.as_str());
    out
}

/// The full device status block. `power_w` is the device's power reading as the
/// tool formats it; it is shown only when the device has an energy sensor.
pub fn status(device: &DeviceStatus, power_w: Option<&str>) -> (r: String)
    ensures
        r@ == status_text(device@, opt_str_view(power_w)),
{
    let mut out = String::from_str(device.display_name());
    out.append(" (");
    out.append(device.host.as_str());
    out.append(")\n");
    out.append("  ");
    out.append(relays_line(device).as_str());
    out.append("\n");
    out.append("  firmware: ");
    out.append(na(opt_as_str(&device.firmware)).as_str());
    out.append("\n");
    out.append("  rssi:    ");
    out.append(na_int(device.wifi_rssi).as_str());
    out.append("\n");
    out.append("  uptime:  ");
    out.append(na(opt_as_str(&device.uptime)).as_str());
    out.append("\n");
    out.append("  ip:      ");
    out.append(na(opt_as_str(&device.net.ip)).as_str());
    out.append("\n");
    out.append("  power:   ");
    match &device.energy {
        None => out.append("n/a (no energy sensor)"),
        Some(_) => {
            out.append(na(power_w).as_str());
            out.append(" W");
        },
    }
    out
}

/// The one-line power reading; `power_w` is the formatted reading.
pub open spec fn power_text(s: DeviceStatusView, power_w: Option<Seq<char>>) -> Seq<char> {
    display_name_of(s) + match s.energy {
        None => ": n/a (no energy sensor)"@,
        Some(_) => ": "@ + na_text(power_w) + " W"@,
    }
}

/// The energy block, from the formatted readings: power, voltage, current, and the
/// energy used today, yesterday and in total.
pub open spec fn energy_text(
    s: DeviceStatusView,
    power_w: Option<Seq<char>>,
    voltage_v: Option<Seq<char>>,
    current_a: Option<Seq<char>>,
    today_kwh: Option<Seq<char>>,
    yesterday_kwh: Option<Seq<char>>,
    total_kwh: Option<Seq<char>>,
) -> Seq<char> {
    match s.energy {
        None => display_name_of(s) + ": n/a (no energy sensor)"@,
        Some(_) => display_name_of(s) + "\n  power:     "@ + na_text(power_w) + " W"@
            + "\n  voltage:   "@ + na_text(voltage_v) + " V"@ + "\n  current:   "@ + na_text(
            current_a,
        ) + " A"@ + "\n  today:     "@ + na_text(today_kwh) + " kWh"@ + "\n  yesterday: "@
            + na_text(yesterday_kwh) + " kWh"@ + "\n  total:     "@ + na_text(total_kwh)
            + " kWh"@,
    }
}

/// One-line power reading. `power_w` is the device's power reading as the tool formats
/// it; a device without an energy sensor reads `n/a (no energy sensor)`, never 0.
pub fn power(status: &DeviceStatus, power_w: Option<&str>) -> (r: String)
    ensures
        r@ == power_text(status@, opt_str_view(power_w)),
{
    let mut out = String::from_str(status.display_name());
    match &status.energy {
        None => out.append(": n/a (no energy sensor)"),
        Some(_) => {
            out.append(": ");
            out.append(na(power_w).as_str());
            out.append(" W");
        },
    }
    out
}

/// Energy totals, from the device's readings as the tool formats them; an absent
/// reading shows as `n/a`, and a device without an energy sensor says so.
pub fn energy(
    status: &DeviceStatus,
    power_w: Option<&str>,
    voltage_v: Option<&str>,
    current_a: Option<&str>,
    today_kwh: Option<&str>,
    yesterday_kwh: Option<&str>,
    total_kwh: Option<&str>,
) -> (r: String)
    ensures
        r@ == energy_text(
            status@,
            opt_str_view(power_w),
            opt_str_view(voltage_v),
            opt_str_view(current_a),
            opt_str_view(today_kwh),
            opt_str_view(yesterday_kwh),
            opt_str_view(total_kwh),
        ),
{
    let mut out = String::from_str(status.display_name());
    match &status.energy {
        None => {
            out.append(": n/a (no energy sensor)");
        },
        Some(_) => {
            out.append("\n  power:     ");
            out.append(na(power_w).as_str());
            out.append(" W");
            out.append("\n  voltage:   ");
            out.append(na(voltage_v).as_str());
            out.append(" V");
            out.append("\n  current:   ");
            out.append(na(current_a).as_str());
            out.append(" A");
            out.append("\n  today:     ");
            out.append(na(today_kwh).as_str());
            out.append(" kWh");
            out.append("\n  yesterday: ");
            out.append(na(yesterday_kwh).as_str());
            out.append(" kWh");
            out.append("\n  total:     ");
            out.append(na(total_kwh).as_str());
            out.append(" kWh");
        },
    }
    out
}

/// The health summary: reachability, signal, uptime, firmware and MQTT settings.
pub fn health(status: &DeviceStatus) -> (r: String)
    ensures
        r@ == health_text(status@),
{
    let mqtt = match &status.mqtt {
        None => String::from_str("n/a"),
        Some(m) => {
            let mut s = String::from_str("host=");
            s.append(na(opt_as_str(&m.host)).as_str());
            s.append(" port=");
            s.append(na_int(m.port).as_str());
            s.append(" (connected: n/a over HTTP)");
            s
        },
    };
    let mut out = String::from_str(status.display_name());
    out.append(" (");
    out.append(status.host.as_str());
    out.append(")\n  online:   yes\n  rssi:     ");
    out.append(na_int(status.wifi_rssi).as_str());
    out.append("\n  uptime:   ");
    out.append(na(opt_as_str(&status.uptime)).as_str());
    out.append("\n  firmware: ");
    out.append(na(opt_as_str(&status.firmware)).as_str());
    out.append("\n  mqtt:     ");
    out.append(mqtt.as_str());
    out
}

/// A cached device list.
pub fn devices(list: &[CachedDevice]) -> (r: String)
    ensures
        r@ == devices_text(devices_view(list@)),
{
    let ghost lv = devices_view(list@);
    if list.len() == 0 {
        return String::from_str("no cached devices (run `tasmota discover`)");
    }
    let mut out = String::new();
    let mut i: usize = 0;
    while i < list.len()
        invariant
            i <= list.len(),
            lv == devices_view(list@),
            out@ == device_lines(lv.take(i as int)),
        decreases list.len() - i,
    {
        let d = &list[i];
        out.append(pad_right(d.name.as_str(), 24).as_str());
        out.append(" ");
        out.append(d.host.as_str());
        out.append("\n");
        proof {
            let t = lv.take(i + 1);
            assert(t.drop_last() =~= lv.take(i as int));
            assert(t.last() == d@);
        }
        i = i + 1;
    }
    assert(lv.take(list.len() as int) =~= lv);
    trim_end_string(out.as_str())
}

/// The result of a discovery scan.
pub fn discovered(list: &[Discovered]) -> (r: String)
    ensures
        r@ == discovered_text(found_view(list@)),
{
    let ghost lv = found_view(list@);
    if list.len() == 0 {
        return String::from_str("no Tasmota devices found");
    }
    let mut lines = String::new();
    let mut i: usize = 0;
    while i < list.len()
        invariant
            i <= list.len(),
            lv == found_view(list@),
            lines@ == found_lines(lv.take(i as int)),
        decreases list.len() - i,
    {
        let d = &list[i];
        lines.append("  ");
        lines.append(pad_right(d.status.display_name(), 24).as_str());
        lines.append(" ");
        lines.append(pad_right(d.host.as_str(), 16).as_str());
        lines.append(" ");
        lines.append(na(opt_as_str(&d.status.firmware)).as_str());
        lines.append("\n");
        proof {
            let t = lv.take(i + 1);
            assert(t.drop_last() =~= lv.take(i as int));
            assert(t.last() == d@);
        }
        i = i + 1;
    }
    assert(lv.take(list.len() as int) =~= lv);
    let mut out = String::from_str("found ");
    out.append(dec_string(list.len() as u64).as_str());
    out.append(" device(s):\n");
    out.append(lines.as_str());
    trim_end_string(out.as_str())
}

} // verus!
