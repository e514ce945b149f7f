//! The vendor-neutral view of a Tasmota device, as the `switchkit` device
//! interface describes devices: a snapshot of the device, and errors in
//! `switchkit`'s classes.
//!
//! Absent data stays absent: a missing energy block maps to `None` (never a zeroed
//! reading), an unmapped relay label stays `Unknown` (never a guessed `Off`), and an
//! unreachable device is always an error, never a field of a "successful" snapshot.

use vstd::prelude::*;
use crate::error::{message_of, Error, ErrorView};
use crate::json::Json;
use crate::model::{
    opt_view, relays_view, DeviceStatus, DeviceStatusView, Energy, NetInfo, NetInfoView,
    Relay, RelayView,
};
use crate::ops::{
    firmware_reply, get_status, power_reply, relay_result_view, set_power, status_reply,
    status_with_labels, needs_labels, string_result_view, PowerAction,
};
use crate::parse::{is_tasmota, looks_like_tasmota, result_view};
use crate::transport::{DeviceAddr, DeviceAddrView, Transport};
use crate::text::dec_int;

verus! {

/// The class of a vendor-neutral error.
#[derive(Debug, Clone, Copy, PartialEq, Eq, Structural)]
pub enum VendorErrorKind {
    /// The device was unreachable, or a local operation failed.
    Network,
    /// The device refused our credentials.
    Auth,
    /// The device (or the user) rejected the request.
    Rejected,
    /// The device's reply could not be understood.
    Parse,
    /// The request is not supported here.
    Unsupported,
}

/// A vendor-neutral error: its class, the device's host, and the message.
#[derive(Debug)]
pub struct VendorError {
    pub kind: VendorErrorKind,
    pub host: String,
    pub message: String,
}

pub struct VendorErrorView {
    pub kind: VendorErrorKind,
    pub host: Seq<char>,
    pub message: Seq<char>,
}

impl View for VendorError {
    type V = VendorErrorView;

    open spec fn view(&self) -> VendorErrorView {
        VendorErrorView { kind: self.kind, host: self.host@, message: self.message@ }
    }
}

/// The vendor-neutral class of an error.
pub open spec fn vendor_kind_of(e: ErrorView) -> VendorErrorKind {
    match e {
        ErrorView::Network(_) => VendorErrorKind::Network,
        ErrorView::Io(_) => VendorErrorKind::Network,
        ErrorView::Auth(_) => VendorErrorKind::Auth,
        ErrorView::CommandRejected(_, _) => VendorErrorKind::Rejected,
        ErrorView::NotFound(_) => VendorErrorKind::Rejected,
        ErrorView::Aborted(_) => VendorErrorKind::Rejected,
        ErrorView::Parse(_) => VendorErrorKind::Parse,
        ErrorView::Usage(_) => VendorErrorKind::Unsupported,
        ErrorView::Unavailable(_) => VendorErrorKind::Unsupported,
    }
}

/// An error of ours as a vendor-neutral error about `host`.
pub open spec fn vendor_error_of(e: ErrorView, host: Seq<char>) -> VendorErrorView {
    VendorErrorView { kind: vendor_kind_of(e), host, message: message_of(e) }
}

/// Maps an error (already free of credentials) onto the vendor-neutral classes,
/// attaching the host.
pub fn map_err(e: Error, host: &str) -> (r: VendorError)
    ensures
        r@ == vendor_error_of(e@, host@),
{
    let message = e.message();
    let kind = match e {
        Error::Network { .. } | Error::Io { .. } => VendorErrorKind::Network,
        Error::Auth { .. } => VendorErrorKind::Auth,
        Error::CommandRejected { .. } | Error::NotFound { .. } | Error::Aborted { .. } => {
            VendorErrorKind::Rejected
        },
        Error::Parse { .. } => VendorErrorKind::Parse,
        Error::Usage { .. } | Error::Unavailable { .. } => VendorErrorKind::Unsupported,
    };
    VendorError { kind, host: String::from_str(host), message }
}

/// What a device supports. Metering and several channels are read from the device's
/// own reply; OTA, config backup and the console are firmware-wide on Tasmota.
#[derive(Debug, Clone, Copy, PartialEq, Eq, Structural)]
pub struct Capabilities {
    pub metering: bool,
    pub multi_channel: bool,
    pub firmware_ota: bool,
    pub config_backup: bool,
    pub console: bool,
}

/// Wi-Fi signal: a 0-100 quality percentage and/or a dBm reading.
#[derive(Debug, Clone, Copy, PartialEq, Eq, Structural)]
pub struct Signal {
    pub quality_percent: Option<u8>,
    pub rssi_dbm: Option<i64>,
}

/// Energy readings, each the number text the device reported.
#[derive(Debug)]
pub struct VendorEnergy {
    pub power_w: Option<String>,
    pub today_kwh: Option<String>,
    pub total_kwh: Option<String>,
    pub voltage_v: Option<String>,
    pub current_a: Option<String>,
}

pub struct VendorEnergyView {
    pub power_w: Option<Seq<char>>,
    pub today_kwh: Option<Seq<char>>,
    pub total_kwh: Option<Seq<char>>,
    pub voltage_v: Option<Seq<char>>,
    pub current_a: Option<Seq<char>>,
}

impl View for VendorEnergy {
    type V = VendorEnergyView;

    open spec fn view(&self) -> VendorEnergyView {
        VendorEnergyView {
            power_w: opt_view(self.power_w),
            today_kwh: opt_view(self.today_kwh),
            total_kwh: opt_view(self.total_kwh),
            voltage_v: opt_view(self.voltage_v),
            current_a: opt_view(self.current_a),
        }
    }
}

/// The installed firmware, and whether an update is known to be available.
#[derive(Debug)]
pub struct Firmware {
    pub version: Option<String>,
    pub update_available: Option<bool>,
}

pub struct FirmwareView {
    pub version: Option<Seq<char>>,
    pub update_available: Option<bool>,
}

impl View for Firmware {
    type V = FirmwareView;

    open spec fn view(&self) -> FirmwareView {
        FirmwareView { version: opt_view(self.version), update_available: self.update_available }
    }
}

/// A vendor-neutral snapshot of a device. Tasmota reports no hardware generation
/// and no temperature in its status, so neither is part of it.
#[derive(Debug)]
pub struct Snapshot {
    pub host: String,
    pub name: Option<String>,
    pub model: Option<String>,
    pub capabilities: Capabilities,
    pub relays: Vec<Relay>,
    pub energy: Option<VendorEnergy>,
    pub signal: Option<Signal>,
    pub firmware: Option<Firmware>,
    pub net: NetInfo,
    pub uptime: Option<String>,
}

pub struct SnapshotView {
    pub host: Seq<char>,
    pub name: Option<Seq<char>>,
    pub model: Option<Seq<char>>,
    pub capabilities: Capabilities,
    pub relays: Seq<RelayView>,
    pub energy: Option<VendorEnergyView>,
    pub signal: Option<Signal>,
    pub firmware: Option<FirmwareView>,
    pub net: NetInfoView,
    pub uptime: Option<Seq<char>>,
}

impl View for Snapshot {
    type V = SnapshotView;

    open spec fn view(&self) -> SnapshotView {
        SnapshotView {
            host: self.host@,
            name: opt_view(self.name),
            model: opt_view(self.model),
            capabilities: self.capabilities,
            relays: relays_view(self.relays@),
            energy: match self.energy {
                Some(e) => Some(e@),
                None => None,
            },
            signal: self.signal,
            firmware: match self.firmware {
                Some(f) => Some(f@),
                None => None,
            },
            net: self.net@,
            uptime: opt_view(self.uptime),
        }
    }
}

/// The device's primary name: `DeviceName` when not empty, else the first friendly
/// name. Unlike the display name it never falls back to the host: an address is
/// not a name.
pub open spec fn primary_name_of(s: DeviceStatusView) -> Option<Seq<char>> {
    match s.name {
        Some(n) if n.len() > 0 => Some(n),
        _ => if s.friendly_names.len() > 0 {
            Some(s.friendly_names[0])
        } else {
            None
        },
    }
}

/// `Signal::from_quality_percent`: the percentage clamped to `0..=100`, no dBm.
pub open spec fn quality_signal(pct: i64) -> Signal {
    Signal {
        quality_percent: Some(
            (if pct < 0 {
                0
            } else if pct > 100 {
                100
            } else {
                pct
            }) as u8,
        ),
        rssi_dbm: None,
    }
}

/// The snapshot of a parsed status. Every leaf absent in the status stays absent;
/// nothing is defaulted to a plausible-looking value.
pub open spec fn snapshot_of(s: DeviceStatusView) -> SnapshotView {
    SnapshotView {
        host: s.host,
        name: primary_name_of(s),
        model: match s.module {
            Some(m) => Some(dec_int(m as int)),
            None => None,
        },
        capabilities: Capabilities {
            metering: s.energy is Some,
            multi_channel: s.relays.len() > 1,
            firmware_ota: true,
            config_backup: true,
            console: true,
        },
        relays: s.relays,
        energy: match s.energy {
            Some(e) => Some(
                VendorEnergyView {
                    power_w: e.power_w,
                    today_kwh: e.today_kwh,
                    total_kwh: e.total_kwh,
                    voltage_v: e.voltage_v,
                    current_a: e.current_a,
                },
            ),
            None => None,
        },
        signal: match s.wifi_rssi {
            Some(q) => Some(quality_signal(q)),
            None => None,
        },
        firmware: match s.firmware {
            Some(v) => Some(FirmwareView { version: Some(v), update_available: None }),
            None => None,
        },
        net: s.net,
        uptime: s.uptime,
    }
}

/// The signal of a Tasmota `Wifi.RSSI` reading, which is a 0-100 quality
/// percentage, never a dBm value.
///
/// Trusted: calls `switchkit::Signal::from_quality_percent`, whose source clamps the
/// percentage to `0..=100` and leaves the dBm reading unset.
#[verifier::external_body]
fn signal_from_quality(pct: i64) -> (r: Signal)
    ensures
        r == quality_signal(pct),
{
    let s = switchkit::Signal::from_quality_percent(pct);
    Signal { quality_percent: s.quality_percent, rssi_dbm: s.rssi_dbm }
}

/// Maps a parsed status onto the vendor-neutral snapshot.
pub fn snapshot_from_status(status: DeviceStatus) -> (r: Snapshot)
    ensures
        r@ == snapshot_of(status@),
{
    let ghost sv = status@;
    let name = match &status.name {
        Some(n) if !n.as_str().is_empty() => Some(n.clone()),
        _ => if status.friendly_names.len() > 0 {
            Some(status.friendly_names[0].clone())
        } else {
            None
        },
    };
    let model = match status.module {
        Some(m) => Some(crate::text::dec_int_string(m)),
        None => None,
    };
    let capabilities = Capabilities {
        metering: status.energy.is_some(),
        multi_channel: status.relays.len() > 1,
        firmware_ota: true,
        config_backup: true,
        console: true,
    };
    let energy = match status.energy {
        Some(e) => Some(
            VendorEnergy {
                power_w: e.power_w,
                today_kwh: e.today_kwh,
                total_kwh: e.total_kwh,
                voltage_v: e.voltage_v,
                current_a: e.current_a,
            },
        ),
        None => None,
    };
    let signal = match status.wifi_rssi {
        Some(q) => Some(signal_from_quality(q)),
        None => None,
    };
    let firmware = match status.firmware {
        Some(v) => Some(Firmware { version: Some(v), update_available: None }),
        None => None,
    };
    Snapshot {
        host: status.host,
        name,
        model,
        capabilities,
        relays: status.relays,
        energy,
        signal,
        firmware,
        net: status.net,
        uptime: status.uptime,
    }
}

pub open spec fn snapshot_result(r: Result<DeviceStatusView, ErrorView>, host: Seq<char>) -> Result<
    SnapshotView,
    VendorErrorView,
> {
    match r {
        Ok(s) => Ok(snapshot_of(s)),
        Err(e) => Err(vendor_error_of(e, host)),
    }
}

pub open spec fn vendor_view<A, V>(r: Result<A, VendorError>, f: spec_fn(A) -> V) -> Result<V, VendorErrorView> {
    match r {
        Ok(x) => Ok(f(x)),
        Err(e) => Err(e@),
    }
}

/// The status of a device as a snapshot.
pub fn status_snapshot<T: Transport>(t: &T, addr: &DeviceAddr) -> (r: Result<Snapshot, VendorError>)
    ensures
        exists|sr: Result<DeviceStatusView, ErrorView>|
            #[trigger] status_reply(*t, addr@, sr) && vendor_view(r, |s: Snapshot| s@)
                == snapshot_result(sr, addr@.host),
{
    let r = get_status(t, addr);
    let ghost rv = result_view(r);
    let out = match r {
        Ok(s) => Ok(snapshot_from_status(s)),
        Err(e) => Err(map_err(e, addr.host.as_str())),
    };
    assert(status_reply(*t, addr@, rv));
    assert(vendor_view(out, |s: Snapshot| s@) == snapshot_result(rv, addr@.host));
    out
}

/// What probing a device finds: a snapshot when its `Status 0` reply is a Tasmota
/// document; nothing when it answered something else, or a reply that is not a
/// Tasmota command reply (not JSON, or the command rejected); an error when it was
/// unreachable or its status does not resolve.
pub open spec fn probe_result<T: Transport>(t: T, addr: DeviceAddrView, r: Result<Option<SnapshotView>, VendorErrorView>) -> bool {
    ||| exists|e: ErrorView|
        #[trigger] t.answers(addr, "Status 0"@, Err(e)) && r == if (e is Parse || e is CommandRejected) {
            Ok::<Option<SnapshotView>, VendorErrorView>(None)
        } else {
            Err::<Option<SnapshotView>, VendorErrorView>(vendor_error_of(e, addr.host))
        }
    ||| exists|v: Json| #[trigger] t.answers(addr, "Status 0"@, Ok(v)) && !is_tasmota(v) && r == Ok::<
        Option<SnapshotView>,
        VendorErrorView,
    >(None)
    ||| exists|v: Json, labels: Result<Json, ErrorView>|
        t.answers(addr, "Status 0"@, Ok(v)) && is_tasmota(v) && (needs_labels(addr.host, v)
            ==> t.answers(addr, "StateText"@, labels)) && r == match #[trigger] status_with_labels(
            addr.host,
            v,
            labels,
        ) {
            Ok(s) => Ok::<Option<SnapshotView>, VendorErrorView>(Some(snapshot_of(s))),
            Err(e) => Err::<Option<SnapshotView>, VendorErrorView>(vendor_error_of(e, addr.host)),
        }
}

pub open spec fn probe_view(r: Result<Option<Snapshot>, VendorError>) -> Result<Option<SnapshotView>, VendorErrorView> {
    match r {
        Ok(Some(s)) => Ok(Some(s@)),
        Ok(None) => Ok(None),
        Err(e) => Err(e@),
    }
}

/// Probes a device: confirms it is Tasmota and snapshots it. A reachable device that
/// is not Tasmota is a non-match, never a guessed vendor.
pub fn probe_snapshot<T: Transport>(t: &T, addr: &DeviceAddr) -> (r: Result<
    Option<Snapshot>,
    VendorError,
>)
    ensures
        probe_result(*t, addr@, probe_view(r)),
{
    match t.command(addr, "Status 0") {
        Ok(v) => {
            assert(t.answers(addr@, "Status 0"@, Ok(v)));
            if looks_like_tasmota(&v) {
                match crate::ops::status_from_value(t, addr, &v) {
                    Ok(s) => Ok(Some(snapshot_from_status(s))),
                    Err(e) => Err(map_err(e, addr.host.as_str())),
                }
            } else {
                Ok(None)
            }
        },
        Err(e) => {
            assert(t.answers(addr@, "Status 0"@, Err(e@)));
            match e {
                Error::Parse { .. } | Error::CommandRejected { .. } => Ok(None),
                _ => Err(map_err(e, addr.host.as_str())),
            }
        },
    }
}

/// Sets a relay; the result is the relay's new state, or the vendor-neutral error.
pub fn power_vendor<T: Transport>(t: &T, addr: &DeviceAddr, channel: Option<u8>, action: PowerAction) -> (r:
    Result<Relay, VendorError>)
    ensures
        exists|res: Result<RelayView, ErrorView>|
            #[trigger] power_reply(*t, addr@, channel, action, res) && vendor_view(r, |x: Relay| x@)
                == match res {
                Ok(x) => Ok::<RelayView, VendorErrorView>(x),
                Err(e) => Err::<RelayView, VendorErrorView>(vendor_error_of(e, addr@.host)),
            },
{
    let res = set_power(t, addr, channel, action);
    let ghost rv = relay_result_view(res);
    let out = match res {
        Ok(x) => Ok(x),
        Err(e) => Err(map_err(e, addr.host.as_str())),
    };
    assert(power_reply(*t, addr@, channel, action, rv));
    out
}

/// The firmware version, always known when the device answers.
pub fn firmware_vendor<T: Transport>(t: &T, addr: &DeviceAddr) -> (r: Result<Option<String>, VendorError>)
    ensures
        exists|res: Result<Seq<char>, ErrorView>|
            #[trigger] firmware_reply(*t, addr@, res) && vendor_view(r, |x: Option<String>| opt_view(x))
                == match res {
                Ok(v) => Ok::<Option<Seq<char>>, VendorErrorView>(Some(v)),
                Err(e) => Err::<Option<Seq<char>>, VendorErrorView>(vendor_error_of(e, addr@.host)),
            },
{
    let res = crate::ops::firmware_version(t, addr);
    let ghost rv = string_result_view(res);
    let out = match res {
        Ok(v) => Ok(Some(v)),
        Err(e) => Err(map_err(e, addr.host.as_str())),
    };
    assert(firmware_reply(*t, addr@, rv));
    out
}

/// A JSON-answered request's result with its error made vendor-neutral.
pub fn json_vendor(r: Result<Json, Error>, host: &str) -> (out: Result<Json, VendorError>)
    ensures
        match r {
            Ok(v) => out == Ok::<Json, VendorError>(v),
            Err(e) => out is Err && out->Err_0@ == vendor_error_of(e@, host@),
        },
{
    match r {
        Ok(v) => Ok(v),
        Err(e) => Err(map_err(e, host)),
    }
}

/// A snapshot never fabricates data: no energy block means no energy readings and
/// no metering; the relays, and so an unknown relay label, are the status's own; no
/// firmware version means no firmware, and no RSSI means no signal.
pub proof fn snapshot_never_fabricates(s: DeviceStatusView)
    ensures
        snapshot_of(s).energy is None <==> s.energy is None,
        snapshot_of(s).capabilities.metering <==> s.energy is Some,
        snapshot_of(s).relays == s.relays,
        snapshot_of(s).firmware is None <==> s.firmware is None,
        snapshot_of(s).signal is None <==> s.wifi_rssi is None,
        snapshot_of(s).host == s.host,
{
}

/// A snapshot claims several channels exactly when the device reports more than one
/// relay.
pub proof fn multi_channel_means_several_relays(s: DeviceStatusView)
    ensures
        snapshot_of(s).capabilities.multi_channel <==> s.relays.len() > 1,
{
}

} // verus!
