use std::cell::RefCell;

use tasmota::cli::{build_ctx, OutputFormat};
use tasmota::commands::{
    backup_check, backup_path, backup_start, firmware_update_start, config_get, confirm_prompt, console_action, console_gate, finish,
    flash_action, gate_outcome, gate_step, groups_text, health, indent, is_bulk, is_yes, plan, plan_text,
    power_action, precheck_line, read_outcome, relay_desc, reply_outcome, restore_refusal, sanitize,
    scan_plan, template_get, validate_setting, worst_exit_code, write_step, GateStep, Write, PerDevice, Rendered, Report,
};
use tasmota::error::Error;
use tasmota::json::{to_compact_string, Json};
use tasmota::target::{attach, Resolved, Selector};
use tasmota::transport::{DeviceAddr, Transport};

struct Recorder {
    sent: RefCell<Vec<String>>,
}

impl Recorder {
    fn new() -> Self {
        Recorder { sent: RefCell::new(Vec::new()) }
    }
}

impl Transport for Recorder {
    fn command(&self, addr: &DeviceAddr, cmnd: &str) -> Result<Json, Error> {
        self.sent.borrow_mut().push(cmnd.to_string());
        if addr.host == "192.0.2.99" {
            return Err(Error::Network { message: "192.0.2.99: timed out".into() });
        }
        match cmnd {
            "Status 0" => Ok(Json::Object(vec![
                ("StatusFWR".into(), Json::Object(vec![("Version".into(), Json::Str("14.2.0".into()))])),
                (
                    "StatusSTS".into(),
                    Json::Object(vec![
                        ("Uptime".into(), Json::Str("1T00:00:00".into())),
                        ("Wifi".into(), Json::Object(vec![("RSSI".into(), Json::Number("80".into()))])),
                    ]),
                ),
            ])),
            "Status 6" => Ok(Json::Object(vec![(
                "StatusMQT".into(),
                Json::Object(vec![("MqttHost".into(), Json::Str("mq".into())), ("MqttPort".into(), Json::Number("1883".into()))]),
            )])),
            _ => Ok(Json::Object(vec![(cmnd.to_string(), Json::Number("1".into()))])),
        }
    }

    fn download(&self, _addr: &DeviceAddr, _path: &str) -> Result<Vec<u8>, Error> {
        Ok(Vec::new())
    }

    fn upload(&self, _addr: &DeviceAddr, _path: &str, _field: &str, _filename: &str, _data: &[u8]) -> Result<Json, Error> {
        Ok(Json::Null)
    }
}

fn targets(hosts: &[&str]) -> Vec<Resolved> {
    hosts.iter().map(|h| attach(h, &format!("dev-{}", h), &None)).collect()
}

fn ctx(format: OutputFormat, dry_run: bool) -> tasmota::cli::Ctx {
    build_ctx(format, 5, None, "/cfg", false, dry_run)
}

fn text_of(r: Report) -> (String, Option<i32>) {
    match r {
        Report::One(Rendered::Text(s)) => (s, None),
        Report::Many { rendered: Rendered::Text(s), exit_code } => (s, Some(exit_code)),
        Report::One(Rendered::Json(j)) => (to_compact_string(&j), None),
        Report::Many { rendered: Rendered::Json(j), exit_code } => (to_compact_string(&j), Some(exit_code)),
    }
}

#[test]
fn bulk_selection_with_single_device_still_confirms() {
    let sel = Selector { all: true, ..Default::default() };
    assert!(is_bulk(&sel));
    assert_eq!(gate_step(false, false, false, is_bulk(&sel), 1), GateStep::Confirm);
    assert_eq!(gate_step(false, true, false, true, 1), GateStep::Proceed);
}

#[test]
fn gate_decisions() {
    assert_eq!(gate_step(true, true, true, true, 5), GateStep::Plan);
    assert_eq!(gate_step(false, false, false, false, 1), GateStep::Proceed);
    assert_eq!(gate_step(false, false, false, false, 2), GateStep::Confirm);
    assert_eq!(gate_step(false, false, true, false, 1), GateStep::Confirm);
}

#[test]
fn unclassified_console_command_requires_confirmation() {
    let (confirm, warning) = console_gate("SetOption65 1");
    assert!(confirm);
    assert_eq!(warning.unwrap(), "`SetOption65 1` is not a known-safe command; confirmation required.");
    assert_eq!(gate_step(false, false, confirm, false, 1), GateStep::Confirm);
    assert!(!is_yes(""));
}

#[test]
fn destructive_console_dry_run_sends_nothing() {
    let (confirm, warning) = console_gate("Reset 1");
    assert!(confirm);
    assert!(warning.unwrap().contains("destructive"));
    assert_eq!(gate_step(true, false, confirm, false, 1), GateStep::Plan);
    let p = plan_text(&console_action("Reset 1"), &targets(&["192.0.2.5"]));
    assert_eq!(p, "[dry-run] would send `Reset 1` on 1 device(s):\n  - dev-192.0.2.5 (192.0.2.5)");
    assert_eq!(console_gate("Status 0"), (false, None));
}

#[test]
fn confirmation_answers() {
    assert!(is_yes("y"));
    assert!(is_yes(" YES \n"));
    assert!(!is_yes("yep"));
    assert!(!is_yes("n"));
}

#[test]
fn config_get_rejects_command_injection() {
    let t = Recorder::new();
    let r = config_get(&t, &ctx(OutputFormat::Text, false), Ok(targets(&["192.0.2.5"])), "Backlog Power OFF; Reset 1");
    assert_eq!(r.unwrap_err().kind(), "usage");
    assert!(t.sent.borrow().is_empty(), "must not send an injected command");
}

#[test]
fn validate_setting_refuses_destructive_words() {
    assert!(validate_setting("TelePeriod").is_ok());
    assert_eq!(
        validate_setting("Reset").unwrap_err().message(),
        "refusing `config` on a destructive command (`Reset` is a destructive command); use `console`, which guards it"
    );
    assert_eq!(validate_setting("").unwrap_err().kind(), "usage");
    assert_eq!(validate_setting("a;b").unwrap_err().kind(), "usage");
}

#[test]
fn config_get_reads_each_target() {
    let t = Recorder::new();
    let r = config_get(&t, &ctx(OutputFormat::Text, false), Ok(targets(&["192.0.2.5"])), "TelePeriod").unwrap();
    assert_eq!(text_of(r), ("dev-192.0.2.5: {\"TelePeriod\":1}".to_string(), None));
    let many = config_get(&t, &ctx(OutputFormat::Text, false), Ok(targets(&["192.0.2.5", "192.0.2.99"])), "TelePeriod");
    let (text, code) = text_of(many.unwrap());
    assert_eq!(text, "dev-192.0.2.5:\n  dev-192.0.2.5: {\"TelePeriod\":1}\n\ndev-192.0.2.99: error: 192.0.2.99: timed out");
    assert_eq!(code, Some(6));
}

#[test]
fn dry_run_status_contacts_nothing() {
    let t = Recorder::new();
    let r = template_get(&t, &ctx(OutputFormat::Json, true), Ok(targets(&["192.0.2.5"]))).unwrap();
    assert!(t.sent.borrow().is_empty(), "dry-run must not contact the device");
    let (json, _) = text_of(r);
    assert_eq!(json, "{\"action\":\"read template\",\"dry_run\":true,\"targets\":[{\"host\":\"192.0.2.5\",\"name\":\"dev-192.0.2.5\"}]}");
    let p = plan(OutputFormat::Json, "query status", &targets(&["192.0.2.6"]));
    match p {
        Rendered::Json(j) => assert!(to_compact_string(&j).contains("\"action\":\"query status\"")),
        Rendered::Text(_) => panic!("expected JSON"),
    }
}

#[test]
fn single_target_failure_is_the_commands_error() {
    let t = Recorder::new();
    let err = template_get(&t, &ctx(OutputFormat::Text, false), Ok(targets(&["192.0.2.99"]))).unwrap_err();
    assert_eq!(err.kind(), "network");
}

#[test]
fn health_merges_mqtt_from_status_6() {
    let t = Recorder::new();
    let r = health(&t, &ctx(OutputFormat::Json, false), Ok(targets(&["192.0.2.5"]))).unwrap();
    let (json, _) = text_of(r);
    assert_eq!(
        json,
        "{\"firmware\":\"14.2.0\",\"mqtt\":{\"client\":null,\"connected\":null,\"host\":\"mq\",\"port\":1883,\"reconnect_count\":null},\"online\":true,\"rssi\":80,\"uptime\":\"1T00:00:00\"}"
    );
    assert_eq!(t.sent.borrow().as_slice(), &["Status 0".to_string(), "Status 6".to_string()]);
}

#[test]
fn finish_reports_worst_exit_code_and_json() {
    let ts = targets(&["a", "b", "c"]);
    let results = vec![
        reply_outcome(&ts[0], Ok(Json::Bool(true))),
        reply_outcome(&ts[1], Err(Error::Auth { message: "denied".into() })),
        reply_outcome(&ts[2], Err(Error::Parse { message: "bad".into() })),
    ];
    assert_eq!(worst_exit_code(&results), 8);
    let (json, code) = text_of(finish(OutputFormat::Json, results).unwrap());
    assert_eq!(code, Some(8));
    assert_eq!(
        json,
        "[{\"host\":\"a\",\"name\":\"dev-a\",\"result\":true},{\"error\":{\"kind\":\"auth\",\"message\":\"denied\"},\"host\":\"b\",\"name\":\"dev-b\"},{\"error\":{\"kind\":\"parse\",\"message\":\"bad\"},\"host\":\"c\",\"name\":\"dev-c\"}]"
    );
    let none: Vec<PerDevice> = Vec::new();
    assert_eq!(worst_exit_code(&none), 0);
}

#[test]
fn read_outcome_keeps_value_and_text() {
    let ts = targets(&["a"]);
    let p = read_outcome(&ts[0], Ok((Json::Number("3".into()), "three".to_string())));
    assert_eq!(p.text, "three");
    assert!(p.error.is_none());
    let (text, _) = text_of(finish(OutputFormat::Text, vec![p]).unwrap());
    assert_eq!(text, "three");
}

#[test]
fn small_texts() {
    assert_eq!(indent("a\r\nb\n"), "  a\n  b");
    assert_eq!(indent(""), "");
    assert_eq!(relay_desc(None), "power");
    assert_eq!(relay_desc(Some(0)), "power");
    assert_eq!(relay_desc(Some(3)), "power3");
    assert_eq!(power_action("turn on", Some(2)), "turn on power2");
    assert_eq!(sanitize("Living Room #2"), "Living_Room__2");
    assert_eq!(backup_path(None, "a b"), "a_b.dmp");
    assert_eq!(backup_path(Some("/tmp/x.dmp"), "a b"), "/tmp/x.dmp");
    assert_eq!(flash_action(None), "flash firmware from the device's OTA URL");
    assert_eq!(flash_action(Some("http://x/f.bin")), "flash firmware from http://x/f.bin");
    assert_eq!(
        confirm_prompt("toggle power", &targets(&["a", "b"])),
        "About to toggle power on 2 device(s):\n  - dev-a (a)\n  - dev-b (b)"
    );
}

#[test]
fn restore_is_unavailable_pending_verification() {
    let e = restore_refusal();
    assert_eq!(e.kind(), "unavailable");
    assert_eq!(e.exit_code(), 9);
}

#[test]
fn backup_out_with_many_targets_is_usage() {
    assert_eq!(backup_check(Some("x.dmp"), 2).unwrap_err().kind(), "usage");
    assert!(backup_check(Some("x.dmp"), 1).is_ok());
    assert!(backup_check(None, 5).is_ok());
}

#[test]
fn firmware_precheck_lines() {
    let ts = targets(&["a"]);
    assert_eq!(precheck_line(&ts[0], &Ok("14.2.0".to_string())), "dev-a (a): current firmware 14.2.0");
    assert_eq!(
        precheck_line(&ts[0], &Err(Error::Network { message: "down".into() })),
        "dev-a (a): unreachable (down)"
    );
}

#[test]
fn scan_plan_and_group_list() {
    match scan_plan(OutputFormat::Text, "192.0.2.0/24", 254) {
        Rendered::Text(s) => assert_eq!(s, "[dry-run] would scan 192.0.2.0/24 (254 hosts) and refresh the cache"),
        Rendered::Json(_) => panic!("expected text"),
    }
    match scan_plan(OutputFormat::Json, "192.0.2.0/24", 254) {
        Rendered::Json(j) => assert_eq!(
            to_compact_string(&j),
            "{\"action\":\"scan and refresh cache\",\"dry_run\":true,\"hosts\":254,\"range\":\"192.0.2.0/24\"}"
        ),
        Rendered::Text(_) => panic!("expected JSON"),
    }
    let groups = vec![
        ("kitchen".to_string(), vec!["Freezer".to_string(), "10.10.20.5".to_string()]),
        ("porch".to_string(), vec!["Lamp".to_string()]),
    ];
    assert_eq!(groups_text(&groups, "/cfg/groups.toml"), "kitchen: Freezer, 10.10.20.5\nporch: Lamp");
    assert_eq!(groups_text(&Vec::new(), "/cfg/groups.toml"), "no groups defined in /cfg/groups.toml");
}

struct Relays {
    sent: RefCell<Vec<String>>,
}

impl Transport for Relays {
    fn command(&self, _addr: &DeviceAddr, cmnd: &str) -> Result<Json, Error> {
        self.sent.borrow_mut().push(cmnd.to_string());
        match cmnd {
            "Power TOGGLE" => Ok(Json::Object(vec![("POWER".into(), Json::Str("OFF".into()))])),
            "Power2 OFF" => Ok(Json::Object(vec![("POWER2".into(), Json::Str("OFF".into()))])),
            "StateText" => Ok(Json::Object(vec![
                ("StateText1".into(), Json::Str("OFF".into())),
                ("StateText2".into(), Json::Str("ON".into())),
            ])),
            _ => Err(Error::CommandRejected { command: cmnd.to_string(), message: "device reported error: Unknown".into() }),
        }
    }

    fn download(&self, _addr: &DeviceAddr, _path: &str) -> Result<Vec<u8>, Error> {
        Ok(Vec::new())
    }

    fn upload(&self, _addr: &DeviceAddr, _path: &str, _field: &str, _filename: &str, _data: &[u8]) -> Result<Json, Error> {
        Ok(Json::Null)
    }
}

#[test]
fn toggle_with_yes_sends_power_command() {
    let t = Relays { sent: RefCell::new(Vec::new()) };
    let ts = targets(&["192.0.2.5"]);
    assert_eq!(gate_step(false, true, false, false, ts.len()), GateStep::Proceed);
    let results = tasmota::commands::power_each(&t, &ts, None, tasmota::ops::PowerAction::Toggle);
    assert_eq!(t.sent.borrow()[0], "Power TOGGLE");
    let (json, _) = text_of(finish(OutputFormat::Json, results).unwrap());
    assert_eq!(json, "{\"relay\":0,\"state\":\"off\"}");
}

#[test]
fn switch_sets_explicit_relay_state() {
    let t = Relays { sent: RefCell::new(Vec::new()) };
    let ts = targets(&["192.0.2.5"]);
    let results = tasmota::commands::power_each(&t, &ts, Some(2), tasmota::ops::PowerAction::Off);
    assert_eq!(t.sent.borrow()[0], "Power2 OFF");
    assert_eq!(results[0].text, "dev-192.0.2.5: power2 -> off");
    let (json, _) = text_of(finish(OutputFormat::Json, results).unwrap());
    assert_eq!(json, "{\"relay\":2,\"state\":\"off\"}");
}

#[test]
fn command_rejected_maps_to_exit_7() {
    let t = Relays { sent: RefCell::new(Vec::new()) };
    let err = template_get(&t, &ctx(OutputFormat::Json, false), Ok(targets(&["192.0.2.5"]))).unwrap_err();
    assert_eq!(err.kind(), "command_rejected");
    assert_eq!(err.exit_code(), 7);
}

#[test]
fn dry_run_firmware_update_contacts_nothing() {
    let ts = targets(&["192.0.2.5"]);
    assert_eq!(gate_step(true, false, true, false, ts.len()), GateStep::Plan);
    let action = flash_action(Some("http://example/f.bin"));
    assert_eq!(
        plan_text(&action, &ts),
        "[dry-run] would flash firmware from http://example/f.bin on 1 device(s):\n  - dev-192.0.2.5 (192.0.2.5)"
    );
}

#[test]
fn declined_confirmation_aborts_with_exit_code_two() {
    assert_eq!(gate_outcome(GateStep::Plan, "yes"), Ok(false));
    assert_eq!(gate_outcome(GateStep::Proceed, ""), Ok(true));
    assert_eq!(gate_outcome(GateStep::Confirm, " Yes\n"), Ok(true));
    assert_eq!(gate_outcome(GateStep::Confirm, "y"), Ok(true));
    let e = gate_outcome(GateStep::Confirm, "").unwrap_err();
    assert_eq!(e.kind(), "aborted");
    assert_eq!(e.exit_code(), 2);
    assert_eq!(e.message(), "aborted by user");
    assert!(gate_outcome(GateStep::Confirm, "no").is_err());
    assert!(gate_outcome(GateStep::Confirm, "yess").is_err());
}

fn shown(r: &Rendered) -> String {
    match r {
        Rendered::Json(j) => to_compact_string(j),
        Rendered::Text(t) => t.clone(),
    }
}

#[test]
fn backup_refuses_out_for_many_targets_before_the_dry_run() {
    let many = targets(&["192.0.2.1", "192.0.2.2"]);
    let e = backup_start(OutputFormat::Text, true, Some("x.dmp"), &many).unwrap_err();
    assert_eq!(e.kind(), "usage");
    let one = targets(&["192.0.2.1"]);
    let p = backup_start(OutputFormat::Text, true, Some("x.dmp"), &one).unwrap().unwrap();
    assert_eq!(shown(&p), shown(&plan(OutputFormat::Text, "download config backup", &one)));
    assert!(backup_start(OutputFormat::Text, false, None, &many).unwrap().is_none());
}

#[test]
fn firmware_update_dry_run_shows_the_plan_only() {
    let ts = targets(&["192.0.2.1"]);
    let p = firmware_update_start(OutputFormat::Json, true, Some("http://ota/fw.bin"), &ts).unwrap();
    assert_eq!(
        shown(&p),
        shown(&plan(OutputFormat::Json, "flash firmware from http://ota/fw.bin", &ts))
    );
    assert!(firmware_update_start(OutputFormat::Json, false, None, &ts).is_none());
}

#[test]
fn settings_firmware_and_templates_confirm_even_for_one_device() {
    assert_eq!(write_step(Write::ConfigSet, false, false, false, 1), GateStep::Confirm);
    assert_eq!(write_step(Write::FirmwareUpdate, false, false, false, 1), GateStep::Confirm);
    assert_eq!(write_step(Write::TemplateApply, false, false, false, 1), GateStep::Confirm);
    assert_eq!(write_step(Write::Console(true), false, false, false, 1), GateStep::Confirm);
    assert_eq!(write_step(Write::Console(false), false, false, false, 1), GateStep::Proceed);
    assert_eq!(write_step(Write::RelayPower, false, false, false, 1), GateStep::Proceed);
    assert_eq!(write_step(Write::RelayPower, false, false, true, 1), GateStep::Confirm);
    assert_eq!(write_step(Write::RelayPower, false, false, false, 2), GateStep::Confirm);
    assert_eq!(write_step(Write::ConfigSet, false, true, false, 1), GateStep::Proceed);
    assert_eq!(write_step(Write::ConfigSet, true, false, false, 1), GateStep::Plan);
}
