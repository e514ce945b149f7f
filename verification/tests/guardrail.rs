use tasmota::guardrail::{classify, Hazard};

#[test]
fn plain_reset_is_destructive() {
    assert!(matches!(classify("Reset 1"), Hazard::Destructive(_)));
}

#[test]
fn upgrade_and_otaurl_are_destructive() {
    assert!(matches!(classify("Upgrade 1"), Hazard::Destructive(_)));
    assert!(matches!(classify("OtaUrl http://x/f.bin"), Hazard::Destructive(_)));
}

#[test]
fn destructive_hidden_in_backlog_is_caught() {
    assert!(matches!(classify("Backlog Power ON; Reset 1"), Hazard::Destructive(_)));
    assert!(matches!(classify("backlog0 power on ; upgrade 1"), Hazard::Destructive(_)));
}

#[test]
fn read_and_relay_control_are_safe() {
    assert_eq!(classify("Status 0"), Hazard::Safe);
    assert_eq!(classify("Power TOGGLE"), Hazard::Safe);
    assert_eq!(classify("Backlog Power1 ON; Power2 OFF"), Hazard::Safe);
}

#[test]
fn config_write_and_unknown_require_confirmation() {
    assert_eq!(classify("SetOption65 1"), Hazard::RequiresConfirmation);
    assert_eq!(classify("Wifi 0"), Hazard::RequiresConfirmation);
    assert_eq!(classify("EnergyConfig Full"), Hazard::RequiresConfirmation);
    assert_eq!(classify("Sensor50 1"), Hazard::RequiresConfirmation);
    assert_eq!(classify("Backlog Power ON; SetOption3 1"), Hazard::RequiresConfirmation);
}

#[test]
fn destructive_reason_names_the_first_destructive_part() {
    assert_eq!(
        classify("Backlog Power ON;  Reset 1 ; Upgrade 1"),
        Hazard::Destructive("`Reset 1` is a destructive command".to_string())
    );
}

#[test]
fn relay_control_is_power_or_one_to_eight() {
    assert_eq!(classify("Power ON"), Hazard::Safe);
    assert_eq!(classify("Power1 ON"), Hazard::Safe);
    assert_eq!(classify("power8 off"), Hazard::Safe);
    assert_eq!(classify("Power9 ON"), Hazard::RequiresConfirmation);
    assert_eq!(classify("Power0 ON"), Hazard::RequiresConfirmation);
    assert_eq!(classify("Power10 ON"), Hazard::RequiresConfirmation);
    assert_eq!(classify("Power255 ON"), Hazard::RequiresConfirmation);
    assert_eq!(classify("PowerX ON"), Hazard::RequiresConfirmation);
}

#[test]
fn backlog_hazard_is_the_highest_of_its_parts() {
    assert_eq!(classify("Backlog Power1 ON; Power9 ON"), Hazard::RequiresConfirmation);
    assert!(matches!(classify("Backlog Power9 ON; Reset 1"), Hazard::Destructive(_)));
    assert_eq!(classify("Backlog Status 0; Power2 OFF"), Hazard::Safe);
}

#[test]
fn tasmota_guardrail_parity_with_switchkit() {
    for cmd in ["Reset 1", "Status 0", "SetOption65 1", "Backlog Reset; Power ON"] {
        let core_hazard = classify(cmd);
        let sk_hazard = switchkit::guardrail::classify(switchkit::Vendor::Tasmota, cmd);
        assert_eq!(
            hazard_level(&core_hazard),
            sk_level(&sk_hazard),
            "hazard level mismatch for `{}`: core={:?} switchkit={:?}",
            cmd,
            core_hazard,
            sk_hazard
        );
    }
}

fn hazard_level(h: &Hazard) -> &'static str {
    match h {
        Hazard::Destructive(_) => "destructive",
        Hazard::RequiresConfirmation => "requires_confirmation",
        Hazard::Safe => "safe",
    }
}

fn sk_level(h: &switchkit::guardrail::Hazard) -> &'static str {
    match h {
        switchkit::guardrail::Hazard::Destructive(_) => "destructive",
        switchkit::guardrail::Hazard::RequiresConfirmation => "requires_confirmation",
        switchkit::guardrail::Hazard::Safe => "safe",
    }
}
