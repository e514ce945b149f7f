use tasmota::error::Error;
use tasmota::json::Json;
use tasmota::schema::contract;

#[test]
fn schema_is_clispec_v0_2() {
    let v = contract();
    assert_eq!(v.get("clispec").and_then(|j| j.as_str()), Some("0.2"));
    assert_eq!(v.get("name").and_then(|j| j.as_str()), Some("tasmota"));
}

#[test]
fn schema_declares_every_error_kind_with_its_exit_code() {
    let v = contract();
    let errors = match v.get("errors") {
        Some(Json::Array(items)) => items,
        _ => panic!("errors is not an array"),
    };
    let expected = [
        ("usage", 3),
        ("not_found", 4),
        ("auth", 5),
        ("network", 6),
        ("command_rejected", 7),
        ("parse", 8),
        ("io", 1),
        ("unavailable", 9),
        ("aborted", 2),
    ];
    assert_eq!(errors.len(), expected.len());
    for (entry, (kind, code)) in errors.iter().zip(expected.iter()) {
        assert_eq!(entry.get("kind").and_then(|j| j.as_str()), Some(*kind));
        assert_eq!(entry.get("exit_code").and_then(|j| j.as_i64()), Some(*code));
    }
    let aborted = Error::Aborted { message: "aborted by user".to_string() };
    assert_eq!(aborted.kind(), "aborted");
    assert_eq!(aborted.exit_code(), 2);
}

#[test]
fn schema_lists_the_commands() {
    let v = contract();
    let commands = match v.get("commands") {
        Some(Json::Array(items)) => items,
        _ => panic!("commands is not an array"),
    };
    let names: Vec<&str> =
        commands.iter().filter_map(|c| c.get("name").and_then(|j| j.as_str())).collect();
    assert_eq!(
        names,
        vec![
            "discover", "devices", "status", "on", "off", "toggle", "switch", "power", "energy",
            "health", "config", "backup", "restore", "firmware", "console", "template", "group",
            "watch", "completions", "schema",
        ]
    );
    match v.get("global_args") {
        Some(Json::Array(items)) => assert_eq!(items.len(), 10),
        _ => panic!("global_args is not an array"),
    }
}

#[test]
fn schema_marks_the_commands_that_change_a_device() {
    let v = contract();
    let commands = match v.get("commands") {
        Some(Json::Array(items)) => items,
        _ => panic!("commands is not an array"),
    };
    let mutating: Vec<&str> = commands
        .iter()
        .filter(|c| matches!(c.get("mutating"), Some(Json::Bool(true))))
        .filter_map(|c| c.get("name").and_then(|j| j.as_str()))
        .collect();
    assert_eq!(
        mutating,
        vec!["discover", "on", "off", "toggle", "switch", "backup", "restore", "console"]
    );
    let text = tasmota::json::to_compact_string(&v);
    assert!(text.starts_with("{\"clispec\":\"0.2\",\"name\":\"tasmota\",\"version\":\"0.2.0\","));
    assert!(text.contains("{\"name\":\"--timeout\",\"type\":\"integer\",\"default\":5,\"description\":\"Per-request timeout in seconds.\"}"));
}
