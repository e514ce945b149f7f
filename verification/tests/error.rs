use tasmota::error::Error;
use tasmota::json::to_compact_string;

#[test]
fn envelope_of_an_error_with_a_hint() {
    let e = Error::NotFound { message: "no device named `Lamp` in the cache".to_string() };
    assert_eq!(
        to_compact_string(&e.envelope()),
        "{\"error\":{\"exit_code\":4,\"hint\":\"run `tasmota discover` first, or target with `--host <ip>`\",\"kind\":\"not_found\",\"message\":\"no device named `Lamp` in the cache\"}}"
    );
}

#[test]
fn envelope_of_an_error_without_a_hint() {
    let e = Error::Aborted { message: "aborted by user".to_string() };
    assert_eq!(
        to_compact_string(&e.envelope()),
        "{\"error\":{\"exit_code\":2,\"kind\":\"aborted\",\"message\":\"aborted by user\"}}"
    );
    let e = Error::CommandRejected { command: "Foo".to_string(), message: "Unknown".to_string() };
    assert_eq!(
        to_compact_string(&e.envelope()),
        "{\"error\":{\"exit_code\":7,\"kind\":\"command_rejected\",\"message\":\"device rejected command `Foo`: Unknown\"}}"
    );
}
