use tasmota::json::Json;
use tasmota::transport::{
    check_command_error, command_reply, command_url, encode_component, multipart_body, path_url,
    redact_credentials, status_error, transport_error, upload_content_type, Credentials, DeviceAddr,
};

fn obj(members: Vec<(&str, Json)>) -> Json {
    Json::Object(members.into_iter().map(|(k, v)| (k.to_string(), v)).collect())
}

fn text(s: &str) -> Json {
    Json::Str(s.to_string())
}

#[test]
fn encodes_spaces_and_reserved() {
    assert_eq!(encode_component("Status 0"), "Status%200");
    assert_eq!(encode_component("Backlog Power ON; Delay 2"), "Backlog%20Power%20ON%3B%20Delay%202");
    assert_eq!(encode_component("abc-_.~"), "abc-_.~");
}

#[test]
fn encodes_non_ascii_as_utf8_bytes() {
    assert_eq!(encode_component("é/?"), "%C3%A9%2F%3F");
}

#[test]
fn command_url_includes_credentials() {
    let addr = DeviceAddr::new("192.0.2.10")
        .with_credentials(Some(Credentials { user: "admin".into(), password: "p@ss".into() }));
    let url = command_url(&addr, "Status 0");
    assert_eq!(url, "http://192.0.2.10/cm?cmnd=Status%200&user=admin&password=p%40ss");
}

#[test]
fn command_url_without_credentials_has_only_the_command() {
    let addr = DeviceAddr::new("192.0.2.11");
    assert_eq!(command_url(&addr, "Power TOGGLE"), "http://192.0.2.11/cm?cmnd=Power%20TOGGLE");
    assert_eq!(path_url(&addr, "/dl"), "http://192.0.2.11/dl");
}

#[test]
fn unknown_command_is_rejected() {
    let v = obj(vec![("Command", text("Unknown"))]);
    let err = check_command_error(&v, "Frobnicate").unwrap_err();
    assert_eq!(err.kind(), "command_rejected");
}

#[test]
fn password_warning_is_auth_error() {
    let v = obj(vec![("WARNING", text("Need user+password to send command"))]);
    let err = check_command_error(&v, "Power TOGGLE").unwrap_err();
    assert_eq!(err.kind(), "auth");
}

#[test]
fn root_error_key_is_rejected() {
    assert_eq!(
        check_command_error(&obj(vec![("Error", text("Invalid parameter"))]), "X").unwrap_err().kind(),
        "command_rejected"
    );
    assert_eq!(check_command_error(&obj(vec![("ERROR", text("boom"))]), "X").unwrap_err().kind(), "command_rejected");
}

#[test]
fn ok_response_passes() {
    let v = obj(vec![("POWER", text("ON"))]);
    assert!(check_command_error(&v, "Power ON").is_ok());
}

#[test]
fn redact_credentials_scrubs_user_and_password() {
    let input = "http://192.0.2.123/cm?cmnd=Status%200&user=admin&password=SUPER_SECRET_PW: Connection Failed: Connect error";
    let redacted = redact_credentials(input);
    assert!(!redacted.contains("SUPER_SECRET_PW"));
    assert!(!redacted.contains("=admin"));
    assert!(redacted.contains("192.0.2.123"));
    assert!(redacted.contains("Connection Failed"));
    assert!(redacted.contains("user=***"));
    assert!(redacted.contains("password=***"));
}

#[test]
fn redact_credentials_password_at_end_of_string() {
    let redacted = redact_credentials("some error: password=SECRET");
    assert!(!redacted.contains("SECRET"));
    assert!(redacted.contains("password=***"));
}

#[test]
fn redact_credentials_case_insensitive_key() {
    let redacted = redact_credentials("oops Password=TopSecret&more");
    assert!(!redacted.contains("TopSecret"));
    assert!(redacted.contains("Password=***"));
    assert!(redacted.contains("&more"));
}

#[test]
fn redact_credentials_leaves_unrelated_text_untouched() {
    assert_eq!(redact_credentials("no secrets here"), "no secrets here");
}

#[test]
fn redaction_twice_is_redaction_once() {
    let once = redact_credentials("a user=bob&password=x y");
    assert_eq!(once, "a user=***&password=*** y");
    assert_eq!(redact_credentials(&once), once);
}

#[test]
fn transport_errors_are_network_errors_without_the_password() {
    let err = transport_error("127.0.0.1:1", "http://127.0.0.1:1/cm?cmnd=x&user=admin&password=SUPER_SECRET_PW: refused");
    assert_eq!(err.kind(), "network");
    assert!(!err.message().contains("SUPER_SECRET_PW"));
}

#[test]
fn reply_body_decides_success() {
    let ok = command_reply("h", "Power ON", Some(obj(vec![("POWER", text("ON"))]))).unwrap();
    assert!(ok.is_object());
    assert_eq!(command_reply("h", "Power ON", None).unwrap_err().kind(), "parse");
    let rejected = command_reply("h", "Frob", Some(obj(vec![("Command", text("Unknown"))]))).unwrap_err();
    assert_eq!(rejected.kind(), "command_rejected");
}

#[test]
fn http_status_errors_are_classified() {
    assert_eq!(status_error("h", 401, None).kind(), "auth");
    assert_eq!(status_error("h", 500, None).kind(), "network");
}

#[test]
fn multipart_body_frames_the_file() {
    let body = multipart_body("u2", "config.dmp", b"abc");
    let s = String::from_utf8(body).unwrap();
    assert!(s.contains("name=\"u2\"; filename=\"config.dmp\""));
    assert!(s.contains("\r\n\r\nabc\r\n"));
    assert!(upload_content_type().starts_with("multipart/form-data; boundary="));
}

#[test]
fn secret_value_is_replaced_whatever_surrounds_it() {
    assert_eq!(redact_credentials("x:PASSWORD=hunter2 rest"), "x:PASSWORD=*** rest");
    assert_eq!(redact_credentials("x:PASSWORD=other99 rest"), "x:PASSWORD=*** rest");
    assert_eq!(redact_credentials("a&User=bob:tail"), "a&User=***:tail");
    assert_eq!(redact_credentials("user="), "user=");
}

#[test]
fn encoding_length_counts_two_more_per_escaped_byte() {
    let e = encode_component("a b&c");
    assert_eq!(e, "a%20b%26c");
    assert_eq!(e.len(), 5 + 2 * 2);
    assert_eq!(encode_component("é").len(), 2 + 2 * 2);
}
