use rcw::config::ws_endpoint_url;
use rcw::ids::{new_host_id, short_machine_id};
use rcw::protocol::PROTOCOL_VERSION;
use rcw::totp::{current_code, verify_code};

#[test]
fn maps_http_to_ws_endpoint() {
    let url = ws_endpoint_url("https://example.com/base", "/ws/host").unwrap();
    assert_eq!(url, "wss://example.com/base/ws/host");
}

#[test]
fn short_machine_id_is_stable_and_redacted() {
    let first = short_machine_id(b"machine-guid");
    let second = short_machine_id(b"machine-guid");
    assert_eq!(first, second);
    assert_eq!(first.len(), 14);
    assert!(first.contains('-'));
    assert!(!first.contains("machine-guid"));
}

#[test]
fn host_id_is_random_url_safe_and_prefixed() {
    let first = new_host_id();
    let second = new_host_id();
    assert!(first.starts_with("host_"));
    assert!(second.starts_with("host_"));
    assert_ne!(first, second);
    assert!(!first.contains('/'));
    assert!(!first.contains('+'));
    assert!(!first.contains('='));
}

#[test]
fn protocol_version_marks_cancel_payload_change() {
    assert_eq!(PROTOCOL_VERSION, 2);
}

#[test]
fn verifies_current_and_adjacent_windows() {
    let seed = b"12345678901234567890";
    let period = 120;
    let now = 1_780_000_000;
    let code = current_code(seed, period, now).unwrap();

    assert!(verify_code(&code, seed, period, now, 1).unwrap());
    assert!(verify_code(&code, seed, period, now + period, 1).unwrap());
    assert!(!verify_code("abcdef", seed, period, now, 1).unwrap());
}
