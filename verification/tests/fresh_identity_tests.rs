use rcw::error::RcwError;
use rcw::host::screenshot_png;
use rcw::host_tasks::error_code_for_command_error;
use rcw::keys::mouse_button_flags;
use rcw::protocol::{
    ControlOpenPayload, ErrorCode, HostAuthResultPayload, TunnelDirection, TunnelOpenPayload, TunnelStatusPayload,
    PROTOCOL_VERSION,
};
use rcw::relay::Outgoing;
use rcw::server_state::{Clock, ServerState};

fn at(ms: u64) -> Clock {
    Clock { ms, text: "2026-01-01T00:00:00Z".to_owned() }
}

fn open(token: &str, force_reconnect: bool) -> ControlOpenPayload {
    ControlOpenPayload {
        protocol_version: PROTOCOL_VERSION,
        control_token: token.to_owned(),
        machine_id: "ABCD".to_owned(),
        host_id: None,
        totp: "123456".to_owned(),
        totp_period_seconds: 120,
        force_reconnect,
    }
}

fn online() -> ServerState {
    let mut state = ServerState::new();
    state.register_host("host-1".to_owned(), "ABCD".to_owned(), "conn-1".to_owned(), 9, 120);
    state
}

fn grant(state: &mut ServerState, request_id: &str, force_reconnect: bool, now: u64) -> (String, String) {
    state.control_open(open("secret", force_reconnect), Some(request_id.to_owned()), "secret", 5, &at(now));
    let accepted = HostAuthResultPayload { ok: true, code: None, message: None };
    let step = state.host_auth_result("host-1", "conn-1", Some(request_id.to_owned()), accepted, &at(now));
    for send in &step.sends {
        if let Outgoing::OpenResult { payload, .. } = send {
            return (payload.session_id.clone(), payload.session_token.clone());
        }
    }
    panic!("expected the controller's open result")
}

fn is_ulid_text(s: &str) -> bool {
    s.len() == 26 && s.chars().all(|c| "0123456789ABCDEFGHJKMNPQRSTVWXYZ".contains(c))
}

fn tunnel_request(token: &str, port: u16) -> TunnelOpenPayload {
    TunnelOpenPayload {
        session_token: token.to_owned(),
        tunnel_id: None,
        direction: TunnelDirection::Local,
        listen_addr: "127.0.0.1".to_owned(),
        listen_port: port,
        target_host: "127.0.0.1".to_owned(),
        target_port: 80,
        idle_timeout_ms: 60_000,
        allow_non_loopback_listen: false,
        allow_non_loopback_target: false,
    }
}

#[test]
fn granted_sessions_get_a_ulid_and_a_url_safe_token() {
    let mut state = online();
    let (session_id, token) = grant(&mut state, "r1", false, 1000);
    assert!(is_ulid_text(&session_id));
    assert_eq!(token.len(), 43);
    assert!(token.chars().all(|c| c.is_ascii_alphanumeric() || c == '-' || c == '_'));
    let (second_id, second_token) = grant(&mut state, "r2", true, 2000);
    assert!(is_ulid_text(&second_id));
    assert_ne!(second_id, session_id);
    assert_ne!(second_token, token);
}

#[test]
fn each_tunnel_gets_its_own_id() {
    let mut state = online();
    let (session_id, token) = grant(&mut state, "r1", false, 1000);
    let first = state
        .tunnel_open(Some("t1".to_owned()), Some(session_id.clone()), &tunnel_request(&token, 8080), 5, &at(1100))
        .ok()
        .unwrap();
    let second = state
        .tunnel_open(Some("t2".to_owned()), Some(session_id.clone()), &tunnel_request(&token, 8081), 5, &at(1200))
        .ok()
        .unwrap();
    assert!(is_ulid_text(&first.tunnel_id));
    assert!(is_ulid_text(&second.tunnel_id));
    assert_ne!(first.tunnel_id, second.tunnel_id);
    assert_eq!(first.forward.request_id, "t1");
    assert_eq!(second.forward.host_tx, 9);
    let listed = state
        .tunnel_status(
            Some(session_id),
            Ok(TunnelStatusPayload { session_token: token, tunnel_id: None }),
            &at(1300),
        )
        .unwrap();
    assert_eq!(listed.len(), 2);
}

#[test]
fn a_refused_control_token_is_audited_as_a_failed_auth() {
    let mut state = online();
    let step = state.control_open(open("wrong", false), Some("req-9".to_owned()), "secret", 5, &at(1000));
    let audit = step.audit.unwrap();
    assert_eq!(audit.side, "server");
    assert_eq!(audit.event, "session.auth");
    assert_eq!(audit.machine_id.as_deref(), Some("ABCD"));
    assert_eq!(audit.request_id.as_deref(), Some("req-9"));
    assert_eq!(audit.host_id, None);
    assert_eq!(audit.session_id, None);
    assert_eq!(audit.result.as_deref(), Some("failed"));
    assert_eq!(audit.summary.as_deref(), Some("invalid control token"));
}

#[test]
fn a_refused_screenshot_maps_to_unsupported_command() {
    let error = screenshot_png(Some(0)).err().unwrap();
    let text = error.to_text();
    assert_eq!(text, "screenshot is only supported on Windows host builds");
    assert_eq!(error_code_for_command_error(&vec![text.clone()]), ErrorCode::UnsupportedCommand);
    let chain = vec!["command failed".to_owned(), text];
    assert_eq!(error_code_for_command_error(&chain), ErrorCode::UnsupportedCommand);
}

#[test]
fn error_texts_name_their_variant() {
    assert_eq!(RcwError::Protocol("bad frame".to_owned()).to_text(), "protocol error: bad frame");
    assert_eq!(RcwError::MissingConfig("RCW_SERVER_URL".to_owned()).to_text(), "missing required configuration: RCW_SERVER_URL");
    assert_eq!(RcwError::Other("plain".to_owned()).to_text(), "plain");
}

#[test]
fn mouse_buttons_map_to_their_input_flags() {
    assert_eq!(mouse_button_flags("left"), Ok((0x0002, 0x0004)));
    assert_eq!(mouse_button_flags("right"), Ok((0x0008, 0x0010)));
    assert_eq!(mouse_button_flags("middle"), Ok((0x0020, 0x0040)));
    assert_eq!(mouse_button_flags("Left"), Err("unsupported mouse button: Left".to_owned()));
}
