use rcw::protocol::{ControlOpenPayload, ErrorCode, HostAuthResultPayload, HostHelloPayload, PROTOCOL_VERSION};
use rcw::relay::Outgoing;
use rcw::server_state::{Clock, ServerState};

fn at(ms: u64) -> Clock {
    Clock { ms, text: "2026-01-01T00:00:00Z".to_owned() }
}

fn open(token: &str, force_reconnect: bool) -> ControlOpenPayload {
    ControlOpenPayload {
        protocol_version: PROTOCOL_VERSION,
        control_token: token.to_owned(),
        machine_id: "ABCD".to_owned(),
        host_id: None,
        totp: "123456".to_owned(),
        totp_period_seconds: 120,
        force_reconnect,
    }
}

fn online() -> ServerState {
    let mut state = ServerState::new();
    state.register_host("host-1".to_owned(), "ABCD".to_owned(), "conn-1".to_owned(), 9, 120);
    state
}

fn accepted() -> HostAuthResultPayload {
    HostAuthResultPayload { ok: true, code: None, message: None }
}

/// Opens a session for controller `tx` and returns its id and token.
fn open_session(state: &mut ServerState, request_id: &str, tx: u64, force_reconnect: bool, now: u64) -> (String, String) {
    let step = state.control_open(open("secret", force_reconnect), Some(request_id.to_owned()), "secret", tx, &at(now));
    assert!(matches!(step.sends[0], Outgoing::AuthRequest { .. }));
    let step = state.host_auth_result("host-1", "conn-1", Some(request_id.to_owned()), accepted(), &at(now));
    let n = step.sends.len();
    match &step.sends[n - 2] {
        Outgoing::OpenResult { to, payload, .. } => {
            assert_eq!(*to, tx);
            assert!(payload.ok);
            (payload.session_id.clone(), payload.session_token.clone())
        }
        _ => panic!("expected the controller's open result"),
    }
}

#[test]
fn a_wrong_control_token_is_refused_and_audited() {
    let mut state = online();
    let step = state.control_open(open("wrong", false), Some("req".to_owned()), "secret", 5, &at(1000));
    assert_eq!(step.sends.len(), 1);
    match &step.sends[0] {
        Outgoing::Error { to, code, .. } => {
            assert_eq!(*to, 5);
            assert_eq!(*code, ErrorCode::InvalidToken);
        }
        _ => panic!("expected an error"),
    }
    assert!(step.audit.is_some());
}

#[test]
fn the_host_checks_the_code_before_a_session_opens() {
    let mut state = online();
    let step = state.control_open(open("secret", false), Some("req".to_owned()), "secret", 5, &at(1000));
    match &step.sends[0] {
        Outgoing::AuthRequest { to, request_id, payload } => {
            assert_eq!(*to, 9);
            assert_eq!(request_id, "req");
            assert_eq!(payload.totp, "123456");
            assert!(payload.controller_label.starts_with("token:"));
        }
        _ => panic!("expected an auth request to the host"),
    }
    let refused = HostAuthResultPayload { ok: false, code: Some(ErrorCode::InvalidTotp), message: None };
    let step = state.host_auth_result("host-1", "conn-1", Some("req".to_owned()), refused, &at(1100));
    assert_eq!(step.sends.len(), 1);
    match &step.sends[0] {
        Outgoing::Error { to, code, message, .. } => {
            assert_eq!(*to, 5);
            assert_eq!(*code, ErrorCode::InvalidTotp);
            assert_eq!(message, ErrorCode::InvalidTotp.message());
        }
        _ => panic!("expected an error"),
    }
    let again = state.host_auth_result("host-1", "conn-1", Some("req".to_owned()), accepted(), &at(1200));
    assert!(again.sends.is_empty());
}

#[test]
fn an_accepted_code_opens_a_session_on_both_sides() {
    let mut state = online();
    state.control_open(open("secret", false), Some("req".to_owned()), "secret", 5, &at(1000));
    let step = state.host_auth_result("host-1", "conn-1", Some("req".to_owned()), accepted(), &at(1100));
    assert_eq!(step.sends.len(), 2);
    let (session_id, token) = match &step.sends[0] {
        Outgoing::OpenResult { to, request_id, payload, .. } => {
            assert_eq!(*to, 5);
            assert_eq!(request_id, "req");
            assert_eq!(payload.host_id, "host-1");
            assert_eq!(payload.machine_id, "ABCD");
            (payload.session_id.clone(), payload.session_token.clone())
        }
        _ => panic!("expected the controller's open result"),
    };
    match &step.sends[1] {
        Outgoing::SessionOpened { to, payload, .. } => {
            assert_eq!(*to, 9);
            assert_eq!(payload.session_id, session_id);
        }
        _ => panic!("expected the host's notice"),
    }
    assert_eq!(step.audits.last().unwrap().event, "session.created");
    let session = state.session_if_valid(&session_id, &token, &at(1200)).unwrap();
    assert_eq!(session.controller_tx, Some(5));
    assert!(state.session_if_valid(&session_id, "not-the-token", &at(1200)).is_none());
}

#[test]
fn a_forced_reconnect_replaces_the_open_session() {
    let mut state = online();
    let (first, first_token) = open_session(&mut state, "r1", 5, false, 1000);
    let busy = state.control_open(open("secret", false), Some("r2".to_owned()), "secret", 6, &at(1100));
    match &busy.sends[0] {
        Outgoing::Error { code, .. } => assert_eq!(*code, ErrorCode::HostBusy),
        _ => panic!("expected a busy host"),
    }
    let (second, _) = open_session(&mut state, "r3", 6, true, 1200);
    assert_ne!(first, second);
    assert!(state.session_if_valid(&first, &first_token, &at(1300)).is_none());
}

#[test]
fn forced_reconnect_tells_the_old_controller_and_the_host() {
    let mut state = online();
    let (first, _) = open_session(&mut state, "r1", 5, false, 1000);
    state.control_open(open("secret", true), Some("r2".to_owned()), "secret", 6, &at(1100));
    let step = state.host_auth_result("host-1", "conn-1", Some("r2".to_owned()), accepted(), &at(1100));
    assert_eq!(step.sends.len(), 4);
    match &step.sends[0] {
        Outgoing::Error { to, session_id, code, message, .. } => {
            assert_eq!(*to, 5);
            assert_eq!(session_id.as_deref(), Some(first.as_str()));
            assert_eq!(*code, ErrorCode::SessionExpired);
            assert_eq!(message, "session replaced by force reconnect");
        }
        _ => panic!("expected the old controller's notice"),
    }
    match &step.sends[1] {
        Outgoing::SessionClosed { to, payload, .. } => {
            assert_eq!(*to, 9);
            assert_eq!(payload.session_id, first);
            assert_eq!(payload.reason, "force_reconnect");
        }
        _ => panic!("expected the host's notice"),
    }
    assert!(matches!(step.sends[2], Outgoing::OpenResult { to: 6, .. }));
    assert!(matches!(step.sends[3], Outgoing::SessionOpened { to: 9, .. }));
}

#[test]
fn a_reconnecting_host_closes_what_its_old_connection_had() {
    let mut state = online();
    let (first, token) = open_session(&mut state, "r1", 5, false, 1000);
    state.control_open(open("secret", true), Some("r2".to_owned()), "secret", 6, &at(1100));
    let hello = HostHelloPayload {
        protocol_version: PROTOCOL_VERSION,
        host_version: "0.1.0".to_owned(),
        host_id: "host-1".to_owned(),
        machine_id: "ABCD".to_owned(),
        totp_period_seconds: 120,
        os: "linux".to_owned(),
        hostname_hash: "x".to_owned(),
    };
    let (registered, step) = state.host_hello(true, None, hello, "conn-2".to_owned(), 10, &at(1200));
    assert!(registered);
    let n = step.sends.len();
    assert_eq!(n, 3);
    match &step.sends[0] {
        Outgoing::Error { to, request_id, message, .. } => {
            assert_eq!(*to, 6);
            assert_eq!(request_id.as_deref(), Some("r2"));
            assert_eq!(message, "host connection replaced before authentication completed");
        }
        _ => panic!("expected the pending controller's refusal"),
    }
    match &step.sends[1] {
        Outgoing::Error { to, session_id, message, .. } => {
            assert_eq!(*to, 5);
            assert_eq!(session_id.as_deref(), Some(first.as_str()));
            assert_eq!(message, "host connection replaced");
        }
        _ => panic!("expected the session controller's notice"),
    }
    assert!(matches!(step.sends[2], Outgoing::HelloAck { to: 10, .. }));
    assert!(state.session_if_valid(&first, &token, &at(1300)).is_none());
}

#[test]
fn detached_commands_go_to_the_session_host() {
    let mut state = online();
    let (session_id, token) = open_session(&mut state, "r1", 5, false, 1000);
    let job = state
        .command_start(Some("job".to_owned()), Some(session_id.clone()), "exec", token.clone(), 5, &at(1100))
        .ok()
        .unwrap();
    assert_eq!(job.forward.host_tx, 9);
    assert_eq!(job.forward.session.host_id, "host-1");
    assert_eq!(job.forward.session.connection_id, "conn-1");
}
