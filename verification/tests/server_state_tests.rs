use rcw::protocol::{ErrorCode, ErrorPayload, TunnelDirection, MAX_CAPTURED_OUTPUT_BYTES};
use rcw::server_state::{
    append_limited_output, Clock, CreateTunnel, HostLookup, PendingOpen, ServerState, AUTH_ATTEMPT_LIMIT,
    MAX_TUNNELS_PER_SESSION, SESSION_IDLE_TTL_MS,
};

fn at(ms: u64) -> Clock {
    Clock { ms, text: "2026-01-01T00:00:00Z".to_owned() }
}

fn tx() -> u64 {
    7
}

#[test]
fn stale_host_unregister_does_not_remove_current_connection() {
    let mut state = ServerState::new();
    state.register_host("host-1".to_owned(), "ABCD-EFGH-IJKL".to_owned(), "conn-old".to_owned(), tx(), 120);
    state.register_host("host-1".to_owned(), "ABCD-EFGH-IJKL".to_owned(), "conn-new".to_owned(), tx(), 120);

    let removed = state.unregister_host("host-1", "conn-old", &at(1000));

    assert!(removed.is_empty());
    let current = state.host("host-1").unwrap();
    assert_eq!(current.connection_id, "conn-new");
}

#[test]
fn remove_sessions_for_host_respects_connection_id() {
    let mut state = ServerState::new();
    let now = at(1000);
    state.create_session(
        "session-old".to_owned(),
        "token-old".to_owned(),
        "host-1".to_owned(),
        "ABCD-EFGH-IJKL".to_owned(),
        "conn-old".to_owned(),
        tx(),
        &now,
    );
    state.create_session(
        "session-new".to_owned(),
        "token-new".to_owned(),
        "host-1".to_owned(),
        "ABCD-EFGH-IJKL".to_owned(),
        "conn-new".to_owned(),
        tx(),
        &now,
    );

    let removed = state.remove_sessions_for_host(
        "host-1",
        Some("conn-old"),
        ErrorPayload { code: ErrorCode::HostDisconnected, message: "old connection removed".to_owned() },
        &now,
    );

    assert_eq!(removed.len(), 1);
    assert_eq!(removed[0].session_id, "session-old");
    assert!(state.session_if_valid("session-old", "token-old", &now).is_none());
    assert!(state.session_if_valid("session-new", "token-new", &now).is_some());
}

#[test]
fn remove_session_for_host_requires_current_connection() {
    let mut state = ServerState::new();
    let now = at(1000);
    state.create_session(
        "session-1".to_owned(),
        "token-1".to_owned(),
        "host-1".to_owned(),
        "ABCD-EFGH-IJKL".to_owned(),
        "conn-new".to_owned(),
        tx(),
        &now,
    );

    let stale = state.remove_session_for_host(
        "session-1",
        "host-1",
        "conn-old",
        ErrorPayload { code: ErrorCode::Cancelled, message: "host requested close".to_owned() },
        &now,
    );
    assert!(stale.is_none());
    assert!(state.session_if_valid("session-1", "token-1", &now).is_some());

    let current = state.remove_session_for_host(
        "session-1",
        "host-1",
        "conn-new",
        ErrorPayload { code: ErrorCode::Cancelled, message: "host requested close".to_owned() },
        &now,
    );
    assert!(current.is_some());
    assert!(state.session_if_valid("session-1", "token-1", &now).is_none());
}

#[test]
fn machine_lookup_reports_ambiguous_short_ids() {
    let mut state = ServerState::new();
    state.register_host("host-1".to_owned(), "ABCD-EFGH-IJKL".to_owned(), "conn-1".to_owned(), tx(), 120);
    state.register_host("host-2".to_owned(), "ABCD-EFGH-IJKL".to_owned(), "conn-2".to_owned(), tx(), 120);

    match state.host_for_machine_id("ABCD-EFGH-IJKL") {
        HostLookup::Ambiguous(hosts) => assert_eq!(hosts.len(), 2),
        _ => panic!("expected ambiguous host lookup"),
    }
}

#[test]
fn host_lookup_by_id_ignores_short_id_collisions() {
    let mut state = ServerState::new();
    state.register_host("host-1".to_owned(), "ABCD-EFGH-IJKL".to_owned(), "conn-1".to_owned(), tx(), 120);
    state.register_host("host-2".to_owned(), "ABCD-EFGH-IJKL".to_owned(), "conn-2".to_owned(), tx(), 120);

    let host = state.host("host-2").unwrap();

    assert_eq!(host.host_id, "host-2");
    assert_eq!(host.machine_id, "ABCD-EFGH-IJKL");
    assert_eq!(host.connection_id, "conn-2");
}

fn pending(connection_id: &str, label: &str) -> PendingOpen {
    PendingOpen {
        host_id: "host-1".to_owned(),
        machine_id: "ABCD-EFGH-IJKL".to_owned(),
        connection_id: connection_id.to_owned(),
        controller_tx: tx(),
        controller_label: label.to_owned(),
        force_reconnect: false,
        created_at: 1000,
    }
}

#[test]
fn remove_pending_open_for_host_respects_connection_id() {
    let mut state = ServerState::new();
    state.insert_pending_open("req-old".to_owned(), pending("conn-old", "token:old"));
    state.insert_pending_open("req-new".to_owned(), pending("conn-new", "token:new"));

    let removed = state.remove_pending_open_for_host("host-1", Some("conn-old"));

    assert_eq!(removed.len(), 1);
    assert_eq!(removed[0].key, "req-old");
    assert!(state.take_pending_open("req-old").is_none());
    assert!(state.take_pending_open("req-new").is_some());
}

#[test]
fn append_limited_output_keeps_within_limit() {
    let mut target = String::new();
    let mut truncated = false;

    append_limited_output(&mut target, &mut truncated, "hello");

    assert_eq!(target, "hello");
    assert!(!truncated);
}

#[test]
fn session_idle_ttl_is_nonzero() {
    assert!(SESSION_IDLE_TTL_MS > 0);
    assert!(std::time::Instant::now().checked_add(std::time::Duration::from_millis(SESSION_IDLE_TTL_MS)).is_some());
}

#[test]
fn captured_output_stops_at_the_byte_limit_on_a_char_boundary() {
    let mut target = "a".repeat(MAX_CAPTURED_OUTPUT_BYTES - 1);
    let mut truncated = false;

    append_limited_output(&mut target, &mut truncated, "\u{e9}xyz");

    assert_eq!(target.len(), MAX_CAPTURED_OUTPUT_BYTES - 1);
    assert!(truncated);

    append_limited_output(&mut target, &mut truncated, "b");
    assert_eq!(target.len(), MAX_CAPTURED_OUTPUT_BYTES - 1);
}

#[test]
fn session_token_must_match() {
    let mut state = ServerState::new();
    let now = at(1000);
    state.create_session("s".to_owned(), "t".to_owned(), "h".to_owned(), "m".to_owned(), "c".to_owned(), tx(), &now);
    assert!(state.session_if_valid("s", "wrong", &now).is_none());
    assert!(state.session_if_valid("s", "t", &now).is_some());
}

#[test]
fn idle_sessions_expire_in_the_sweep() {
    let mut state = ServerState::new();
    state.create_session("s".to_owned(), "t".to_owned(), "h".to_owned(), "m".to_owned(), "c".to_owned(), tx(), &at(1000));
    assert!(state.prune_stale(&at(1000 + SESSION_IDLE_TTL_MS)).is_empty());
    let expired = state.prune_stale(&at(1000 + SESSION_IDLE_TTL_MS + 1));
    assert_eq!(expired.len(), 1);
    assert_eq!(expired[0].session_id, "s");
    assert!(state.session_if_valid("s", "t", &at(1000 + SESSION_IDLE_TTL_MS + 1)).is_none());
}

#[test]
fn auth_attempts_are_rate_limited_per_window() {
    let mut state = ServerState::new();
    let now = at(5000);
    for _ in 0..AUTH_ATTEMPT_LIMIT {
        assert!(state.allow_auth_attempt("ABCD", &now));
    }
    assert!(!state.allow_auth_attempt("ABCD", &now));
    assert!(state.allow_auth_attempt("OTHER", &now));
}

fn session_state(state: &mut ServerState, now: &Clock) -> rcw::server_state::SessionState {
    state.create_session("s".to_owned(), "t".to_owned(), "h".to_owned(), "m".to_owned(), "c".to_owned(), tx(), now);
    state.session_if_valid("s", "t", now).unwrap()
}

#[test]
fn tunnels_per_session_are_limited() {
    let mut state = ServerState::new();
    let now = at(1000);
    let session = session_state(&mut state, &now);
    for i in 0..MAX_TUNNELS_PER_SESSION {
        let created = state.create_tunnel(
            CreateTunnel {
                tunnel_id: format!("tun-{i}"),
                session: session.clone(),
                direction: TunnelDirection::Local,
                listen_addr: "127.0.0.1".to_owned(),
                listen_port: 8080,
                target_host: "127.0.0.1".to_owned(),
                target_port: 80,
                idle_timeout_ms: 1000,
            },
            &now,
        );
        assert!(created.is_ok());
    }
    let refused = state.create_tunnel(
        CreateTunnel {
            tunnel_id: "one-too-many".to_owned(),
            session: session.clone(),
            direction: TunnelDirection::Local,
            listen_addr: "127.0.0.1".to_owned(),
            listen_port: 8080,
            target_host: "127.0.0.1".to_owned(),
            target_port: 80,
            idle_timeout_ms: 1000,
        },
        &now,
    );
    match refused {
        Err(e) => {
            assert_eq!(e.code, ErrorCode::PermissionDenied);
            assert_eq!(e.message, "per-session tunnel limit exceeded");
        }
        Ok(_) => panic!("expected the tunnel limit to refuse"),
    }
}
