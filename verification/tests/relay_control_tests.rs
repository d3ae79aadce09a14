use rcw::protocol::{
    CommandCancelPayload, CommandStatusPayload, ErrorCode, SessionClosePayload, SessionStatusPayload, TunnelClosePayload,
    TunnelDirection, TunnelStatus, TunnelStatusPayload,
};
use rcw::server_state::{Clock, CreateTunnel, ServerState};

fn at(ms: u64) -> Clock {
    Clock { ms, text: "2026-01-01T00:00:00Z".to_owned() }
}

fn with_session() -> ServerState {
    let mut state = ServerState::new();
    state.register_host("host-1".to_owned(), "ABCD".to_owned(), "conn-1".to_owned(), 9, 120);
    state.create_session(
        "sess".to_owned(),
        "tok".to_owned(),
        "host-1".to_owned(),
        "ABCD".to_owned(),
        "conn-1".to_owned(),
        3,
        &at(1000),
    );
    state
}

#[test]
fn session_status_reports_host_presence() {
    let mut state = with_session();
    let missing = state.session_status(None, Ok(SessionStatusPayload { session_token: "tok".to_owned() }), &at(2000));
    let e = missing.err().unwrap();
    assert_eq!(e.code, ErrorCode::SessionExpired);
    assert_eq!(e.message, "missing session_id");

    let bad = state.session_status(Some("sess".to_owned()), Err("expected value".to_owned()), &at(2000));
    assert_eq!(bad.err().unwrap().message, "invalid session.status payload: expected value");

    let wrong = state.session_status(
        Some("sess".to_owned()),
        Ok(SessionStatusPayload { session_token: "nope".to_owned() }),
        &at(2000),
    );
    assert_eq!(wrong.err().unwrap().message, "session is expired or invalid");

    let ok = state
        .session_status(Some("sess".to_owned()), Ok(SessionStatusPayload { session_token: "tok".to_owned() }), &at(2000))
        .unwrap();
    assert!(ok.payload.host_online);
    assert!(ok.payload.session_active);
    assert_eq!(ok.payload.machine_id, "ABCD");

    state.register_host("host-1".to_owned(), "ABCD".to_owned(), "conn-2".to_owned(), 10, 120);
    let stale = state
        .session_status(Some("sess".to_owned()), Ok(SessionStatusPayload { session_token: "tok".to_owned() }), &at(3000))
        .unwrap();
    assert!(!stale.payload.host_online);
}

#[test]
fn session_close_tells_the_host_and_audits() {
    let mut state = with_session();
    let reply = state
        .session_close(
            Some("req".to_owned()),
            Some("sess".to_owned()),
            Ok(SessionClosePayload { session_token: "tok".to_owned() }),
            &at(2000),
        )
        .unwrap();
    assert_eq!(reply.host_tx, Some(9));
    assert_eq!(reply.notice.reason, "controller_close");
    assert_eq!(reply.result.session_id, "sess");
    assert_eq!(reply.audit.event, "session.closed");
    assert_eq!(reply.audit.request_id.as_deref(), Some("req"));
    let again = state.session_close(
        Some("req".to_owned()),
        Some("sess".to_owned()),
        Ok(SessionClosePayload { session_token: "tok".to_owned() }),
        &at(2000),
    );
    assert_eq!(again.err().unwrap().code, ErrorCode::SessionExpired);
}

#[test]
fn command_cancel_needs_a_route() {
    let mut state = with_session();
    let no_id = state.command_cancel(None, None, Ok(CommandCancelPayload { session_token: "tok".to_owned() }), &at(2000));
    assert_eq!(no_id.err().unwrap().message, "command.cancel requires request_id");
    let no_route = state.command_cancel(
        Some("req-9".to_owned()),
        Some("sess".to_owned()),
        Ok(CommandCancelPayload { session_token: "tok".to_owned() }),
        &at(2000),
    );
    assert_eq!(no_route.err().unwrap().message, "command.cancel has no active request route");

    let session = state.session_if_valid("sess", "tok", &at(2000)).unwrap();
    state.track_request_route("req-1".to_owned(), &session, 3, &at(2000));
    let fwd = state
        .command_cancel(
            Some("req-1".to_owned()),
            Some("sess".to_owned()),
            Ok(CommandCancelPayload { session_token: "tok".to_owned() }),
            &at(2000),
        )
        .unwrap();
    assert_eq!(fwd.host_tx, 9);
    assert_eq!(fwd.session_id, "sess");
}

#[test]
fn command_status_requires_a_known_job() {
    let state = with_session();
    let e = state
        .command_status(
            Some("sess".to_owned()),
            Ok(CommandStatusPayload { session_token: "tok".to_owned(), task_id: "task".to_owned() }),
        )
        .err()
        .unwrap();
    assert_eq!(e.code, ErrorCode::SessionExpired);
    assert_eq!(e.message, "command.status has no active exec job");
}

#[test]
fn tunnels_are_listed_and_closed_by_their_session() {
    let mut state = with_session();
    let session = state.session_if_valid("sess", "tok", &at(2000)).unwrap();
    state
        .create_tunnel(
            CreateTunnel {
                tunnel_id: "tun-1".to_owned(),
                session,
                direction: TunnelDirection::Local,
                listen_addr: "127.0.0.1".to_owned(),
                listen_port: 8080,
                target_host: "127.0.0.1".to_owned(),
                target_port: 80,
                idle_timeout_ms: 1000,
            },
            &at(2000),
        )
        .unwrap();
    let listed = state
        .tunnel_status(
            Some("sess".to_owned()),
            Ok(TunnelStatusPayload { session_token: "tok".to_owned(), tunnel_id: None }),
            &at(2500),
        )
        .unwrap();
    assert_eq!(listed.len(), 1);
    assert_eq!(listed[0].tunnel_id, "tun-1");

    let refused = state.tunnel_close(
        Some("sess".to_owned()),
        Ok(TunnelClosePayload { session_token: "nope".to_owned(), tunnel_id: "tun-1".to_owned() }),
        &at(3000),
    );
    assert_eq!(refused.err().unwrap().message, "tunnel is not active");

    let closed = state
        .tunnel_close(
            Some("sess".to_owned()),
            Ok(TunnelClosePayload { session_token: "tok".to_owned(), tunnel_id: "tun-1".to_owned() }),
            &at(3000),
        )
        .unwrap();
    assert_eq!(closed.tunnel.status, TunnelStatus::Closed);
    assert_eq!(closed.tunnel.close_reason.as_deref(), Some("controller_close"));
    assert_eq!(closed.host_tx, Some(9));
    let after = state
        .tunnel_status(
            Some("sess".to_owned()),
            Ok(TunnelStatusPayload { session_token: "tok".to_owned(), tunnel_id: None }),
            &at(3500),
        )
        .unwrap();
    assert!(after.is_empty());
}
