use rcw::protocol::{
    CommandOutputPayload, ErrorCode, TunnelDirection, TunnelStatus, TunnelStreamControlPayload, TunnelStreamOpenPayload,
    TunnelStreamOpenResultPayload,
};
use rcw::relay_host::{host_gone_reports, HostResponse};
use rcw::relay_streams::HostStreamOpen;
use rcw::server_state::{Clock, CreateExecJob, CreateTunnel, ServerState, SESSION_IDLE_TTL_MS};

fn at(ms: u64) -> Clock {
    Clock { ms, text: "2026-01-01T00:00:00Z".to_owned() }
}

fn with_session() -> ServerState {
    let mut state = ServerState::new();
    state.register_host("host-1".to_owned(), "ABCD".to_owned(), "conn-1".to_owned(), 9, 120);
    state.create_session(
        "sess".to_owned(),
        "tok".to_owned(),
        "host-1".to_owned(),
        "ABCD".to_owned(),
        "conn-1".to_owned(),
        3,
        &at(1000),
    );
    state
}

fn output(data: &str) -> HostResponse {
    HostResponse::Output(Some(CommandOutputPayload { stream: "stdout".to_owned(), data: data.to_owned() }))
}

#[test]
fn host_responses_go_to_the_request_controller() {
    let mut state = with_session();
    let session = state.session_if_valid("sess", "tok", &at(1000)).unwrap();
    state.track_request_route("req".to_owned(), &session, 4, &at(1000));

    let to = state.host_response(output("hi"), Some("req".to_owned()), Some("sess".to_owned()), "host-1", "conn-1", &at(1100));
    assert_eq!(to, Some(4));
    assert!(state.request_route("req").is_some());

    let to = state.host_response(HostResponse::Complete(None), Some("req".to_owned()), Some("sess".to_owned()), "host-1", "conn-1", &at(1200));
    assert_eq!(to, Some(4));
    assert!(state.request_route("req").is_none());

    let to = state.host_response(output("late"), Some("req".to_owned()), Some("sess".to_owned()), "host-1", "conn-1", &at(1300));
    assert_eq!(to, Some(3));
    assert_eq!(state.host_response(output("x"), None, None, "host-1", "conn-1", &at(1300)), None);
}

#[test]
fn detached_job_output_is_captured_not_forwarded() {
    let mut state = with_session();
    let session = state.session_if_valid("sess", "tok", &at(1000)).unwrap();
    state.create_exec_job(
        CreateExecJob {
            task_id: "task".to_owned(),
            host_id: "host-1".to_owned(),
            connection_id: "conn-1".to_owned(),
            session_id: "sess".to_owned(),
            session_token: "tok".to_owned(),
            started_at: "t0".to_owned(),
        },
        &at(1000),
    );
    state.track_detached_request_route("task".to_owned(), &session, 4, &at(1000));
    let to = state.host_response(output("hello"), Some("task".to_owned()), Some("sess".to_owned()), "host-1", "conn-1", &at(1100));
    assert_eq!(to, None);
    let snapshot = state.exec_job_if_valid("task", "tok").unwrap();
    assert_eq!(snapshot.stdout, "hello");
}

#[test]
fn tunnel_answers_update_the_relay_record() {
    let mut state = with_session();
    let session = state.session_if_valid("sess", "tok", &at(1000)).unwrap();
    let info = state
        .create_tunnel(
            CreateTunnel {
                tunnel_id: "tun".to_owned(),
                session,
                direction: TunnelDirection::Remote,
                listen_addr: "127.0.0.1".to_owned(),
                listen_port: 0,
                target_host: "127.0.0.1".to_owned(),
                target_port: 80,
                idle_timeout_ms: 1000,
            },
            &at(1000),
        )
        .unwrap();
    let mut reported = info;
    reported.listen_port = 40000;
    let reply = state.tunnel_open_result(true, reported, "host-1", "conn-1", &at(1100)).unwrap();
    assert_eq!(reply.to, 3);
    assert!(reply.ok);
    assert_eq!(reply.tunnel.status, TunnelStatus::Active);
    assert_eq!(reply.tunnel.listen_port, 40000);

    match state.host_stream_open(
        Some("sess".to_owned()),
        TunnelStreamOpenPayload { tunnel_id: "tun".to_owned(), stream_id: "s1".to_owned() },
        "host-1",
        "conn-1",
        &at(1200),
    ) {
        HostStreamOpen::Forward(to) => assert_eq!(to, 3),
        _ => panic!("expected the stream request to reach the controller"),
    }
    let refused = state.controller_stream_open(
        Some("sess".to_owned()),
        Ok(TunnelStreamOpenPayload { tunnel_id: "tun".to_owned(), stream_id: "s2".to_owned() }),
        &at(1200),
    );
    let e = refused.err().unwrap();
    assert_eq!(e.code, ErrorCode::PermissionDenied);
    assert_eq!(e.message, "tunnel stream opened from invalid side");

    let to = state
        .controller_stream_open_result(
            Some("sess".to_owned()),
            Ok(TunnelStreamOpenResultPayload { ok: true, tunnel_id: "tun".to_owned(), stream_id: "s1".to_owned() }),
            &at(1300),
        )
        .unwrap();
    assert_eq!(to, Some(9));
    let to = state.host_stream_end(
        false,
        TunnelStreamControlPayload { tunnel_id: "tun".to_owned(), stream_id: "s1".to_owned() },
        "host-1",
        "conn-1",
        &at(1400),
    );
    assert_eq!(to, Some(3));
    assert!(state.tunnel_stream("tun", "s1").is_some());
    let to = state
        .controller_stream_end(
            "tunnel.stream_eof",
            false,
            Some("sess".to_owned()),
            Ok(TunnelStreamControlPayload { tunnel_id: "tun".to_owned(), stream_id: "s1".to_owned() }),
            &at(1500),
        )
        .unwrap();
    assert_eq!(to, Some(9));
    assert!(state.tunnel_stream("tun", "s1").is_none());
}

#[test]
fn frames_need_a_live_route() {
    let mut state = with_session();
    let e = state.controller_frame_route("nope", &at(1000)).err().unwrap();
    assert_eq!(e.message, "binary frame has no active request route");
    let session = state.session_if_valid("sess", "tok", &at(1000)).unwrap();
    state.track_request_route("up".to_owned(), &session, 3, &at(1000));
    assert_eq!(state.controller_frame_route("up", &at(1100)).unwrap(), 9);
}

#[test]
fn a_departed_host_reports_lost_sessions() {
    let mut state = with_session();
    let removed = state.unregister_host("host-1", "conn-1", &at(2000));
    assert_eq!(removed.len(), 1);
    let reports = host_gone_reports(&removed, "host-1", "conn-1", "ABCD");
    assert_eq!(reports.lost.len(), 1);
    assert_eq!(reports.lost[0].to, 3);
    assert_eq!(reports.audits.len(), 2);
    assert_eq!(reports.audits[0].event, "session.closed");
    assert_eq!(reports.audits[1].summary.as_deref(), Some("host_id=host-1 connection_id=conn-1"));
}

#[test]
fn host_frames_follow_the_request_route() {
    let mut state = with_session();
    let session = state.session_if_valid("sess", "tok", &at(1000)).unwrap();
    state.track_request_route("down".to_owned(), &session, 4, &at(1000));
    assert_eq!(state.host_frame_route("down", "host-1", "conn-1"), Some(4));
    assert_eq!(state.host_frame_route("down", "host-1", "conn-2"), None);
    assert_eq!(state.host_frame_route("other", "host-1", "conn-1"), None);

    state.track_detached_request_route("job".to_owned(), &session, 4, &at(1000));
    assert_eq!(state.host_frame_route("job", "host-1", "conn-1"), Some(3));
}

#[test]
fn idle_sessions_are_reported_to_their_hosts() {
    let mut state = with_session();
    let expired = state.prune_stale(&at(1000 + SESSION_IDLE_TTL_MS + 1));
    assert_eq!(expired.len(), 1);
    let reports = state.idle_expiry_reports(&expired);
    assert_eq!(reports.notices.len(), 1);
    assert_eq!(reports.notices[0].to, 9);
    assert_eq!(reports.notices[0].payload.session_id, "sess");
    assert_eq!(reports.notices[0].payload.reason, "session_idle_timeout");
    assert_eq!(reports.audits.len(), 1);
    assert_eq!(reports.audits[0].event, "session.closed");
    assert_eq!(reports.audits[0].result.as_deref(), Some("closed"));
    assert_eq!(reports.audits[0].summary.as_deref(), Some("session idle timeout"));
}

#[test]
fn tunnel_data_follows_the_stream_and_is_counted() {
    let mut state = with_session();
    let session = state.session_if_valid("sess", "tok", &at(1000)).unwrap();
    let info = state
        .create_tunnel(
            CreateTunnel {
                tunnel_id: "tun".to_owned(),
                session,
                direction: TunnelDirection::Remote,
                listen_addr: "127.0.0.1".to_owned(),
                listen_port: 0,
                target_host: "127.0.0.1".to_owned(),
                target_port: 80,
                idle_timeout_ms: 1000,
            },
            &at(1000),
        )
        .unwrap();
    state.tunnel_open_result(true, info, "host-1", "conn-1", &at(1100)).unwrap();
    state.host_stream_open(
        Some("sess".to_owned()),
        TunnelStreamOpenPayload { tunnel_id: "tun".to_owned(), stream_id: "s1".to_owned() },
        "host-1",
        "conn-1",
        &at(1200),
    );

    assert_eq!(state.controller_tunnel_data("tun", "s1", 5, &at(1300)).unwrap(), 9);
    assert_eq!(state.host_tunnel_data("tun", "s1", 7, "host-1", "conn-1", &at(1300)), Some(3));
    assert_eq!(state.host_tunnel_data("tun", "s1", 7, "host-1", "conn-2", &at(1300)), None);
    let e = state.controller_tunnel_data("tun", "nope", 5, &at(1300)).err().unwrap();
    assert_eq!(e.code, ErrorCode::SessionExpired);
    assert_eq!(e.message, "tunnel data has no active stream route");
    let counted = state.tunnel_if_valid("tun", "tok", &at(1400)).unwrap();
    assert_eq!(counted.info.bytes_from_target, 5);
    assert_eq!(counted.info.bytes_from_listener, 14);
}
