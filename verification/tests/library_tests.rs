use rcw::config::{
    bind_addr, control_token, join_endpoint_path, parse_u64, resolve_server_url, resolve_totp_period_seconds,
    validate_totp_period, websocket_scheme, ws_endpoint_url, DEFAULT_BIND_ADDR, DEFAULT_TOTP_PERIOD_SECONDS,
};
use rcw::error::RcwError;
use rcw::host::{reconnect_after, seconds_until_next_totp_tick};
use rcw::host_state::HostListenerStatus;
use rcw::ids::{new_request_id, short_machine_id, token_label};
use rcw::relay::{is_loopback_name, is_unclean_disconnect, validate_tunnel_open_payload};
use rcw::protocol::{ErrorCode, TunnelDirection, TunnelOpenPayload};
use rcw::totp::{code_from_tag, hotp};
use rcw::transfer::{chunk_binary, sha256_bytes, total_sequences_for_len, BinaryFrame, BinaryKind};

#[test]
fn classifies_common_unclean_disconnects() {
    assert!(is_unclean_disconnect("WebSocket protocol error: Connection reset without closing handshake"));
    assert!(is_unclean_disconnect("IO error: Connection reset by peer (os error 104)"));
    assert!(!is_unclean_disconnect("WebSocket protocol error: invalid frame header"));
}

#[test]
fn hotp_matches_the_published_test_vectors() {
    let seed = b"12345678901234567890";
    assert_eq!(hotp(seed, 0, 6), "755224");
    assert_eq!(hotp(seed, 1, 6), "287082");
    assert_eq!(hotp(seed, 9, 6), "520489");
}

#[test]
fn sha256_of_abc_is_the_standard_digest() {
    assert_eq!(sha256_bytes(b"abc"), "ba7816bf8f01cfea414140de5dae2223b00361a396177a9cb410ff61f20015ad");
    assert_eq!(short_machine_id(b"abc"), "C9CF-BEC0-50FE");
    assert_eq!(token_label("super-secret-token"), "token:599a7f35");
}

#[test]
fn config_values_resolve_in_priority_order() {
    assert_eq!(resolve_server_url(Some("  "), Some(" https://env "), Some("https://baked")).unwrap(), "https://env");
    assert_eq!(resolve_server_url(None, None, Some("https://baked")).unwrap(), "https://baked");
    assert!(matches!(resolve_server_url(None, Some(" "), None), Err(RcwError::MissingConfig(_))));
    assert_eq!(resolve_totp_period_seconds(None, None, None).unwrap(), DEFAULT_TOTP_PERIOD_SECONDS);
    assert_eq!(resolve_totp_period_seconds(None, Some(" 30 "), Some(60)).unwrap(), 30);
    assert!(matches!(resolve_totp_period_seconds(Some(0), None, None), Err(RcwError::InvalidConfig(_))));
    assert!(matches!(control_token(None, None), Err(RcwError::MissingConfig(_))));
    assert_eq!(control_token(None, Some("tok")).unwrap(), "tok");
    assert_eq!(bind_addr(Some("  ")), DEFAULT_BIND_ADDR);
}

#[test]
fn config_errors_name_the_bad_value() {
    match parse_u64("12x") {
        Err(RcwError::InvalidConfig(m)) => assert_eq!(m, "expected positive integer, got \"12x\""),
        other => panic!("unexpected {other:?}"),
    }
    match validate_totp_period(0) {
        Err(RcwError::InvalidConfig(m)) => assert_eq!(m, "TOTP period must be greater than zero"),
        other => panic!("unexpected {other:?}"),
    }
    match websocket_scheme("ftp") {
        Err(RcwError::InvalidConfig(m)) => assert_eq!(m, "unsupported server URL scheme: ftp"),
        other => panic!("unexpected {other:?}"),
    }
    assert_eq!(websocket_scheme("http").unwrap(), "ws");
    assert_eq!(join_endpoint_path("/", "/ws/host"), "/ws/host");
    assert_eq!(ws_endpoint_url("http://localhost:7800", "ws/control").unwrap(), "ws://localhost:7800/ws/control");
}

#[test]
fn websocket_urls_drop_the_query_and_refuse_other_schemes() {
    assert_eq!(
        ws_endpoint_url("https://example.com/base/?x=1", "/ws/host").unwrap(),
        "wss://example.com/base/ws/host"
    );
    match ws_endpoint_url("ftp://example.com", "/ws/host") {
        Err(RcwError::InvalidConfig(m)) => assert_eq!(m, "unsupported server URL scheme: ftp"),
        other => panic!("unexpected {other:?}"),
    }
    match ws_endpoint_url("example.com", "/ws/host") {
        Err(RcwError::Url(m)) => assert_eq!(m, "relative URL without a base"),
        other => panic!("unexpected {other:?}"),
    }
}

#[test]
fn frame_counts_round_up_to_whole_chunks() {
    assert_eq!(total_sequences_for_len(0).unwrap(), 1);
    assert_eq!(total_sequences_for_len(65536).unwrap(), 1);
    assert_eq!(total_sequences_for_len(65537).unwrap(), 2);
}

#[test]
fn chunked_frames_decode_back_to_the_data() {
    let id = new_request_id();
    let data: Vec<u8> = (0..70000u32).map(|i| (i % 251) as u8).collect();
    let frames = chunk_binary(&id, BinaryKind::UploadChunk, &data).unwrap();
    assert_eq!(frames.len(), 2);
    let mut joined = Vec::new();
    for (i, f) in frames.iter().enumerate() {
        let frame = BinaryFrame::decode(f).unwrap();
        assert_eq!(frame.kind, BinaryKind::UploadChunk);
        assert_eq!(frame.request_id, id);
        assert_eq!(frame.sequence as usize, i);
        assert_eq!(frame.total_sequences, 2);
        assert_eq!(frame.encode().unwrap(), *f);
        joined.extend_from_slice(&frame.payload);
    }
    assert_eq!(joined, data);
}

#[test]
fn frames_with_an_unknown_kind_are_refused() {
    let id = new_request_id();
    let mut bytes = chunk_binary(&id, BinaryKind::DownloadChunk, b"x").unwrap().remove(0);
    bytes[0] = 9;
    match BinaryFrame::decode(&bytes) {
        Err(RcwError::Protocol(m)) => assert_eq!(m, "unsupported binary frame kind: 9"),
        other => panic!("unexpected {other:?}"),
    }
}

#[test]
fn ulid_text_round_trips() {
    let id = new_request_id();
    let frames = chunk_binary(&id, BinaryKind::UploadChunk, b"abc").unwrap();
    let frame = BinaryFrame::decode(&frames[0]).unwrap();
    assert_eq!(frame.request_id, id);
    assert_eq!(frame.payload, b"abc".to_vec());
    assert!(chunk_binary("not-a-ulid", BinaryKind::UploadChunk, b"abc").is_err());
}

#[test]
fn token_labels_do_not_reveal_the_token() {
    let label = token_label("super-secret-token");
    assert!(!label.contains("super-secret-token"));
    assert_eq!(label, token_label("super-secret-token"));
    assert!(label.starts_with("token:"));
    assert_eq!(label.len(), "token:".len() + 8);
}

fn tunnel(listen: &str, target: &str, port: u16) -> TunnelOpenPayload {
    TunnelOpenPayload {
        session_token: "t".to_owned(),
        tunnel_id: None,
        direction: TunnelDirection::Local,
        listen_addr: listen.to_owned(),
        listen_port: port,
        target_host: target.to_owned(),
        target_port: 80,
        idle_timeout_ms: 1000,
        allow_non_loopback_listen: false,
        allow_non_loopback_target: false,
    }
}

#[test]
fn tunnels_must_stay_on_loopback_unless_allowed() {
    assert!(is_loopback_name("localhost"));
    assert!(is_loopback_name("127.0.0.1"));
    assert!(!is_loopback_name("10.0.0.1"));
    assert!(validate_tunnel_open_payload(&tunnel("127.0.0.1", "localhost", 8080)).is_ok());
    let err = validate_tunnel_open_payload(&tunnel("0.0.0.0", "localhost", 8080)).unwrap_err();
    assert_eq!(err.code, ErrorCode::PermissionDenied);
    assert_eq!(err.message, "tunnel listen address must be loopback unless explicitly allowed");
    let err = validate_tunnel_open_payload(&tunnel("127.0.0.1", "example.com", 8080)).unwrap_err();
    assert_eq!(err.message, "tunnel target host must be loopback unless explicitly allowed");
}

#[test]
fn reconnect_after_a_failure_reports_the_error() {
    let (status, reason, _) = reconnect_after(Err("boom".to_owned()));
    assert_eq!(status, HostListenerStatus::Reconnecting);
    assert_eq!(reason.as_deref(), Some("boom"));
    assert_eq!(seconds_until_next_totp_tick(120, 1000), 80);
}

#[test]
fn tags_truncate_to_the_published_codes() {
    assert_eq!(code_from_tag(&[0xcc, 0x93, 0xcf, 0x18, 0x50, 0x8d, 0x94, 0x93, 0x4c, 0x64, 0xb6, 0x5d, 0x8b, 0xa7, 0x66, 0x7f, 0xb7, 0xcd, 0xe4, 0xb0], 6), "755224");
    assert_eq!(code_from_tag(&[0x75, 0xa4, 0x8a, 0x19, 0xd4, 0xcb, 0xe1, 0x00, 0x64, 0x4e, 0x8a, 0xc1, 0x39, 0x7e, 0xea, 0x74, 0x7a, 0x2d, 0x33, 0xab], 6), "287082");
    assert_eq!(code_from_tag(&[0x1f, 0x86, 0x98, 0x69, 0x0e, 0x02, 0xca, 0x16, 0x61, 0x85, 0x50, 0xef, 0x7f, 0x19, 0xda, 0x8e, 0x94, 0x5b, 0x55, 0x5a], 6), "872921");
    assert_eq!(code_from_tag(&[0x1f, 0x86, 0x98, 0x69, 0x0e, 0x02, 0xca, 0x16, 0x61, 0x85, 0x50, 0xef, 0x7f, 0x19, 0xda, 0x8e, 0x94, 0x5b, 0x55, 0x5a], 9), "357872921");
}

#[test]
fn decoded_frames_encode_back_to_their_bytes() {
    let id = new_request_id();
    let bytes = chunk_binary(&id, BinaryKind::DownloadChunk, b"payload").unwrap().remove(0);
    let frame = BinaryFrame::decode(&bytes).unwrap();
    assert_eq!(frame.encode().unwrap(), bytes);
    assert_eq!(bytes.len(), 29 + 7);
}
