use rcw::audit::AuditCategory;
use rcw::host_audit::host_audit_record;
use rcw::host_tasks::{download_completion, exec_completion};
use rcw::host_tunnels::{closed_tunnel_info, direction_name, plan_host_tunnel_open, HostTunnelOpen};
use rcw::keys::{
    escape_sendkeys_text, key_press_events, modifier_key, named_key, sendkeys_key_expression, utf16_units, KeyInput,
};
use rcw::protocol::{ErrorCode, TunnelDirection, TunnelOpenPayload, TunnelStatus, UploadArgs};
use rcw::uploads::{begin_upload, finish_upload, UPLOAD_IDLE_TIMEOUT_MS};

fn upload_args(path: &str, size: u64) -> UploadArgs {
    UploadArgs { remote_path: path.to_owned(), overwrite: false, sha256: "abc".to_owned(), size }
}

#[test]
fn uploads_need_an_id_and_a_path() {
    assert_eq!(begin_upload(None, None, upload_args("C:\\x", 1), 0).err().unwrap(), "upload command missing request_id");
    assert_eq!(begin_upload(Some("r".to_owned()), None, upload_args("  ", 1), 0).err().unwrap(), "empty upload path");
    let (id, p) = begin_upload(Some("r".to_owned()), Some("s".to_owned()), upload_args("C:\\x", 70000), 5).unwrap();
    assert_eq!(id, "r");
    assert_eq!(p.total_sequences, 2);
    assert_eq!(p.next_sequence, 0);
    assert_eq!(p.last_activity, 5);
}

#[test]
fn upload_chunks_are_accepted_only_in_order() {
    let (_, mut p) = begin_upload(Some("r".to_owned()), Some("s".to_owned()), upload_args("C:\\x", 70000), 0).unwrap();
    let err = p.check_chunk(1, 2).err().unwrap();
    assert_eq!(err.code, ErrorCode::InternalError);
    assert_eq!(err.message, "upload chunk sequence mismatch: expected 0, got 1");
    assert_eq!(err.session_id.as_deref(), Some("s"));
    let err = p.check_chunk(0, 3).err().unwrap();
    assert_eq!(err.message, "upload chunk total sequence mismatch: expected 2, got 3");

    assert!(p.check_chunk(0, 2).is_ok());
    assert!(!p.record_chunk(0, 2, 65536, 10));
    assert!(p.check_chunk(1, 2).is_ok());
    assert!(p.record_chunk(1, 2, 4464, 20));
    assert!(p.is_complete());
    assert_eq!(p.bytes_written, 70000);
    assert!(p.belongs_to("s"));
    assert!(!p.belongs_to("t"));
    assert!(!p.is_idle(20 + UPLOAD_IDLE_TIMEOUT_MS));
    assert!(p.is_idle(21 + UPLOAD_IDLE_TIMEOUT_MS));
}

#[test]
fn finished_uploads_are_checked_for_size_then_hash() {
    let (_, mut p) = begin_upload(Some("r".to_owned()), None, upload_args("C:\\out.bin", 3), 0).unwrap();
    let early = finish_upload(&p, "abc".to_owned()).err().unwrap();
    assert_eq!(early.code, ErrorCode::ChecksumMismatch);
    assert_eq!(early.message, "upload size mismatch");
    p.record_chunk(0, 1, 3, 1);
    let wrong = finish_upload(&p, "def".to_owned()).err().unwrap();
    assert_eq!(wrong.message, "checksum mismatch");
    let done = finish_upload(&p, "abc".to_owned()).unwrap();
    assert!(done.ok);
    assert_eq!(done.size, Some(3));
    assert_eq!(done.summary.as_deref(), Some("wrote C:\\out.bin"));
}

fn tunnel(direction: TunnelDirection, port: u16) -> TunnelOpenPayload {
    TunnelOpenPayload {
        session_token: "t".to_owned(),
        tunnel_id: Some("tun".to_owned()),
        direction,
        listen_addr: "127.0.0.1".to_owned(),
        listen_port: port,
        target_host: "localhost".to_owned(),
        target_port: 22,
        idle_timeout_ms: 1000,
        allow_non_loopback_listen: false,
        allow_non_loopback_target: false,
    }
}

#[test]
fn host_tunnel_open_decisions() {
    let now = "2026-01-01T00:00:00Z".to_owned();
    match plan_host_tunnel_open(None, Some("s".to_owned()), &tunnel(TunnelDirection::Local, 1), now.clone()) {
        HostTunnelOpen::Refused { code, message } => {
            assert_eq!(code, ErrorCode::InternalError);
            assert_eq!(message, "tunnel.open missing tunnel_id");
        }
        _ => panic!("expected a refusal"),
    }
    match plan_host_tunnel_open(Some("tun".to_owned()), Some("s".to_owned()), &tunnel(TunnelDirection::Remote, 0), now.clone()) {
        HostTunnelOpen::Failed(info) => {
            assert_eq!(info.status, TunnelStatus::Failed);
            assert_eq!(info.close_reason.as_deref(), Some("remote tunnel listen_port must be non-zero"));
        }
        _ => panic!("expected a failure"),
    }
    match plan_host_tunnel_open(Some("tun".to_owned()), None, &tunnel(TunnelDirection::Local, 8080), now.clone()) {
        HostTunnelOpen::Failed(info) => {
            assert_eq!(info.session_id, "");
            assert_eq!(info.close_reason.as_deref(), Some("tunnel.open missing session_id"));
        }
        _ => panic!("expected a failure"),
    }
    match plan_host_tunnel_open(Some("tun".to_owned()), Some("s".to_owned()), &tunnel(TunnelDirection::Remote, 8080), now.clone()) {
        HostTunnelOpen::Listen { info, bind_addr } => {
            assert_eq!(bind_addr, "127.0.0.1:8080");
            assert_eq!(info.status, TunnelStatus::Active);
            assert_eq!(info.opened_at, now);
        }
        _ => panic!("expected a listener"),
    }
    match plan_host_tunnel_open(Some("tun".to_owned()), Some("s".to_owned()), &tunnel(TunnelDirection::Local, 8080), now.clone()) {
        HostTunnelOpen::Active(info) => assert_eq!(info.session_id, "s"),
        _ => panic!("expected an active tunnel"),
    }
    assert_eq!(direction_name(TunnelDirection::Remote), "Remote");
    let closed = closed_tunnel_info("tun".to_owned(), None, now);
    assert_eq!(closed.status, TunnelStatus::Closed);
    assert_eq!(closed.close_reason.as_deref(), Some("controller_close"));
}

#[test]
fn sendkeys_text_is_escaped() {
    assert_eq!(escape_sendkeys_text("a+b (c) {d} ~%^[x]"), "a{+}b {(}c{)} {{}d{}} {~}{%}{^}{[}x{]}");
}

#[test]
fn sendkeys_key_expressions() {
    assert_eq!(sendkeys_key_expression("Ctrl+Shift+T"), "^+t");
    assert_eq!(sendkeys_key_expression("alt + F4"), "%{F4}");
    assert_eq!(sendkeys_key_expression("Enter"), "{ENTER}");
    assert_eq!(sendkeys_key_expression("super+esc"), "{ESC}");
}

#[test]
fn virtual_key_codes() {
    assert_eq!(modifier_key("CTRL").unwrap(), 0x11);
    assert_eq!(modifier_key("meta").err().unwrap(), "unsupported modifier key: meta");
    assert_eq!(named_key("PgDn").unwrap(), 0x22);
    assert_eq!(named_key("a").unwrap(), 0x41);
    assert_eq!(named_key("F13").err().unwrap(), "unsupported key: f13");
}

#[test]
fn key_combinations_release_modifiers_in_reverse() {
    let (events, error) = key_press_events("ctrl+shift+a");
    assert!(error.is_none());
    assert_eq!(
        events,
        vec![
            KeyInput { vk: 0x11, key_up: false },
            KeyInput { vk: 0x10, key_up: false },
            KeyInput { vk: 0x41, key_up: false },
            KeyInput { vk: 0x41, key_up: true },
            KeyInput { vk: 0x10, key_up: true },
            KeyInput { vk: 0x11, key_up: true },
        ]
    );
    let (events, error) = key_press_events("ctrl+hyper+a");
    assert_eq!(events, vec![KeyInput { vk: 0x11, key_up: false }]);
    assert_eq!(error.as_deref(), Some("unsupported modifier key: hyper"));
}

#[test]
fn typing_uses_utf16_code_units() {
    assert_eq!(utf16_units("a\u{e9}\u{1F600}"), "a\u{e9}\u{1F600}".encode_utf16().collect::<Vec<u16>>());
}

#[test]
fn only_png_screenshots_are_taken() {
    assert!(rcw::host_tasks::check_screenshot_format("png").is_ok());
    assert_eq!(
        rcw::host_tasks::check_screenshot_format("jpeg").err().unwrap(),
        "only png screenshots are supported"
    );
}

#[test]
fn host_audit_records_take_the_command_category_first() {
    let connected = host_audit_record("host.connected", None, None, None, Some("ok"));
    assert_eq!(connected.category, AuditCategory::Host);
    assert_eq!(connected.result.as_deref(), Some("ok"));
    let upload = host_audit_record(
        "command.started",
        Some("r".to_owned()),
        Some("s".to_owned()),
        Some("upload.begin".to_owned()),
        Some("started"),
    );
    assert_eq!(upload.category, AuditCategory::Transfer);
    assert_eq!(upload.command_kind.as_deref(), Some("upload.begin"));
    let closed = host_audit_record("tunnel.closed", None, None, None, None);
    assert_eq!(closed.category, AuditCategory::Tunnel);
    assert_eq!(closed.result, None);
}

#[test]
fn completions_report_exit_status_and_downloads() {
    let done = exec_completion(false, Some(2), 15, "/bin/false");
    assert!(!done.ok);
    assert_eq!(done.exit_code, Some(2));
    assert_eq!(done.summary.as_deref(), Some("program=/bin/false"));
    let sent = download_completion(3, "abc".to_owned(), "C:\\data\\report.txt");
    assert!(sent.ok);
    assert_eq!(sent.size, Some(3));
    assert_eq!(sent.summary.as_deref(), Some("read basename=report.txt"));
}
