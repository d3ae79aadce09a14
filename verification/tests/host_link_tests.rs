use rcw::audit::AuditCategory;
use rcw::host::HostContext;
use rcw::host_link::{classify_server_message, ServerMessageKind};
use rcw::host_state::{HostEventKind, HostPowerSnapshot, HostStateMetadata, HostTotpSnapshot};
use rcw::protocol::{ErrorCode, HostAuthRequestPayload, HostSessionClosedPayload, HostSessionOpenedPayload};
use rcw::state_handle::HostStateHandle;
use rcw::totp::current_code;

fn context() -> HostContext {
    let state = HostStateHandle::new(HostStateMetadata {
        server_url: "http://127.0.0.1:3000".to_owned(),
        machine_id: "machine".to_owned(),
        host_id: "host".to_owned(),
        totp_period_seconds: 30,
        audit_path: "audit.jsonl".to_owned(),
        power: HostPowerSnapshot { active: false, warning: None },
    });
    HostContext {
        server_url: "http://127.0.0.1:3000".to_owned(),
        host_id: "host".to_owned(),
        machine_id: "machine".to_owned(),
        totp_seed: b"12345678901234567890".to_vec(),
        totp_period_seconds: 30,
        audit_path: "audit.jsonl".to_owned(),
        state,
    }
}

fn totp() -> HostTotpSnapshot {
    HostTotpSnapshot { current_code: "000000".to_owned(), period_seconds: 30, remaining_seconds: 30 }
}

#[test]
fn relay_frames_are_classified_by_type() {
    assert_eq!(classify_server_message("host.auth_request"), ServerMessageKind::AuthRequest);
    assert_eq!(classify_server_message("tunnel.stream_eof"), ServerMessageKind::TunnelStreamEof);
    assert_eq!(classify_server_message("command.cancel"), ServerMessageKind::CommandCancel);
    assert_eq!(classify_server_message("host.hello"), ServerMessageKind::Other);
}

#[test]
fn auth_request_with_current_code_is_accepted() {
    let mut ctx = context();
    let now = 59;
    let code = current_code(b"12345678901234567890", 30, now).unwrap();
    let answer = ctx.answer_auth_request(
        "req".to_owned(),
        HostAuthRequestPayload { totp: code, controller_label: "laptop".to_owned() },
        now,
    );
    assert!(answer.result.ok);
    assert_eq!(answer.result.code, None);
    assert_eq!(answer.event.kind, HostEventKind::AuthRequested);
    assert_eq!(answer.record.event, "session.auth");
    assert_eq!(answer.record.category, AuditCategory::Session);
    assert_eq!(answer.record.result.as_deref(), Some("ok"));
    assert_eq!(answer.record.controller_label.as_deref(), Some("laptop"));
}

#[test]
fn auth_request_with_code_of_an_earlier_window_is_accepted() {
    let mut ctx = context();
    let code = current_code(b"12345678901234567890", 30, 59).unwrap();
    let answer = ctx.answer_auth_request(
        "req".to_owned(),
        HostAuthRequestPayload { totp: code, controller_label: "laptop".to_owned() },
        89,
    );
    assert!(answer.result.ok);
}

#[test]
fn auth_request_with_bad_code_is_refused() {
    let mut ctx = context();
    let answer = ctx.answer_auth_request(
        "req".to_owned(),
        HostAuthRequestPayload { totp: "abcdef".to_owned(), controller_label: "laptop".to_owned() },
        59,
    );
    assert!(!answer.result.ok);
    assert_eq!(answer.result.code, Some(ErrorCode::InvalidTotp));
    assert_eq!(answer.result.message.as_deref(), Some(ErrorCode::InvalidTotp.message()));
    assert_eq!(answer.record.result.as_deref(), Some("failed"));
}

#[test]
fn session_open_then_close_updates_the_active_session() {
    let mut ctx = context();
    let mut active = None;
    let opened = ctx.on_session_opened(
        &mut active,
        Some("r1".to_owned()),
        HostSessionOpenedPayload { session_id: "sess".to_owned(), controller_label: "laptop".to_owned() },
    );
    assert_eq!(active.as_deref(), Some("sess"));
    assert_eq!(opened.record.event, "session.opened");
    assert_eq!(opened.record.session_id.as_deref(), Some("sess"));
    assert_eq!(ctx.state.snapshot(totp()).session.active_session_id.as_deref(), Some("sess"));

    let closed = ctx.on_session_closed(
        &mut active,
        None,
        HostSessionClosedPayload { session_id: "sess".to_owned(), reason: "controller_close".to_owned() },
    );
    assert_eq!(active, None);
    assert_eq!(closed.record.summary.as_deref(), Some("controller_close"));
    let snapshot = ctx.state.snapshot(totp());
    assert_eq!(snapshot.session.active_session_id, None);
    assert_eq!(snapshot.session.last_close_reason.as_deref(), Some("controller_close"));
}

#[test]
fn command_cancel_is_audited_under_the_command_category() {
    let mut ctx = context();
    let change = ctx.on_command_cancelled("req".to_owned(), Some("sess".to_owned()), "exec".to_owned());
    assert_eq!(change.event.kind, HostEventKind::CommandCancelRequested);
    assert_eq!(change.record.event, "command.cancel");
    assert_eq!(change.record.category, AuditCategory::Exec);
    assert_eq!(change.record.task_id.as_deref(), Some("req"));
    assert_eq!(change.record.command.as_deref(), Some("exec"));
    assert_eq!(change.record.result.as_deref(), Some("requested"));

    let upload = ctx.on_upload_cancelled("up".to_owned(), None, true);
    assert_eq!(upload.record.category, AuditCategory::Transfer);
    assert_eq!(upload.record.result.as_deref(), Some("host_requested"));
}

#[test]
fn disconnect_is_recorded_with_the_active_session() {
    let mut ctx = context();
    let change = ctx.on_disconnected(Some("sess".to_owned()));
    assert_eq!(change.event.kind, HostEventKind::HostDisconnected);
    assert_eq!(change.record.event, "host.disconnected");
    assert_eq!(change.record.session_id.as_deref(), Some("sess"));
    assert_eq!(change.record.category, AuditCategory::Host);
}
