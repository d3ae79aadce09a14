use rcw::host_state::{
    HostEventKind, HostListenerStatus, HostPowerSnapshot, HostStateMetadata, HostTaskStatus, HostTotpSnapshot,
    HostTransferDirection, EVENT_HISTORY_LIMIT,
};
use rcw::state_handle::HostStateHandle;

fn state() -> HostStateHandle {
    HostStateHandle::new(HostStateMetadata {
        server_url: "http://127.0.0.1:3000".to_owned(),
        machine_id: "machine".to_owned(),
        host_id: "host".to_owned(),
        totp_period_seconds: 120,
        audit_path: "audit.jsonl".to_owned(),
        power: HostPowerSnapshot { active: true, warning: None },
    })
}

fn totp() -> HostTotpSnapshot {
    HostTotpSnapshot { current_code: "123456".to_owned(), period_seconds: 120, remaining_seconds: 42 }
}

#[test]
fn initial_snapshot_contains_static_host_fields() {
    let state = state();

    let snapshot = state.snapshot(totp());

    assert_eq!(snapshot.listener.status, HostListenerStatus::Stopped);
    assert_eq!(snapshot.server_url, "http://127.0.0.1:3000");
    assert_eq!(snapshot.machine_id, "machine");
    assert_eq!(snapshot.host_id, "host");
    assert_eq!(snapshot.totp.current_code, "123456");
    assert_eq!(snapshot.totp.remaining_seconds, 42);
    assert!(snapshot.commands.is_empty());
}

#[test]
fn subscriber_receives_connection_event() {
    let mut state = state();

    let event = state.record_connected();

    assert_eq!(event.kind, HostEventKind::HostConnected);
    assert_eq!(event.status.as_deref(), Some("connected"));
    assert_eq!(state.snapshot(totp()).listener.status, HostListenerStatus::Connected);
}

#[test]
fn session_open_close_updates_snapshot() {
    let mut state = state();

    state.record_session_opened("sess".to_owned(), "controller".to_owned());
    let snapshot = state.snapshot(totp());
    assert_eq!(snapshot.session.active_session_id.as_deref(), Some("sess"));
    assert_eq!(snapshot.session.controller_label.as_deref(), Some("controller"));

    state.record_session_closed("sess".to_owned(), "controller_close".to_owned());
    let snapshot = state.snapshot(totp());
    assert_eq!(snapshot.session.active_session_id, None);
    assert_eq!(snapshot.session.last_close_reason.as_deref(), Some("controller_close"));
}

#[test]
fn command_lifecycle_updates_snapshot_and_events() {
    let mut state = state();

    let started = state.record_command_started("req".to_owned(), Some("sess".to_owned()), "exec".to_owned());
    let completed = state.record_command_completed(
        "req".to_owned(),
        Some("sess".to_owned()),
        "exec".to_owned(),
        HostTaskStatus::Completed,
        12,
        "ok".to_owned(),
    );

    assert_eq!(started.kind, HostEventKind::CommandStarted);
    assert_eq!(completed.kind, HostEventKind::CommandCompleted);

    let snapshot = state.snapshot(totp());
    assert_eq!(snapshot.commands.len(), 1);
    assert_eq!(snapshot.commands[0].request_id, "req");
    assert_eq!(snapshot.commands[0].status, HostTaskStatus::Completed);
    assert_eq!(snapshot.commands[0].duration_ms, Some(12));
    assert_eq!(snapshot.events.len(), 2);
    assert_eq!(snapshot.events[0].kind, HostEventKind::CommandStarted);
    assert_eq!(snapshot.events[1].kind, HostEventKind::CommandCompleted);
}

#[test]
fn transfer_progress_updates_transfer_index() {
    let mut state = state();

    state.record_transfer_started("up".to_owned(), Some("sess".to_owned()), HostTransferDirection::Upload, Some(10));
    state.record_transfer_progress("up".to_owned(), Some("sess".to_owned()), 5);
    state.record_transfer_completed(
        "up".to_owned(),
        Some("sess".to_owned()),
        HostTaskStatus::Completed,
        Some(10),
        "ok".to_owned(),
    );

    let snapshot = state.snapshot(totp());
    assert_eq!(snapshot.transfers.len(), 1);
    assert_eq!(snapshot.transfers[0].bytes_transferred, 10);
    assert_eq!(snapshot.transfers[0].status, HostTaskStatus::Completed);
}

#[test]
fn closing_a_session_cancels_its_running_commands_only() {
    let mut state = state();
    state.record_session_opened("sess".to_owned(), "controller".to_owned());
    state.record_command_started("a".to_owned(), Some("sess".to_owned()), "exec".to_owned());
    state.record_command_started("b".to_owned(), Some("other".to_owned()), "exec".to_owned());

    state.record_session_closed("sess".to_owned(), "controller_close".to_owned());

    let snapshot = state.snapshot(totp());
    assert_eq!(snapshot.commands.len(), 2);
    assert_eq!(snapshot.commands[0].request_id, "a");
    assert_eq!(snapshot.commands[0].status, HostTaskStatus::Cancelled);
    assert_eq!(snapshot.commands[0].result.as_deref(), Some("session_closed"));
    assert_eq!(snapshot.commands[1].status, HostTaskStatus::Running);
}

#[test]
fn each_recorded_change_is_the_newest_event() {
    let mut state = state();
    let event = state.record_disconnected(Some("sess".to_owned()));
    let snapshot = state.snapshot(totp());
    let last = snapshot.events.last().unwrap();
    assert_eq!(last.kind, event.kind);
    assert_eq!(last.kind, HostEventKind::HostDisconnected);
    assert_eq!(last.time, event.time);
}

#[test]
fn event_log_keeps_only_the_most_recent_entries() {
    let mut state = state();
    for _ in 0..(EVENT_HISTORY_LIMIT + 5) {
        state.record_connected();
    }
    let snapshot = state.snapshot(totp());
    assert_eq!(snapshot.events.len(), EVENT_HISTORY_LIMIT);
}

#[test]
fn failed_command_is_recorded_as_an_error() {
    let mut state = state();
    state.record_command_started("req".to_owned(), None, "exec".to_owned());
    state.record_command_completed("req".to_owned(), None, "exec".to_owned(), HostTaskStatus::Failed, 3, "boom".to_owned());
    let snapshot = state.snapshot(totp());
    assert_eq!(snapshot.commands[0].status, HostTaskStatus::Failed);
    assert_eq!(snapshot.recent_errors.len(), 1);
}
