use vstd::prelude::*;
use crate::host_state::{
    clone_opt, task_status_str, transfer_summary,
    opt_chars, redact_reason, compact_label, listener_status_str, HostListenerSnapshot,
    HostTotpSnapshot, HostTotpView, HostPowerView, HostSessionSnapshot, HostStateMetadata,
    HostSnapshot,
    auth_views, command_views, error_views, event_views, transfer_views, tunnel_views,
    HostAuthRequestSnapshot, HostAuthRequestView, HostCommandTaskSnapshot, HostCommandTaskView,
    HostErrorSnapshot, HostErrorView, HostEvent, HostEventView, HostSnapshotView,
    HostTaskStatus, HostTransferTaskSnapshot, HostListenerStatus, HostListenerView, HostSessionView,
    HostEventKind, HostTransferDirection, listener_status_name, task_status_name,
    redact_reason_spec, compact_label_spec, transfer_summary_spec, HostTransferTaskView, HostTunnelSnapshot,
    HostTunnelView, AUTH_HISTORY_LIMIT, EVENT_HISTORY_LIMIT, RECENT_ERROR_LIMIT,
    TASK_HISTORY_LIMIT, TUNNEL_HISTORY_LIMIT, trimmed, trim_vec,
};
use crate::protocol::{TunnelDirection, TunnelInfo, TunnelStatus};
use crate::bytes::{decimal, push_decimal};
use crate::text::{contains_seq, contains_str, owned, str_eq};
use crate::audit::now_rfc3339;

verus! {

/// Position of the command with this request id, if any.
pub open spec fn command_pos(s: Seq<HostCommandTaskView>, id: Seq<char>) -> Option<int> {
    if exists|i: int| 0 <= i < s.len() && #[trigger] s[i].request_id == id {
        Some(choose|i: int| 0 <= i < s.len() && #[trigger] s[i].request_id == id)
    } else {
        None
    }
}

/// Position of the transfer with this request id, if any.
pub open spec fn transfer_pos(s: Seq<HostTransferTaskView>, id: Seq<char>) -> Option<int> {
    if exists|i: int| 0 <= i < s.len() && #[trigger] s[i].request_id == id {
        Some(choose|i: int| 0 <= i < s.len() && #[trigger] s[i].request_id == id)
    } else {
        None
    }
}

/// Position of the tunnel with this id, if any.
pub open spec fn tunnel_pos(s: Seq<HostTunnelView>, id: Seq<char>) -> Option<int> {
    if exists|i: int| 0 <= i < s.len() && #[trigger] s[i].tunnel_id == id {
        Some(choose|i: int| 0 <= i < s.len() && #[trigger] s[i].tunnel_id == id)
    } else {
        None
    }
}

/// No two commands share a request id.
pub open spec fn unique_commands(s: Seq<HostCommandTaskView>) -> bool {
    forall|i: int, j: int|
        0 <= i < s.len() && 0 <= j < s.len() && i != j ==> #[trigger] s[i].request_id
            != #[trigger] s[j].request_id
}

/// No two transfers share a request id.
pub open spec fn unique_transfers(s: Seq<HostTransferTaskView>) -> bool {
    forall|i: int, j: int|
        0 <= i < s.len() && 0 <= j < s.len() && i != j ==> #[trigger] s[i].request_id
            != #[trigger] s[j].request_id
}

/// No two tunnels share an id.
pub open spec fn unique_tunnels(s: Seq<HostTunnelView>) -> bool {
    forall|i: int, j: int|
        0 <= i < s.len() && 0 <= j < s.len() && i != j ==> #[trigger] s[i].tunnel_id
            != #[trigger] s[j].tunnel_id
}

/// A command record replaces the one with its request id, or is appended
/// (dropping the oldest beyond the history limit).
pub open spec fn upsert_command_spec(s: Seq<HostCommandTaskView>, c: HostCommandTaskView) -> Seq<
    HostCommandTaskView,
> {
    match command_pos(s, c.request_id) {
        Some(i) => s.update(i, c),
        None => trimmed(s.push(c), TASK_HISTORY_LIMIT as nat),
    }
}

pub open spec fn upsert_transfer_spec(s: Seq<HostTransferTaskView>, t: HostTransferTaskView) -> Seq<
    HostTransferTaskView,
> {
    match transfer_pos(s, t.request_id) {
        Some(i) => s.update(i, t),
        None => trimmed(s.push(t), TASK_HISTORY_LIMIT as nat),
    }
}

/// A tunnel record replaces the one with its id, or is appended.
pub open spec fn upsert_tunnel_spec(s: Seq<HostTunnelView>, t: HostTunnelView) -> Seq<HostTunnelView> {
    match tunnel_pos(s, t.tunnel_id) {
        Some(i) => s.update(i, t),
        None => s.push(t),
    }
}

/// Walking from the front, tunnels other than `keep` are dropped until at most
/// `limit` remain.
pub open spec fn trim_tunnels_spec(s: Seq<HostTunnelView>, index: int, keep: Seq<char>, limit: nat) -> Seq<
    HostTunnelView,
>
    decreases s.len() - index,
{
    if s.len() <= limit || index < 0 || index >= s.len() {
        s
    } else if s[index].tunnel_id == keep {
        trim_tunnels_spec(s, index + 1, keep, limit)
    } else {
        trim_tunnels_spec(s.remove(index), index, keep, limit)
    }
}

pub proof fn lemma_unique_commands_pos(s: Seq<HostCommandTaskView>, i: int)
    requires
        unique_commands(s),
        0 <= i < s.len(),
    ensures
        command_pos(s, s[i].request_id) == Some(i),
{
    let k = choose|k: int| 0 <= k < s.len() && #[trigger] s[k].request_id == s[i].request_id;
    assert(s[k].request_id == s[i].request_id);
}

pub proof fn lemma_unique_transfers_pos(s: Seq<HostTransferTaskView>, i: int)
    requires
        unique_transfers(s),
        0 <= i < s.len(),
    ensures
        transfer_pos(s, s[i].request_id) == Some(i),
{
    let k = choose|k: int| 0 <= k < s.len() && #[trigger] s[k].request_id == s[i].request_id;
    assert(s[k].request_id == s[i].request_id);
}

pub proof fn lemma_unique_tunnels_pos(s: Seq<HostTunnelView>, i: int)
    requires
        unique_tunnels(s),
        0 <= i < s.len(),
    ensures
        tunnel_pos(s, s[i].tunnel_id) == Some(i),
{
    let k = choose|k: int| 0 <= k < s.len() && #[trigger] s[k].tunnel_id == s[i].tunnel_id;
    assert(s[k].tunnel_id == s[i].tunnel_id);
}

fn find_command(s: &Vec<HostCommandTaskSnapshot>, id: &str) -> (r: Option<usize>)
    requires
        unique_commands(command_views(s@)),
    ensures
        match r {
            Some(i) => command_pos(command_views(s@), id@) == Some(i as int) && i < s@.len(),
            None => command_pos(command_views(s@), id@) is None,
        },
{
    let ghost v = command_views(s@);
    let mut i: usize = 0;
    while i < s.len()
        invariant
            v == command_views(s@),
            unique_commands(v),
            i <= s@.len(),
            forall|j: int| 0 <= j < i ==> #[trigger] v[j].request_id != id@,
        decreases s@.len() - i,
    {
        if str_eq(s[i].request_id.as_str(), id) {
            proof {
                lemma_unique_commands_pos(v, i as int);
            }
            return Some(i);
        }
        assert(v[i as int].request_id == s@[i as int].request_id@);
        i = i + 1;
    }
    None
}

fn find_transfer(s: &Vec<HostTransferTaskSnapshot>, id: &str) -> (r: Option<usize>)
    requires
        unique_transfers(transfer_views(s@)),
    ensures
        match r {
            Some(i) => transfer_pos(transfer_views(s@), id@) == Some(i as int) && i < s@.len(),
            None => transfer_pos(transfer_views(s@), id@) is None,
        },
{
    let ghost v = transfer_views(s@);
    let mut i: usize = 0;
    while i < s.len()
        invariant
            v == transfer_views(s@),
            unique_transfers(v),
            i <= s@.len(),
            forall|j: int| 0 <= j < i ==> #[trigger] v[j].request_id != id@,
        decreases s@.len() - i,
    {
        if str_eq(s[i].request_id.as_str(), id) {
            proof {
                lemma_unique_transfers_pos(v, i as int);
            }
            return Some(i);
        }
        assert(v[i as int].request_id == s@[i as int].request_id@);
        i = i + 1;
    }
    None
}

fn find_tunnel(s: &Vec<HostTunnelSnapshot>, id: &str) -> (r: Option<usize>)
    requires
        unique_tunnels(tunnel_views(s@)),
    ensures
        match r {
            Some(i) => tunnel_pos(tunnel_views(s@), id@) == Some(i as int) && i < s@.len(),
            None => tunnel_pos(tunnel_views(s@), id@) is None,
        },
{
    let ghost v = tunnel_views(s@);
    let mut i: usize = 0;
    while i < s.len()
        invariant
            v == tunnel_views(s@),
            unique_tunnels(v),
            i <= s@.len(),
            forall|j: int| 0 <= j < i ==> #[trigger] v[j].tunnel_id != id@,
        decreases s@.len() - i,
    {
        if str_eq(s[i].tunnel_id.as_str(), id) {
            proof {
                lemma_unique_tunnels_pos(v, i as int);
            }
            return Some(i);
        }
        assert(v[i as int].tunnel_id == s@[i as int].tunnel_id@);
        i = i + 1;
    }
    None
}


/// Every history stays within its limit and no id occurs twice.
pub open spec fn wf_view(m: HostSnapshotView) -> bool {
    &&& unique_commands(m.commands)
    &&& unique_transfers(m.transfers)
    &&& unique_tunnels(m.tunnels)
    &&& m.auth_requests.len() <= AUTH_HISTORY_LIMIT
    &&& m.commands.len() <= TASK_HISTORY_LIMIT
    &&& m.transfers.len() <= TASK_HISTORY_LIMIT
    &&& m.tunnels.len() <= TUNNEL_HISTORY_LIMIT
    &&& m.recent_errors.len() <= RECENT_ERROR_LIMIT
    &&& m.events.len() <= EVENT_HISTORY_LIMIT
}

pub open spec fn ev(
    time: Seq<char>,
    kind: HostEventKind,
    request_id: Option<Seq<char>>,
    session_id: Option<Seq<char>>,
    command: Option<Seq<char>>,
    status: Option<Seq<char>>,
    summary: Option<Seq<char>>,
) -> HostEventView {
    HostEventView { time, kind, request_id, session_id, command, status, summary }
}

/// The event is appended to the log, which keeps its newest entries.
pub open spec fn log_event(m: HostSnapshotView, e: HostEventView) -> HostSnapshotView {
    HostSnapshotView { events: trimmed(m.events.push(e), EVENT_HISTORY_LIMIT as nat), ..m }
}

/// The error is appended to the recent errors, which keep their newest entries.
pub open spec fn with_error(m: HostSnapshotView, e: HostErrorView) -> HostSnapshotView {
    HostSnapshotView { recent_errors: trimmed(m.recent_errors.push(e), RECENT_ERROR_LIMIT as nat), ..m }
}

pub open spec fn map_opt_redact(o: Option<Seq<char>>) -> Option<Seq<char>> {
    match o {
        Some(r) => Some(redact_reason_spec(r)),
        None => None,
    }
}

pub open spec fn listener_status_event(
    time: Seq<char>,
    status: HostListenerStatus,
    reason: Option<Seq<char>>,
) -> HostEventView {
    ev(
        time,
        HostEventKind::ListenerStatusChanged,
        None,
        None,
        None,
        Some(listener_status_name(status)),
        Some(
            match reason {
                Some(r) => redact_reason_spec(r),
                None => listener_status_name(status),
            },
        ),
    )
}

pub open spec fn after_listener_status(
    m: HostSnapshotView,
    time: Seq<char>,
    status: HostListenerStatus,
    reason: Option<Seq<char>>,
) -> HostSnapshotView {
    let m1 = HostSnapshotView {
        listener: HostListenerView { status, updated_at: time, last_error: map_opt_redact(reason) },
        ..m
    };
    let m2 = if status == HostListenerStatus::Error {
        with_error(
            m1,
            HostErrorView {
                at: time,
                summary: match reason {
                    Some(r) => redact_reason_spec(r),
                    None => "listener error"@,
                },
                request_id: None,
                session_id: None,
            },
        )
    } else {
        m1
    };
    log_event(m2, listener_status_event(time, status, reason))
}

pub open spec fn connected_event(time: Seq<char>) -> HostEventView {
    ev(time, HostEventKind::HostConnected, None, None, None, Some("connected"@), Some("host websocket connected"@))
}

pub open spec fn after_connected(m: HostSnapshotView, time: Seq<char>) -> HostSnapshotView {
    log_event(
        HostSnapshotView {
            listener: HostListenerView {
                status: HostListenerStatus::Connected,
                updated_at: time,
                last_error: None,
            },
            ..m
        },
        connected_event(time),
    )
}

pub open spec fn disconnected_event(time: Seq<char>, session_id: Option<Seq<char>>) -> HostEventView {
    ev(
        time,
        HostEventKind::HostDisconnected,
        None,
        session_id,
        None,
        Some("disconnected"@),
        Some("host websocket disconnected"@),
    )
}

pub open spec fn after_disconnected(m: HostSnapshotView, time: Seq<char>, session_id: Option<Seq<char>>) -> HostSnapshotView {
    log_event(
        HostSnapshotView { listener: HostListenerView { updated_at: time, ..m.listener }, ..m },
        disconnected_event(time, session_id),
    )
}

pub open spec fn auth_request_event(time: Seq<char>, request_id: Seq<char>, ok: bool) -> HostEventView {
    ev(
        time,
        HostEventKind::AuthRequested,
        Some(request_id),
        None,
        None,
        Some(if ok { "ok"@ } else { "failed"@ }),
        Some("session auth request"@),
    )
}

pub open spec fn after_auth_request(
    m: HostSnapshotView,
    time: Seq<char>,
    request_id: Seq<char>,
    label: Seq<char>,
    ok: bool,
) -> HostSnapshotView {
    let entry = HostAuthRequestView { request_id, controller_label: compact_label_spec(label), at: time, ok };
    log_event(
        HostSnapshotView { auth_requests: trimmed(m.auth_requests.push(entry), AUTH_HISTORY_LIMIT as nat), ..m },
        auth_request_event(time, request_id, ok),
    )
}

pub open spec fn session_opened_event(time: Seq<char>, session_id: Seq<char>) -> HostEventView {
    ev(time, HostEventKind::SessionOpened, None, Some(session_id), None, Some("active"@), Some("session opened"@))
}

pub open spec fn after_session_opened(
    m: HostSnapshotView,
    time: Seq<char>,
    session_id: Seq<char>,
    label: Seq<char>,
) -> HostSnapshotView {
    log_event(
        HostSnapshotView {
            session: HostSessionView {
                active_session_id: Some(session_id),
                controller_label: Some(compact_label_spec(label)),
                opened_at: Some(time),
                last_close_reason: None,
                ..m.session
            },
            ..m
        },
        session_opened_event(time, session_id),
    )
}

/// A running command of the session becomes cancelled with this result.
pub open spec fn close_command(c: HostCommandTaskView, session_id: Seq<char>, at: Seq<char>, result: Seq<char>) -> HostCommandTaskView {
    if c.session_id == Some(session_id) && c.status == HostTaskStatus::Running {
        HostCommandTaskView { status: HostTaskStatus::Cancelled, finished_at: Some(at), result: Some(result), ..c }
    } else {
        c
    }
}

pub open spec fn close_transfer(t: HostTransferTaskView, session_id: Seq<char>, at: Seq<char>, result: Seq<char>) -> HostTransferTaskView {
    if t.session_id == Some(session_id) && t.status == HostTaskStatus::Running {
        HostTransferTaskView { status: HostTaskStatus::Cancelled, finished_at: Some(at), result: Some(result), ..t }
    } else {
        t
    }
}

/// An active tunnel of the session becomes closed with this reason.
pub open spec fn close_tunnel(t: HostTunnelView, session_id: Seq<char>, at: Seq<char>, result: Seq<char>) -> HostTunnelView {
    if t.session_id == Some(session_id) && t.status == TunnelStatus::Active {
        HostTunnelView { status: TunnelStatus::Closed, last_activity_at: at, close_reason: Some(result), ..t }
    } else {
        t
    }
}

pub open spec fn closed_commands(s: Seq<HostCommandTaskView>, session_id: Seq<char>, at: Seq<char>, result: Seq<char>) -> Seq<HostCommandTaskView> {
    Seq::new(s.len(), |i: int| close_command(s[i], session_id, at, result))
}

pub open spec fn closed_transfers(s: Seq<HostTransferTaskView>, session_id: Seq<char>, at: Seq<char>, result: Seq<char>) -> Seq<HostTransferTaskView> {
    Seq::new(s.len(), |i: int| close_transfer(s[i], session_id, at, result))
}

pub open spec fn closed_tunnels(s: Seq<HostTunnelView>, session_id: Seq<char>, at: Seq<char>, result: Seq<char>) -> Seq<HostTunnelView> {
    Seq::new(s.len(), |i: int| close_tunnel(s[i], session_id, at, result))
}

pub open spec fn session_closed_event(time: Seq<char>, session_id: Seq<char>, reason: Seq<char>) -> HostEventView {
    ev(
        time,
        HostEventKind::SessionClosed,
        None,
        Some(session_id),
        None,
        Some("closed"@),
        Some(redact_reason_spec(reason)),
    )
}

pub open spec fn after_session_closed(
    m: HostSnapshotView,
    time: Seq<char>,
    session_id: Seq<char>,
    reason: Seq<char>,
) -> HostSnapshotView {
    log_event(
        HostSnapshotView {
            session: HostSessionView {
                active_session_id: None,
                controller_label: None,
                opened_at: None,
                last_closed_at: Some(time),
                last_close_reason: Some(redact_reason_spec(reason)),
            },
            commands: closed_commands(m.commands, session_id, time, "session_closed"@),
            transfers: closed_transfers(m.transfers, session_id, time, "session_closed"@),
            tunnels: closed_tunnels(m.tunnels, session_id, time, "session_closed"@),
            ..m
        },
        session_closed_event(time, session_id, reason),
    )
}

pub open spec fn command_started_event(
    time: Seq<char>,
    request_id: Seq<char>,
    session_id: Option<Seq<char>>,
    command: Seq<char>,
) -> HostEventView {
    ev(
        time,
        HostEventKind::CommandStarted,
        Some(request_id),
        session_id,
        Some(command),
        Some("running"@),
        Some("command="@ + command),
    )
}

pub open spec fn after_command_started(
    m: HostSnapshotView,
    time: Seq<char>,
    request_id: Seq<char>,
    session_id: Option<Seq<char>>,
    command: Seq<char>,
) -> HostSnapshotView {
    let c = HostCommandTaskView {
        request_id,
        session_id,
        command,
        status: HostTaskStatus::Running,
        started_at: time,
        finished_at: None,
        result: None,
        duration_ms: None,
        summary: None,
    };
    log_event(
        HostSnapshotView { commands: upsert_command_spec(m.commands, c), ..m },
        command_started_event(time, request_id, session_id, command),
    )
}

/// Failed and cancelled tasks are also recorded as errors.
pub open spec fn is_failure(status: HostTaskStatus) -> bool {
    status == HostTaskStatus::Failed || status == HostTaskStatus::Cancelled
}

pub open spec fn command_completed_event(
    time: Seq<char>,
    request_id: Seq<char>,
    session_id: Option<Seq<char>>,
    command: Seq<char>,
    status: HostTaskStatus,
    result: Seq<char>,
) -> HostEventView {
    ev(
        time,
        HostEventKind::CommandCompleted,
        Some(request_id),
        session_id,
        Some(command),
        Some(task_status_name(status)),
        Some(result),
    )
}

pub open spec fn after_command_completed(
    m: HostSnapshotView,
    time: Seq<char>,
    request_id: Seq<char>,
    session_id: Option<Seq<char>>,
    command: Seq<char>,
    status: HostTaskStatus,
    duration_ms: u64,
    result: Seq<char>,
) -> HostSnapshotView {
    let m1 = match command_pos(m.commands, request_id) {
        Some(i) => HostSnapshotView {
            commands: m.commands.update(
                i,
                HostCommandTaskView {
                    status,
                    finished_at: Some(time),
                    duration_ms: Some(duration_ms),
                    result: Some(result),
                    ..m.commands[i]
                },
            ),
            ..m
        },
        None => m,
    };
    let m2 = if is_failure(status) {
        with_error(
            m1,
            HostErrorView { at: time, summary: "command "@ + result, request_id: Some(request_id), session_id },
        )
    } else {
        m1
    };
    log_event(m2, command_completed_event(time, request_id, session_id, command, status, result))
}

pub open spec fn cancel_requested_event(
    time: Seq<char>,
    request_id: Seq<char>,
    session_id: Option<Seq<char>>,
) -> HostEventView {
    ev(
        time,
        HostEventKind::CommandCancelRequested,
        Some(request_id),
        session_id,
        None,
        Some("cancel_requested"@),
        Some("cancel requested"@),
    )
}

pub open spec fn after_cancel_requested(
    m: HostSnapshotView,
    time: Seq<char>,
    request_id: Seq<char>,
    session_id: Option<Seq<char>>,
) -> HostSnapshotView {
    let commands = match command_pos(m.commands, request_id) {
        Some(i) => m.commands.update(
            i,
            HostCommandTaskView {
                status: HostTaskStatus::Cancelled,
                finished_at: Some(time),
                result: Some("cancel_requested"@),
                ..m.commands[i]
            },
        ),
        None => m.commands,
    };
    let transfers = match transfer_pos(m.transfers, request_id) {
        Some(i) => m.transfers.update(
            i,
            HostTransferTaskView {
                status: HostTaskStatus::Cancelled,
                finished_at: Some(time),
                result: Some("cancel_requested"@),
                ..m.transfers[i]
            },
        ),
        None => m.transfers,
    };
    log_event(
        HostSnapshotView { commands, transfers, ..m },
        cancel_requested_event(time, request_id, session_id),
    )
}

pub open spec fn transfer_started_event(
    time: Seq<char>,
    request_id: Seq<char>,
    session_id: Option<Seq<char>>,
    direction: HostTransferDirection,
    size: Option<u64>,
) -> HostEventView {
    ev(
        time,
        HostEventKind::TransferStarted,
        Some(request_id),
        session_id,
        Some(
            if direction == HostTransferDirection::Upload {
                "upload.begin"@
            } else {
                "download.begin"@
            },
        ),
        Some("running"@),
        Some(transfer_summary_spec(direction, size)),
    )
}

pub open spec fn after_transfer_started(
    m: HostSnapshotView,
    time: Seq<char>,
    request_id: Seq<char>,
    session_id: Option<Seq<char>>,
    direction: HostTransferDirection,
    size: Option<u64>,
) -> HostSnapshotView {
    let t = HostTransferTaskView {
        request_id,
        session_id,
        direction,
        status: HostTaskStatus::Running,
        started_at: time,
        finished_at: None,
        size,
        bytes_transferred: 0,
        result: None,
        summary: None,
    };
    log_event(
        HostSnapshotView { transfers: upsert_transfer_spec(m.transfers, t), ..m },
        transfer_started_event(time, request_id, session_id, direction, size),
    )
}

pub open spec fn transfer_progress_event(
    time: Seq<char>,
    request_id: Seq<char>,
    session_id: Option<Seq<char>>,
    bytes: u64,
) -> HostEventView {
    ev(
        time,
        HostEventKind::TransferProgress,
        Some(request_id),
        session_id,
        None,
        Some("running"@),
        Some("bytes="@ + decimal(bytes as nat)),
    )
}

pub open spec fn after_transfer_progress(
    m: HostSnapshotView,
    time: Seq<char>,
    request_id: Seq<char>,
    session_id: Option<Seq<char>>,
    bytes: u64,
) -> HostSnapshotView {
    let transfers = match transfer_pos(m.transfers, request_id) {
        Some(i) => m.transfers.update(i, HostTransferTaskView { bytes_transferred: bytes, ..m.transfers[i] }),
        None => m.transfers,
    };
    log_event(HostSnapshotView { transfers, ..m }, transfer_progress_event(time, request_id, session_id, bytes))
}

pub open spec fn transfer_completed_event(
    time: Seq<char>,
    request_id: Seq<char>,
    session_id: Option<Seq<char>>,
    status: HostTaskStatus,
    result: Seq<char>,
) -> HostEventView {
    ev(
        time,
        HostEventKind::TransferCompleted,
        Some(request_id),
        session_id,
        None,
        Some(task_status_name(status)),
        Some(result),
    )
}

pub open spec fn after_transfer_completed(
    m: HostSnapshotView,
    time: Seq<char>,
    request_id: Seq<char>,
    session_id: Option<Seq<char>>,
    status: HostTaskStatus,
    bytes: Option<u64>,
    result: Seq<char>,
) -> HostSnapshotView {
    let m1 = match transfer_pos(m.transfers, request_id) {
        Some(i) => HostSnapshotView {
            transfers: m.transfers.update(
                i,
                HostTransferTaskView {
                    status,
                    finished_at: Some(time),
                    result: Some(result),
                    bytes_transferred: match bytes {
                        Some(b) => b,
                        None => m.transfers[i].bytes_transferred,
                    },
                    ..m.transfers[i]
                },
            ),
            ..m
        },
        None => m,
    };
    let m2 = if is_failure(status) {
        with_error(
            m1,
            HostErrorView { at: time, summary: "transfer "@ + result, request_id: Some(request_id), session_id },
        )
    } else {
        m1
    };
    log_event(m2, transfer_completed_event(time, request_id, session_id, status, result))
}

pub open spec fn direction_name(d: TunnelDirection) -> Seq<char> {
    match d {
        TunnelDirection::Local => "local"@,
        TunnelDirection::Remote => "remote"@,
    }
}

pub open spec fn tunnel_opened_event(time: Seq<char>, t: HostTunnelView) -> HostEventView {
    ev(
        time,
        HostEventKind::TunnelOpened,
        None,
        t.session_id,
        None,
        Some("active"@),
        Some("tunnel direction="@ + direction_name(t.direction)),
    )
}

pub open spec fn after_tunnel_opened(m: HostSnapshotView, time: Seq<char>, t: HostTunnelView) -> HostSnapshotView {
    let m1 = log_event(HostSnapshotView { tunnels: upsert_tunnel_spec(m.tunnels, t), ..m }, tunnel_opened_event(time, t));
    HostSnapshotView {
        tunnels: trim_tunnels_spec(m1.tunnels, 0, t.tunnel_id, TUNNEL_HISTORY_LIMIT as nat),
        ..m1
    }
}

pub open spec fn tunnel_close_summary(reason: Option<Seq<char>>) -> Seq<char> {
    match reason {
        Some(r) => redact_reason_spec(r),
        None => "closed"@,
    }
}

pub open spec fn tunnel_closed_event(
    time: Seq<char>,
    session_id: Option<Seq<char>>,
    reason: Option<Seq<char>>,
) -> HostEventView {
    ev(
        time,
        HostEventKind::TunnelClosed,
        None,
        session_id,
        None,
        Some("closed"@),
        Some(tunnel_close_summary(reason)),
    )
}

pub open spec fn after_tunnel_closed(
    m: HostSnapshotView,
    time: Seq<char>,
    tunnel_id: Seq<char>,
    session_id: Option<Seq<char>>,
    reason: Option<Seq<char>>,
) -> HostSnapshotView {
    let tunnels = match tunnel_pos(m.tunnels, tunnel_id) {
        Some(i) => m.tunnels.update(
            i,
            HostTunnelView {
                status: TunnelStatus::Closed,
                last_activity_at: time,
                close_reason: Some(tunnel_close_summary(reason)),
                ..m.tunnels[i]
            },
        ),
        None => m.tunnels,
    };
    log_event(HostSnapshotView { tunnels, ..m }, tunnel_closed_event(time, session_id, reason))
}


pub proof fn lemma_upsert_command(s: Seq<HostCommandTaskView>, c: HostCommandTaskView)
    requires
        unique_commands(s),
        s.len() <= TASK_HISTORY_LIMIT,
    ensures
        unique_commands(upsert_command_spec(s, c)),
        upsert_command_spec(s, c).len() <= TASK_HISTORY_LIMIT,
{
    match command_pos(s, c.request_id) {
        Some(i) => {
            let r = s.update(i, c);
            assert forall|a: int, b: int| 0 <= a < r.len() && 0 <= b < r.len() && a != b implies #[trigger] r[a].request_id
                != #[trigger] r[b].request_id by {
                if a != i && b != i {
                    assert(r[a] == s[a] && r[b] == s[b]);
                } else if a == i {
                    assert(s[b].request_id == r[b].request_id);
                } else {
                    assert(s[a].request_id == r[a].request_id);
                }
            }
        },
        None => {
            let p = s.push(c);
            assert forall|a: int, b: int| 0 <= a < p.len() && 0 <= b < p.len() && a != b implies #[trigger] p[a].request_id
                != #[trigger] p[b].request_id by {
                if a < s.len() && b < s.len() {
                    assert(p[a] == s[a] && p[b] == s[b]);
                } else if a == s.len() {
                    assert(p[b] == s[b]);
                    assert(s[b].request_id != c.request_id);
                } else {
                    assert(p[a] == s[a]);
                    assert(s[a].request_id != c.request_id);
                }
            }
            let t = trimmed(p, TASK_HISTORY_LIMIT as nat);
            if p.len() > TASK_HISTORY_LIMIT {
                let k = p.len() - TASK_HISTORY_LIMIT;
                assert forall|a: int, b: int| 0 <= a < t.len() && 0 <= b < t.len() && a != b implies #[trigger] t[a].request_id
                    != #[trigger] t[b].request_id by {
                    assert(t[a] == p[a + k] && t[b] == p[b + k]);
                }
            }
        },
    }
}

pub proof fn lemma_upsert_transfer(s: Seq<HostTransferTaskView>, t0: HostTransferTaskView)
    requires
        unique_transfers(s),
        s.len() <= TASK_HISTORY_LIMIT,
    ensures
        unique_transfers(upsert_transfer_spec(s, t0)),
        upsert_transfer_spec(s, t0).len() <= TASK_HISTORY_LIMIT,
{
    match transfer_pos(s, t0.request_id) {
        Some(i) => {
            let r = s.update(i, t0);
            assert forall|a: int, b: int| 0 <= a < r.len() && 0 <= b < r.len() && a != b implies #[trigger] r[a].request_id
                != #[trigger] r[b].request_id by {
                if a != i && b != i {
                    assert(r[a] == s[a] && r[b] == s[b]);
                } else if a == i {
                    assert(s[b].request_id == r[b].request_id);
                } else {
                    assert(s[a].request_id == r[a].request_id);
                }
            }
        },
        None => {
            let p = s.push(t0);
            assert forall|a: int, b: int| 0 <= a < p.len() && 0 <= b < p.len() && a != b implies #[trigger] p[a].request_id
                != #[trigger] p[b].request_id by {
                if a < s.len() && b < s.len() {
                    assert(p[a] == s[a] && p[b] == s[b]);
                } else if a == s.len() {
                    assert(p[b] == s[b]);
                    assert(s[b].request_id != t0.request_id);
                } else {
                    assert(p[a] == s[a]);
                    assert(s[a].request_id != t0.request_id);
                }
            }
            let t = trimmed(p, TASK_HISTORY_LIMIT as nat);
            if p.len() > TASK_HISTORY_LIMIT {
                let k = p.len() - TASK_HISTORY_LIMIT;
                assert forall|a: int, b: int| 0 <= a < t.len() && 0 <= b < t.len() && a != b implies #[trigger] t[a].request_id
                    != #[trigger] t[b].request_id by {
                    assert(t[a] == p[a + k] && t[b] == p[b + k]);
                }
            }
        },
    }
}

pub proof fn lemma_upsert_tunnel(s: Seq<HostTunnelView>, t0: HostTunnelView)
    requires
        unique_tunnels(s),
    ensures
        unique_tunnels(upsert_tunnel_spec(s, t0)),
        upsert_tunnel_spec(s, t0).len() <= s.len() + 1,
        exists|j: int| 0 <= j < upsert_tunnel_spec(s, t0).len() && #[trigger] upsert_tunnel_spec(s, t0)[j] == t0,
{
    match tunnel_pos(s, t0.tunnel_id) {
        Some(i) => {
            let r = s.update(i, t0);
            assert(r[i] == t0);
            assert forall|a: int, b: int| 0 <= a < r.len() && 0 <= b < r.len() && a != b implies #[trigger] r[a].tunnel_id
                != #[trigger] r[b].tunnel_id by {
                if a != i && b != i {
                    assert(r[a] == s[a] && r[b] == s[b]);
                } else if a == i {
                    assert(s[b].tunnel_id == r[b].tunnel_id);
                } else {
                    assert(s[a].tunnel_id == r[a].tunnel_id);
                }
            }
        },
        None => {
            let p = s.push(t0);
            assert(p[s.len() as int] == t0);
            assert forall|a: int, b: int| 0 <= a < p.len() && 0 <= b < p.len() && a != b implies #[trigger] p[a].tunnel_id
                != #[trigger] p[b].tunnel_id by {
                if a < s.len() && b < s.len() {
                    assert(p[a] == s[a] && p[b] == s[b]);
                } else if a == s.len() {
                    assert(p[b] == s[b]);
                    assert(s[b].tunnel_id != t0.tunnel_id);
                } else {
                    assert(p[a] == s[a]);
                    assert(s[a].tunnel_id != t0.tunnel_id);
                }
            }
        },
    }
}

/// Trimming the tunnel history keeps the ids distinct, leaves `limit` entries
/// when there were more, and keeps the tunnel named `keep`.
pub proof fn lemma_trim_tunnels(s: Seq<HostTunnelView>, index: int, keep: Seq<char>, limit: nat)
    requires
        unique_tunnels(s),
        0 <= index <= s.len(),
        limit >= 1,
        forall|j: int| 0 <= j < index ==> #[trigger] s[j].tunnel_id == keep,
    ensures
        unique_tunnels(trim_tunnels_spec(s, index, keep, limit)),
        trim_tunnels_spec(s, index, keep, limit).len() == (if s.len() <= limit { s.len() } else { limit }),
        forall|j: int| 0 <= j < s.len() && s[j].tunnel_id == keep ==> exists|k: int|
            0 <= k < trim_tunnels_spec(s, index, keep, limit).len()
                && #[trigger] trim_tunnels_spec(s, index, keep, limit)[k] == s[j],
    decreases s.len() - index,
{
    let r = trim_tunnels_spec(s, index, keep, limit);
    if s.len() <= limit {
        assert forall|j: int| 0 <= j < s.len() && s[j].tunnel_id == keep implies exists|k: int|
            0 <= k < r.len() && #[trigger] r[k] == s[j] by {
            assert(r[j] == s[j]);
        }
    } else if index >= s.len() {
        assert(s[0].tunnel_id == keep);
        assert(s[1].tunnel_id == keep);
        assert(false);
    } else if s[index].tunnel_id == keep {
        lemma_trim_tunnels(s, index + 1, keep, limit);
    } else {
        let s2 = s.remove(index);
        assert forall|a: int, b: int| 0 <= a < s2.len() && 0 <= b < s2.len() && a != b implies #[trigger] s2[a].tunnel_id
            != #[trigger] s2[b].tunnel_id by {
            let a0 = if a < index { a } else { a + 1 };
            let b0 = if b < index { b } else { b + 1 };
            assert(s2[a] == s[a0] && s2[b] == s[b0]);
        }
        assert forall|j: int| 0 <= j < index implies #[trigger] s2[j].tunnel_id == keep by {
            assert(s2[j] == s[j]);
        }
        lemma_trim_tunnels(s2, index, keep, limit);
        assert forall|j: int| 0 <= j < s.len() && s[j].tunnel_id == keep implies exists|k: int|
            0 <= k < r.len() && #[trigger] r[k] == s[j] by {
            let j2 = if j < index { j } else { j - 1 };
            assert(j != index);
            assert(s2[j2] == s[j]);
        }
    }
}


pub proof fn lemma_same_ids_commands(s: Seq<HostCommandTaskView>, r: Seq<HostCommandTaskView>)
    requires
        unique_commands(s),
        r.len() == s.len(),
        forall|i: int| 0 <= i < s.len() ==> #[trigger] r[i].request_id == s[i].request_id,
    ensures
        unique_commands(r),
{
    assert forall|a: int, b: int| 0 <= a < r.len() && 0 <= b < r.len() && a != b implies #[trigger] r[a].request_id
        != #[trigger] r[b].request_id by {
        assert(r[a].request_id == s[a].request_id && r[b].request_id == s[b].request_id);
    }
}

pub proof fn lemma_same_ids_transfers(s: Seq<HostTransferTaskView>, r: Seq<HostTransferTaskView>)
    requires
        unique_transfers(s),
        r.len() == s.len(),
        forall|i: int| 0 <= i < s.len() ==> #[trigger] r[i].request_id == s[i].request_id,
    ensures
        unique_transfers(r),
{
    assert forall|a: int, b: int| 0 <= a < r.len() && 0 <= b < r.len() && a != b implies #[trigger] r[a].request_id
        != #[trigger] r[b].request_id by {
        assert(r[a].request_id == s[a].request_id && r[b].request_id == s[b].request_id);
    }
}

pub proof fn lemma_same_ids_tunnels(s: Seq<HostTunnelView>, r: Seq<HostTunnelView>)
    requires
        unique_tunnels(s),
        r.len() == s.len(),
        forall|i: int| 0 <= i < s.len() ==> #[trigger] r[i].tunnel_id == s[i].tunnel_id,
    ensures
        unique_tunnels(r),
{
    assert forall|a: int, b: int| 0 <= a < r.len() && 0 <= b < r.len() && a != b implies #[trigger] r[a].tunnel_id
        != #[trigger] r[b].tunnel_id by {
        assert(r[a].tunnel_id == s[a].tunnel_id && r[b].tunnel_id == s[b].tunnel_id);
    }
}

/// Appends the event to the log, dropping the oldest beyond the limit.
fn log_into(snap: &mut HostSnapshot, e: HostEvent)
    ensures
        final(snap)@ == log_event(old(snap)@, e@),
{
    let ghost before = snap.events@;
    snap.events.push(e);
    let ghost pushed = snap.events@;
    assert(event_views(pushed) =~= event_views(before).push(e@));
    trim_vec(&mut snap.events, EVENT_HISTORY_LIMIT);
    proof {
        if pushed.len() > EVENT_HISTORY_LIMIT {
            let k = pushed.len() - EVENT_HISTORY_LIMIT;
            assert(event_views(pushed.skip(k)) =~= event_views(pushed).skip(k));
        }
    }
    assert(final(snap)@.events == trimmed(old(snap)@.events.push(e@), EVENT_HISTORY_LIMIT as nat));
}

/// Appends the error to the recent errors, dropping the oldest beyond the limit.
fn push_error(snap: &mut HostSnapshot, e: HostErrorSnapshot)
    ensures
        final(snap)@ == with_error(old(snap)@, e@),
{
    let ghost before = snap.recent_errors@;
    snap.recent_errors.push(e);
    let ghost pushed = snap.recent_errors@;
    assert(error_views(pushed) =~= error_views(before).push(e@));
    trim_vec(&mut snap.recent_errors, RECENT_ERROR_LIMIT);
    proof {
        if pushed.len() > RECENT_ERROR_LIMIT {
            let k = pushed.len() - RECENT_ERROR_LIMIT;
            assert(error_views(pushed.skip(k)) =~= error_views(pushed).skip(k));
        }
    }
    assert(final(snap)@.recent_errors == trimmed(old(snap)@.recent_errors.push(e@), RECENT_ERROR_LIMIT as nat));
}



/// Whether an optional session id names `session_id`.
fn same_session(o: &Option<String>, session_id: &str) -> (r: bool)
    ensures
        r == (opt_chars(*o) == Some(session_id@)),
{
    match o {
        Some(s) => str_eq(s.as_str(), session_id),
        None => false,
    }
}

/// Every running task and active tunnel of the session is closed with `result`.
fn mark_session_tasks_closed(snap: &mut HostSnapshot, session_id: &str, at: &str, result: &str)
    ensures
        final(snap)@ == (HostSnapshotView {
            commands: closed_commands(old(snap)@.commands, session_id@, at@, result@),
            transfers: closed_transfers(old(snap)@.transfers, session_id@, at@, result@),
            tunnels: closed_tunnels(old(snap)@.tunnels, session_id@, at@, result@),
            ..old(snap)@
        }),
{
    let ghost c0 = command_views(snap.commands@);
    let mut i: usize = 0;
    while i < snap.commands.len()
        invariant
            c0 == command_views(old(snap).commands@),
            snap.commands@.len() == c0.len(),
            i <= c0.len(),
            forall|j: int| 0 <= j < i ==> #[trigger] command_views(snap.commands@)[j] == close_command(c0[j], session_id@, at@, result@),
            forall|j: int| i <= j < c0.len() ==> #[trigger] command_views(snap.commands@)[j] == c0[j],
            snap.listener == old(snap).listener,
            snap.server_url == old(snap).server_url,
            snap.machine_id == old(snap).machine_id,
            snap.host_id == old(snap).host_id,
            snap.totp == old(snap).totp,
            snap.power == old(snap).power,
            snap.audit_path == old(snap).audit_path,
            snap.session == old(snap).session,
            snap.auth_requests == old(snap).auth_requests,
            snap.transfers == old(snap).transfers,
            snap.tunnels == old(snap).tunnels,
            snap.recent_errors == old(snap).recent_errors,
            snap.events == old(snap).events,
        decreases c0.len() - i,
    {
        let ghost prev = command_views(snap.commands@);
        assert(prev[i as int] == c0[i as int]);
        assert(prev[i as int] == snap.commands@[i as int]@);
        if same_session(&snap.commands[i].session_id, session_id) && snap.commands[i].status == HostTaskStatus::Running {
            let mut c = snap.commands[i].clone();
            c.status = HostTaskStatus::Cancelled;
            c.finished_at = Some(owned(at));
            c.result = Some(owned(result));
            let ghost cv = c@;
            snap.commands[i] = c;
            assert(command_views(snap.commands@) =~= prev.update(i as int, cv));
        }
        assert(command_views(snap.commands@)[i as int] == close_command(c0[i as int], session_id@, at@, result@));
        i = i + 1;
    }
    assert(command_views(snap.commands@) =~= closed_commands(c0, session_id@, at@, result@));
    let ghost t0 = transfer_views(snap.transfers@);
    let mut i: usize = 0;
    while i < snap.transfers.len()
        invariant
            t0 == transfer_views(old(snap).transfers@),
            snap.transfers@.len() == t0.len(),
            i <= t0.len(),
            forall|j: int| 0 <= j < i ==> #[trigger] transfer_views(snap.transfers@)[j] == close_transfer(t0[j], session_id@, at@, result@),
            forall|j: int| i <= j < t0.len() ==> #[trigger] transfer_views(snap.transfers@)[j] == t0[j],
            command_views(snap.commands@) == closed_commands(command_views(old(snap).commands@), session_id@, at@, result@),
            snap.listener == old(snap).listener,
            snap.server_url == old(snap).server_url,
            snap.machine_id == old(snap).machine_id,
            snap.host_id == old(snap).host_id,
            snap.totp == old(snap).totp,
            snap.power == old(snap).power,
            snap.audit_path == old(snap).audit_path,
            snap.session == old(snap).session,
            snap.auth_requests == old(snap).auth_requests,
            snap.tunnels == old(snap).tunnels,
            snap.recent_errors == old(snap).recent_errors,
            snap.events == old(snap).events,
        decreases t0.len() - i,
    {
        let ghost prev = transfer_views(snap.transfers@);
        assert(prev[i as int] == t0[i as int]);
        assert(prev[i as int] == snap.transfers@[i as int]@);
        if same_session(&snap.transfers[i].session_id, session_id) && snap.transfers[i].status == HostTaskStatus::Running {
            let mut t = snap.transfers[i].clone();
            t.status = HostTaskStatus::Cancelled;
            t.finished_at = Some(owned(at));
            t.result = Some(owned(result));
            let ghost cv = t@;
            snap.transfers[i] = t;
            assert(transfer_views(snap.transfers@) =~= prev.update(i as int, cv));
        }
        assert(transfer_views(snap.transfers@)[i as int] == close_transfer(t0[i as int], session_id@, at@, result@));
        i = i + 1;
    }
    assert(transfer_views(snap.transfers@) =~= closed_transfers(t0, session_id@, at@, result@));
    let ghost n0 = tunnel_views(snap.tunnels@);
    let mut i: usize = 0;
    while i < snap.tunnels.len()
        invariant
            n0 == tunnel_views(old(snap).tunnels@),
            snap.tunnels@.len() == n0.len(),
            i <= n0.len(),
            forall|j: int| 0 <= j < i ==> #[trigger] tunnel_views(snap.tunnels@)[j] == close_tunnel(n0[j], session_id@, at@, result@),
            forall|j: int| i <= j < n0.len() ==> #[trigger] tunnel_views(snap.tunnels@)[j] == n0[j],
            command_views(snap.commands@) == closed_commands(command_views(old(snap).commands@), session_id@, at@, result@),
            transfer_views(snap.transfers@) == closed_transfers(transfer_views(old(snap).transfers@), session_id@, at@, result@),
            snap.listener == old(snap).listener,
            snap.server_url == old(snap).server_url,
            snap.machine_id == old(snap).machine_id,
            snap.host_id == old(snap).host_id,
            snap.totp == old(snap).totp,
            snap.power == old(snap).power,
            snap.audit_path == old(snap).audit_path,
            snap.session == old(snap).session,
            snap.auth_requests == old(snap).auth_requests,
            snap.recent_errors == old(snap).recent_errors,
            snap.events == old(snap).events,
        decreases n0.len() - i,
    {
        let ghost prev = tunnel_views(snap.tunnels@);
        assert(prev[i as int] == n0[i as int]);
        assert(prev[i as int] == snap.tunnels@[i as int]@);
        if same_session(&snap.tunnels[i].session_id, session_id) && snap.tunnels[i].status == TunnelStatus::Active {
            let mut t = snap.tunnels[i].clone();
            t.status = TunnelStatus::Closed;
            t.last_activity_at = owned(at);
            t.close_reason = Some(owned(result));
            let ghost cv = t@;
            snap.tunnels[i] = t;
            assert(tunnel_views(snap.tunnels@) =~= prev.update(i as int, cv));
        }
        assert(tunnel_views(snap.tunnels@)[i as int] == close_tunnel(n0[i as int], session_id@, at@, result@));
        i = i + 1;
    }
    assert(tunnel_views(snap.tunnels@) =~= closed_tunnels(n0, session_id@, at@, result@));
}

/// The command record replaces the one with its request id, or is appended.
fn upsert_command(snap: &mut HostSnapshot, c: HostCommandTaskSnapshot)
    requires
        unique_commands(old(snap)@.commands),
    ensures
        final(snap)@ == (HostSnapshotView { commands: upsert_command_spec(old(snap)@.commands, c@), ..old(snap)@ }),
{
    match find_command(&snap.commands, c.request_id.as_str()) {
        Some(i) => {
            let ghost cv = c@;
            snap.commands[i] = c;
            assert(command_views(snap.commands@) =~= command_views(old(snap).commands@).update(i as int, cv));
        },
        None => {
            let ghost cv = c@;
            let ghost before = snap.commands@;
            snap.commands.push(c);
            let ghost pushed = snap.commands@;
            assert(command_views(pushed) =~= command_views(before).push(cv));
            trim_vec(&mut snap.commands, TASK_HISTORY_LIMIT);
            proof {
                if pushed.len() > TASK_HISTORY_LIMIT {
                    let k = pushed.len() - TASK_HISTORY_LIMIT;
                    assert(command_views(pushed.skip(k)) =~= command_views(pushed).skip(k));
                }
            }
        },
    }
}

fn upsert_transfer(snap: &mut HostSnapshot, t: HostTransferTaskSnapshot)
    requires
        unique_transfers(old(snap)@.transfers),
    ensures
        final(snap)@ == (HostSnapshotView { transfers: upsert_transfer_spec(old(snap)@.transfers, t@), ..old(snap)@ }),
{
    match find_transfer(&snap.transfers, t.request_id.as_str()) {
        Some(i) => {
            let ghost tv = t@;
            snap.transfers[i] = t;
            assert(transfer_views(snap.transfers@) =~= transfer_views(old(snap).transfers@).update(i as int, tv));
        },
        None => {
            let ghost tv = t@;
            let ghost before = snap.transfers@;
            snap.transfers.push(t);
            let ghost pushed = snap.transfers@;
            assert(transfer_views(pushed) =~= transfer_views(before).push(tv));
            trim_vec(&mut snap.transfers, TASK_HISTORY_LIMIT);
            proof {
                if pushed.len() > TASK_HISTORY_LIMIT {
                    let k = pushed.len() - TASK_HISTORY_LIMIT;
                    assert(transfer_views(pushed.skip(k)) =~= transfer_views(pushed).skip(k));
                }
            }
        },
    }
}

fn upsert_tunnel(snap: &mut HostSnapshot, t: HostTunnelSnapshot)
    requires
        unique_tunnels(old(snap)@.tunnels),
    ensures
        final(snap)@ == (HostSnapshotView { tunnels: upsert_tunnel_spec(old(snap)@.tunnels, t@), ..old(snap)@ }),
{
    match find_tunnel(&snap.tunnels, t.tunnel_id.as_str()) {
        Some(i) => {
            let ghost tv = t@;
            snap.tunnels[i] = t;
            assert(tunnel_views(snap.tunnels@) =~= tunnel_views(old(snap).tunnels@).update(i as int, tv));
        },
        None => {
            let ghost tv = t@;
            let ghost before = snap.tunnels@;
            snap.tunnels.push(t);
            assert(tunnel_views(snap.tunnels@) =~= tunnel_views(before).push(tv));
        },
    }
}

/// Drops the oldest tunnels other than `keep_id` until the history fits its limit.
fn trim_tunnel_history(snap: &mut HostSnapshot, keep_id: &str)
    ensures
        final(snap)@ == (HostSnapshotView {
            tunnels: trim_tunnels_spec(old(snap)@.tunnels, 0, keep_id@, TUNNEL_HISTORY_LIMIT as nat),
            ..old(snap)@
        }),
{
    let ghost target = trim_tunnels_spec(old(snap)@.tunnels, 0, keep_id@, TUNNEL_HISTORY_LIMIT as nat);
    let mut index: usize = 0;
    while snap.tunnels.len() > TUNNEL_HISTORY_LIMIT && index < snap.tunnels.len()
        invariant
            trim_tunnels_spec(tunnel_views(snap.tunnels@), index as int, keep_id@, TUNNEL_HISTORY_LIMIT as nat) == target,
            index <= snap.tunnels@.len(),
            snap.listener == old(snap).listener,
            snap.server_url == old(snap).server_url,
            snap.machine_id == old(snap).machine_id,
            snap.host_id == old(snap).host_id,
            snap.totp == old(snap).totp,
            snap.power == old(snap).power,
            snap.audit_path == old(snap).audit_path,
            snap.session == old(snap).session,
            snap.auth_requests == old(snap).auth_requests,
            snap.commands == old(snap).commands,
            snap.transfers == old(snap).transfers,
            snap.recent_errors == old(snap).recent_errors,
            snap.events == old(snap).events,
        decreases snap.tunnels@.len() - index,
    {
        let ghost cur = tunnel_views(snap.tunnels@);
        if str_eq(snap.tunnels[index].tunnel_id.as_str(), keep_id) {
            assert(cur[index as int].tunnel_id == keep_id@);
            index = index + 1;
        } else {
            assert(cur[index as int].tunnel_id != keep_id@);
            snap.tunnels.remove(index);
            assert(tunnel_views(snap.tunnels@) =~= cur.remove(index as int));
        }
    }
}

/// The host's live state: what its operator sees, kept within its history limits.
pub struct HostStateHandle {
    snapshot: HostSnapshot,
}

/// The state right after start-up: stopped, with no session and empty histories.
pub open spec fn initial_view(
    server_url: Seq<char>,
    machine_id: Seq<char>,
    host_id: Seq<char>,
    totp_period_seconds: u64,
    audit_path: Seq<char>,
    power: HostPowerView,
    time: Seq<char>,
) -> HostSnapshotView {
    HostSnapshotView {
        listener: HostListenerView { status: HostListenerStatus::Stopped, updated_at: time, last_error: None },
        server_url,
        machine_id,
        host_id,
        totp: HostTotpView {
            current_code: Seq::empty(),
            period_seconds: totp_period_seconds,
            remaining_seconds: totp_period_seconds,
        },
        power,
        audit_path,
        session: HostSessionView {
            active_session_id: None,
            controller_label: None,
            opened_at: None,
            last_closed_at: None,
            last_close_reason: None,
        },
        auth_requests: Seq::empty(),
        commands: Seq::empty(),
        transfers: Seq::empty(),
        tunnels: Seq::empty(),
        recent_errors: Seq::empty(),
        events: Seq::empty(),
    }
}

impl HostStateHandle {
    /// The state as plain values.
    pub closed spec fn model(&self) -> HostSnapshotView {
        self.snapshot@
    }

    pub open spec fn wf(&self) -> bool {
        wf_view(self.model())
    }

    /// A fresh state, stamped with the current time.
    pub fn new(metadata: HostStateMetadata) -> (r: Self)
        ensures
            r.wf(),
            r.model() == initial_view(
                metadata.server_url@,
                metadata.machine_id@,
                metadata.host_id@,
                metadata.totp_period_seconds,
                metadata.audit_path@,
                metadata.power@,
                r.model().listener.updated_at,
            ),
    {
        let now = now_rfc3339();
        let snapshot = HostSnapshot {
            listener: HostListenerSnapshot { status: HostListenerStatus::Stopped, updated_at: now, last_error: None },
            server_url: metadata.server_url,
            machine_id: metadata.machine_id,
            host_id: metadata.host_id,
            totp: HostTotpSnapshot {
                current_code: String::new(),
                period_seconds: metadata.totp_period_seconds,
                remaining_seconds: metadata.totp_period_seconds,
            },
            power: metadata.power,
            audit_path: metadata.audit_path,
            session: HostSessionSnapshot {
                active_session_id: None,
                controller_label: None,
                opened_at: None,
                last_closed_at: None,
                last_close_reason: None,
            },
            auth_requests: Vec::new(),
            commands: Vec::new(),
            transfers: Vec::new(),
            tunnels: Vec::new(),
            recent_errors: Vec::new(),
            events: Vec::new(),
        };
        let r = HostStateHandle { snapshot };
        assert(r.model().auth_requests =~= Seq::empty());
        assert(r.model().commands =~= Seq::empty());
        assert(r.model().transfers =~= Seq::empty());
        assert(r.model().tunnels =~= Seq::empty());
        assert(r.model().recent_errors =~= Seq::empty());
        assert(r.model().events =~= Seq::empty());
        r
    }

    /// A copy of the state, with the given one-time-code figures.
    pub fn snapshot(&self, totp: HostTotpSnapshot) -> (r: HostSnapshot)
        ensures
            r@ == (HostSnapshotView { totp: totp@, ..self.model() }),
    {
        let s = &self.snapshot;
        let auth_requests = s.auth_requests.clone();
        assert(auth_requests@ =~= s.auth_requests@);
        let commands = s.commands.clone();
        assert(commands@ =~= s.commands@);
        let transfers = s.transfers.clone();
        assert(transfers@ =~= s.transfers@);
        let tunnels = s.tunnels.clone();
        assert(tunnels@ =~= s.tunnels@);
        let recent_errors = s.recent_errors.clone();
        assert(recent_errors@ =~= s.recent_errors@);
        let events = s.events.clone();
        assert(events@ =~= s.events@);
        HostSnapshot {
            listener: s.listener.clone(),
            server_url: s.server_url.clone(),
            machine_id: s.machine_id.clone(),
            host_id: s.host_id.clone(),
            totp,
            power: s.power.clone(),
            audit_path: s.audit_path.clone(),
            session: s.session.clone(),
            auth_requests,
            commands,
            transfers,
            tunnels,
            recent_errors,
            events,
        }
    }

    /// The listener moved to `status`, for `reason` if one is given; an error
    /// status is also recorded among the recent errors.
    pub fn record_listener_status(&mut self, status: HostListenerStatus, reason: Option<String>) -> (r: HostEvent)
        requires
            old(self).wf(),
        ensures
            final(self).wf(),
            r@ == listener_status_event(r.time@, status, opt_chars(reason)),
            final(self).model() == after_listener_status(old(self).model(), r.time@, status, opt_chars(reason)),
    {
        let time = now_rfc3339();
        let name = listener_status_str(status);
        let summary = match &reason {
            Some(text) => redact_reason(text.as_str()),
            None => owned(name),
        };
        let event = HostEvent {
            time: time.clone(),
            kind: HostEventKind::ListenerStatusChanged,
            request_id: None,
            session_id: None,
            command: None,
            status: Some(owned(name)),
            summary: Some(summary),
        };
        self.snapshot.listener.status = status;
        self.snapshot.listener.updated_at = time.clone();
        self.snapshot.listener.last_error = match &reason {
            Some(text) => Some(redact_reason(text.as_str())),
            None => None,
        };
        if status == HostListenerStatus::Error {
            let error_summary = match &reason {
                Some(text) => redact_reason(text.as_str()),
                None => owned("listener error"),
            };
            push_error(
                &mut self.snapshot,
                HostErrorSnapshot { at: time, summary: error_summary, request_id: None, session_id: None },
            );
        }
        log_into(&mut self.snapshot, event.clone());
        event
    }

    /// The host's connection to the relay is up.
    pub fn record_connected(&mut self) -> (r: HostEvent)
        requires
            old(self).wf(),
        ensures
            final(self).wf(),
            r@ == connected_event(r.time@),
            final(self).model() == after_connected(old(self).model(), r.time@),
    {
        let time = now_rfc3339();
        let event = HostEvent {
            time: time.clone(),
            kind: HostEventKind::HostConnected,
            request_id: None,
            session_id: None,
            command: None,
            status: Some(owned("connected")),
            summary: Some(owned("host websocket connected")),
        };
        self.snapshot.listener.status = HostListenerStatus::Connected;
        self.snapshot.listener.updated_at = time;
        self.snapshot.listener.last_error = None;
        log_into(&mut self.snapshot, event.clone());
        event
    }

    /// The host's connection to the relay went down.
    pub fn record_disconnected(&mut self, session_id: Option<String>) -> (r: HostEvent)
        requires
            old(self).wf(),
        ensures
            final(self).wf(),
            r@ == disconnected_event(r.time@, opt_chars(session_id)),
            final(self).model() == after_disconnected(old(self).model(), r.time@, opt_chars(session_id)),
    {
        let time = now_rfc3339();
        let event = HostEvent {
            time: time.clone(),
            kind: HostEventKind::HostDisconnected,
            request_id: None,
            session_id,
            command: None,
            status: Some(owned("disconnected")),
            summary: Some(owned("host websocket disconnected")),
        };
        self.snapshot.listener.updated_at = time;
        log_into(&mut self.snapshot, event.clone());
        event
    }

    /// A controller asked to open a session; `ok` tells whether it was admitted.
    pub fn record_auth_request(&mut self, request_id: String, controller_label: String, ok: bool) -> (r: HostEvent)
        requires
            old(self).wf(),
        ensures
            final(self).wf(),
            r@ == auth_request_event(r.time@, request_id@, ok),
            final(self).model() == after_auth_request(old(self).model(), r.time@, request_id@, controller_label@, ok),
    {
        let time = now_rfc3339();
        let event = HostEvent {
            time: time.clone(),
            kind: HostEventKind::AuthRequested,
            request_id: Some(request_id.clone()),
            session_id: None,
            command: None,
            status: Some(if ok { owned("ok") } else { owned("failed") }),
            summary: Some(owned("session auth request")),
        };
        let entry = HostAuthRequestSnapshot {
            request_id,
            controller_label: compact_label(controller_label.as_str()),
            at: time,
            ok,
        };
        let ghost before = self.snapshot.auth_requests@;
        self.snapshot.auth_requests.push(entry);
        let ghost pushed = self.snapshot.auth_requests@;
        assert(auth_views(pushed) =~= auth_views(before).push(entry@));
        trim_vec(&mut self.snapshot.auth_requests, AUTH_HISTORY_LIMIT);
        proof {
            if pushed.len() > AUTH_HISTORY_LIMIT {
                let k = pushed.len() - AUTH_HISTORY_LIMIT;
                assert(auth_views(pushed.skip(k)) =~= auth_views(pushed).skip(k));
            }
        }
        log_into(&mut self.snapshot, event.clone());
        event
    }

    /// A session was opened for the controller.
    pub fn record_session_opened(&mut self, session_id: String, controller_label: String) -> (r: HostEvent)
        requires
            old(self).wf(),
        ensures
            final(self).wf(),
            r@ == session_opened_event(r.time@, session_id@),
            final(self).model() == after_session_opened(old(self).model(), r.time@, session_id@, controller_label@),
    {
        let time = now_rfc3339();
        let event = HostEvent {
            time: time.clone(),
            kind: HostEventKind::SessionOpened,
            request_id: None,
            session_id: Some(session_id.clone()),
            command: None,
            status: Some(owned("active")),
            summary: Some(owned("session opened")),
        };
        self.snapshot.session.active_session_id = Some(session_id);
        self.snapshot.session.controller_label = Some(compact_label(controller_label.as_str()));
        self.snapshot.session.opened_at = Some(time);
        self.snapshot.session.last_close_reason = None;
        log_into(&mut self.snapshot, event.clone());
        event
    }

    /// The session was closed for `reason`; its running tasks and active
    /// tunnels are closed with it.
    pub fn record_session_closed(&mut self, session_id: String, reason: String) -> (r: HostEvent)
        requires
            old(self).wf(),
        ensures
            final(self).wf(),
            r@ == session_closed_event(r.time@, session_id@, reason@),
            final(self).model() == after_session_closed(old(self).model(), r.time@, session_id@, reason@),
    {
        let time = now_rfc3339();
        let redacted = redact_reason(reason.as_str());
        let event = HostEvent {
            time: time.clone(),
            kind: HostEventKind::SessionClosed,
            request_id: None,
            session_id: Some(session_id.clone()),
            command: None,
            status: Some(owned("closed")),
            summary: Some(redacted.clone()),
        };
        self.snapshot.session.active_session_id = None;
        self.snapshot.session.controller_label = None;
        self.snapshot.session.opened_at = None;
        self.snapshot.session.last_closed_at = Some(time.clone());
        self.snapshot.session.last_close_reason = Some(redacted);
        let ghost mid = self.snapshot@;
        mark_session_tasks_closed(&mut self.snapshot, session_id.as_str(), time.as_str(), "session_closed");
        proof {
            reveal_strlit("session_closed");
            lemma_same_ids_commands(mid.commands, self.snapshot@.commands);
            lemma_same_ids_transfers(mid.transfers, self.snapshot@.transfers);
            lemma_same_ids_tunnels(mid.tunnels, self.snapshot@.tunnels);
        }
        log_into(&mut self.snapshot, event.clone());
        event
    }

    /// A command began running.
    pub fn record_command_started(&mut self, request_id: String, session_id: Option<String>, command: String) -> (r: HostEvent)
        requires
            old(self).wf(),
        ensures
            final(self).wf(),
            r@ == command_started_event(r.time@, request_id@, opt_chars(session_id), command@),
            final(self).model() == after_command_started(old(self).model(), r.time@, request_id@, opt_chars(session_id), command@),
    {
        let time = now_rfc3339();
        let mut summary = owned("command=");
        summary.append(command.as_str());
        let event = HostEvent {
            time: time.clone(),
            kind: HostEventKind::CommandStarted,
            request_id: Some(request_id.clone()),
            session_id: clone_opt(&session_id),
            command: Some(command.clone()),
            status: Some(owned("running")),
            summary: Some(summary),
        };
        let task = HostCommandTaskSnapshot {
            request_id,
            session_id,
            command,
            status: HostTaskStatus::Running,
            started_at: time,
            finished_at: None,
            result: None,
            duration_ms: None,
            summary: None,
        };
        proof {
            lemma_upsert_command(self.snapshot@.commands, task@);
        }
        upsert_command(&mut self.snapshot, task);
        log_into(&mut self.snapshot, event.clone());
        event
    }

    /// A command finished with `status` after `duration_ms`; failures and
    /// cancellations are also recorded as errors.
    pub fn record_command_completed(
        &mut self,
        request_id: String,
        session_id: Option<String>,
        command: String,
        status: HostTaskStatus,
        duration_ms: u64,
        result: String,
    ) -> (r: HostEvent)
        requires
            old(self).wf(),
        ensures
            final(self).wf(),
            r@ == command_completed_event(r.time@, request_id@, opt_chars(session_id), command@, status, result@),
            final(self).model() == after_command_completed(
                old(self).model(),
                r.time@,
                request_id@,
                opt_chars(session_id),
                command@,
                status,
                duration_ms,
                result@,
            ),
    {
        let time = now_rfc3339();
        let event = HostEvent {
            time: time.clone(),
            kind: HostEventKind::CommandCompleted,
            request_id: Some(request_id.clone()),
            session_id: clone_opt(&session_id),
            command: Some(command),
            status: Some(owned(task_status_str(status))),
            summary: Some(result.clone()),
        };
        match find_command(&self.snapshot.commands, request_id.as_str()) {
            Some(i) => {
                let ghost before = command_views(self.snapshot.commands@);
                let mut c = self.snapshot.commands[i].clone();
                c.status = status;
                c.finished_at = Some(time.clone());
                c.duration_ms = Some(duration_ms);
                c.result = Some(result.clone());
                let ghost cv = c@;
                self.snapshot.commands[i] = c;
                assert(command_views(self.snapshot.commands@) =~= before.update(i as int, cv));
                proof {
                    lemma_same_ids_commands(before, before.update(i as int, cv));
                }
            },
            None => {},
        }
        if status == HostTaskStatus::Failed || status == HostTaskStatus::Cancelled {
            let mut summary = owned("command ");
            summary.append(result.as_str());
            push_error(
                &mut self.snapshot,
                HostErrorSnapshot { at: time, summary, request_id: Some(request_id), session_id },
            );
        }
        log_into(&mut self.snapshot, event.clone());
        event
    }

    /// Cancellation was asked for the command or transfer with this request id.
    pub fn record_cancel_requested(&mut self, request_id: String, session_id: Option<String>) -> (r: HostEvent)
        requires
            old(self).wf(),
        ensures
            final(self).wf(),
            r@ == cancel_requested_event(r.time@, request_id@, opt_chars(session_id)),
            final(self).model() == after_cancel_requested(old(self).model(), r.time@, request_id@, opt_chars(session_id)),
    {
        let time = now_rfc3339();
        let event = HostEvent {
            time: time.clone(),
            kind: HostEventKind::CommandCancelRequested,
            request_id: Some(request_id.clone()),
            session_id,
            command: None,
            status: Some(owned("cancel_requested")),
            summary: Some(owned("cancel requested")),
        };
        match find_command(&self.snapshot.commands, request_id.as_str()) {
            Some(i) => {
                let ghost before = command_views(self.snapshot.commands@);
                let mut c = self.snapshot.commands[i].clone();
                c.status = HostTaskStatus::Cancelled;
                c.finished_at = Some(time.clone());
                c.result = Some(owned("cancel_requested"));
                let ghost cv = c@;
                self.snapshot.commands[i] = c;
                assert(command_views(self.snapshot.commands@) =~= before.update(i as int, cv));
                proof {
                    lemma_same_ids_commands(before, before.update(i as int, cv));
                }
            },
            None => {},
        }
        match find_transfer(&self.snapshot.transfers, request_id.as_str()) {
            Some(i) => {
                let ghost before = transfer_views(self.snapshot.transfers@);
                let mut t = self.snapshot.transfers[i].clone();
                t.status = HostTaskStatus::Cancelled;
                t.finished_at = Some(time);
                t.result = Some(owned("cancel_requested"));
                let ghost tv = t@;
                self.snapshot.transfers[i] = t;
                assert(transfer_views(self.snapshot.transfers@) =~= before.update(i as int, tv));
                proof {
                    lemma_same_ids_transfers(before, before.update(i as int, tv));
                }
            },
            None => {},
        }
        log_into(&mut self.snapshot, event.clone());
        event
    }

    /// A transfer began.
    pub fn record_transfer_started(
        &mut self,
        request_id: String,
        session_id: Option<String>,
        direction: HostTransferDirection,
        size: Option<u64>,
    ) -> (r: HostEvent)
        requires
            old(self).wf(),
        ensures
            final(self).wf(),
            r@ == transfer_started_event(r.time@, request_id@, opt_chars(session_id), direction, size),
            final(self).model() == after_transfer_started(old(self).model(), r.time@, request_id@, opt_chars(session_id), direction, size),
    {
        let time = now_rfc3339();
        let command = match direction {
            HostTransferDirection::Upload => owned("upload.begin"),
            HostTransferDirection::Download => owned("download.begin"),
        };
        let event = HostEvent {
            time: time.clone(),
            kind: HostEventKind::TransferStarted,
            request_id: Some(request_id.clone()),
            session_id: clone_opt(&session_id),
            command: Some(command),
            status: Some(owned("running")),
            summary: Some(transfer_summary(direction, size)),
        };
        let task = HostTransferTaskSnapshot {
            request_id,
            session_id,
            direction,
            status: HostTaskStatus::Running,
            started_at: time,
            finished_at: None,
            size,
            bytes_transferred: 0,
            result: None,
            summary: None,
        };
        proof {
            lemma_upsert_transfer(self.snapshot@.transfers, task@);
        }
        upsert_transfer(&mut self.snapshot, task);
        log_into(&mut self.snapshot, event.clone());
        event
    }

    /// A transfer has moved `bytes_transferred` bytes so far.
    pub fn record_transfer_progress(&mut self, request_id: String, session_id: Option<String>, bytes_transferred: u64) -> (r: HostEvent)
        requires
            old(self).wf(),
        ensures
            final(self).wf(),
            r@ == transfer_progress_event(r.time@, request_id@, opt_chars(session_id), bytes_transferred),
            final(self).model() == after_transfer_progress(old(self).model(), r.time@, request_id@, opt_chars(session_id), bytes_transferred),
    {
        let time = now_rfc3339();
        let mut summary = owned("bytes=");
        push_decimal(&mut summary, bytes_transferred);
        let event = HostEvent {
            time,
            kind: HostEventKind::TransferProgress,
            request_id: Some(request_id.clone()),
            session_id,
            command: None,
            status: Some(owned("running")),
            summary: Some(summary),
        };
        match find_transfer(&self.snapshot.transfers, request_id.as_str()) {
            Some(i) => {
                let ghost before = transfer_views(self.snapshot.transfers@);
                let mut t = self.snapshot.transfers[i].clone();
                t.bytes_transferred = bytes_transferred;
                let ghost tv = t@;
                self.snapshot.transfers[i] = t;
                assert(transfer_views(self.snapshot.transfers@) =~= before.update(i as int, tv));
                proof {
                    lemma_same_ids_transfers(before, before.update(i as int, tv));
                }
            },
            None => {},
        }
        log_into(&mut self.snapshot, event.clone());
        event
    }

    /// A transfer finished with `status`; failures and cancellations are also
    /// recorded as errors.
    pub fn record_transfer_completed(
        &mut self,
        request_id: String,
        session_id: Option<String>,
        status: HostTaskStatus,
        bytes_transferred: Option<u64>,
        result: String,
    ) -> (r: HostEvent)
        requires
            old(self).wf(),
        ensures
            final(self).wf(),
            r@ == transfer_completed_event(r.time@, request_id@, opt_chars(session_id), status, result@),
            final(self).model() == after_transfer_completed(
                old(self).model(),
                r.time@,
                request_id@,
                opt_chars(session_id),
                status,
                bytes_transferred,
                result@,
            ),
    {
        let time = now_rfc3339();
        let event = HostEvent {
            time: time.clone(),
            kind: HostEventKind::TransferCompleted,
            request_id: Some(request_id.clone()),
            session_id: clone_opt(&session_id),
            command: None,
            status: Some(owned(task_status_str(status))),
            summary: Some(result.clone()),
        };
        match find_transfer(&self.snapshot.transfers, request_id.as_str()) {
            Some(i) => {
                let ghost before = transfer_views(self.snapshot.transfers@);
                let mut t = self.snapshot.transfers[i].clone();
                t.status = status;
                t.finished_at = Some(time.clone());
                t.result = Some(result.clone());
                if let Some(bytes) = bytes_transferred {
                    t.bytes_transferred = bytes;
                }
                let ghost tv = t@;
                self.snapshot.transfers[i] = t;
                assert(transfer_views(self.snapshot.transfers@) =~= before.update(i as int, tv));
                proof {
                    lemma_same_ids_transfers(before, before.update(i as int, tv));
                }
            },
            None => {},
        }
        if status == HostTaskStatus::Failed || status == HostTaskStatus::Cancelled {
            let mut summary = owned("transfer ");
            summary.append(result.as_str());
            push_error(
                &mut self.snapshot,
                HostErrorSnapshot { at: time, summary, request_id: Some(request_id), session_id },
            );
        }
        log_into(&mut self.snapshot, event.clone());
        event
    }

    /// A tunnel was opened (or its record refreshed); the tunnel history is then
    /// trimmed, never dropping this tunnel.
    pub fn record_tunnel_opened(&mut self, info: TunnelInfo) -> (r: HostEvent)
        requires
            old(self).wf(),
        ensures
            final(self).wf(),
            ({
                let t = tunnel_snapshot_view(info);
                &&& r@ == tunnel_opened_event(r.time@, t)
                &&& final(self).model() == after_tunnel_opened(old(self).model(), r.time@, t)
            }),
    {
        let time = now_rfc3339();
        let snapshot = HostTunnelSnapshot::from_info(info);
        let tunnel_id = snapshot.tunnel_id.clone();
        let mut summary = owned("tunnel direction=");
        match snapshot.direction {
            TunnelDirection::Local => summary.append("local"),
            TunnelDirection::Remote => summary.append("remote"),
        }
        let event = HostEvent {
            time,
            kind: HostEventKind::TunnelOpened,
            request_id: None,
            session_id: clone_opt(&snapshot.session_id),
            command: None,
            status: Some(owned("active")),
            summary: Some(summary),
        };
        let ghost tv = snapshot@;
        proof {
            lemma_upsert_tunnel(self.snapshot@.tunnels, tv);
        }
        upsert_tunnel(&mut self.snapshot, snapshot);
        log_into(&mut self.snapshot, event.clone());
        proof {
            let u = self.snapshot@.tunnels;
            lemma_trim_tunnels(u, 0, tunnel_id@, TUNNEL_HISTORY_LIMIT as nat);
        }
        trim_tunnel_history(&mut self.snapshot, tunnel_id.as_str());
        event
    }

    /// A tunnel was closed, for `reason` if one is given.
    pub fn record_tunnel_closed(&mut self, tunnel_id: String, session_id: Option<String>, reason: Option<String>) -> (r: HostEvent)
        requires
            old(self).wf(),
        ensures
            final(self).wf(),
            r@ == tunnel_closed_event(r.time@, opt_chars(session_id), opt_chars(reason)),
            final(self).model() == after_tunnel_closed(old(self).model(), r.time@, tunnel_id@, opt_chars(session_id), opt_chars(reason)),
    {
        let time = now_rfc3339();
        let summary = match &reason {
            Some(text) => redact_reason(text.as_str()),
            None => owned("closed"),
        };
        let event = HostEvent {
            time: time.clone(),
            kind: HostEventKind::TunnelClosed,
            request_id: None,
            session_id,
            command: None,
            status: Some(owned("closed")),
            summary: Some(summary.clone()),
        };
        match find_tunnel(&self.snapshot.tunnels, tunnel_id.as_str()) {
            Some(i) => {
                let ghost before = tunnel_views(self.snapshot.tunnels@);
                let mut t = self.snapshot.tunnels[i].clone();
                t.status = TunnelStatus::Closed;
                t.last_activity_at = time;
                t.close_reason = Some(summary);
                let ghost tv = t@;
                self.snapshot.tunnels[i] = t;
                assert(tunnel_views(self.snapshot.tunnels@) =~= before.update(i as int, tv));
                proof {
                    lemma_same_ids_tunnels(before, before.update(i as int, tv));
                }
            },
            None => {},
        }
        log_into(&mut self.snapshot, event.clone());
        event
    }
}

/// The record a tunnel report becomes; an empty session id means no session.
pub open spec fn tunnel_snapshot_view(info: TunnelInfo) -> HostTunnelView {
    HostTunnelView {
        tunnel_id: info.tunnel_id@,
        session_id: if info.session_id@.len() == 0 { None } else { Some(info.session_id@) },
        direction: info.direction,
        listen_addr: info.listen_addr@,
        listen_port: info.listen_port,
        target_host: info.target_host@,
        target_port: info.target_port,
        status: info.status,
        opened_at: info.opened_at@,
        last_activity_at: info.last_activity_at@,
        active_streams: info.active_streams,
        total_streams: info.total_streams,
        close_reason: opt_chars(info.close_reason),
    }
}


/// Whether any message of an error's chain of causes mentions a cancelled command.
pub open spec fn mentions_cancel(causes: Seq<String>) -> bool {
    exists|i: int| 0 <= i < causes.len() && contains_seq(#[trigger] causes[i]@, "command cancelled"@)
}

/// The final status of a task: completed when it succeeded, cancelled when any
/// cause of its error mentions a cancelled command, failed otherwise.
pub fn task_status_for_result(ok: bool, causes: &Vec<String>) -> (r: HostTaskStatus)
    ensures
        r == (if ok {
            HostTaskStatus::Completed
        } else if mentions_cancel(causes@) {
            HostTaskStatus::Cancelled
        } else {
            HostTaskStatus::Failed
        }),
{
    if ok {
        return HostTaskStatus::Completed;
    }
    let mut i: usize = 0;
    while i < causes.len()
        invariant
            !ok,
            i <= causes@.len(),
            forall|j: int| 0 <= j < i ==> !contains_seq(#[trigger] causes@[j]@, "command cancelled"@),
        decreases causes@.len() - i,
    {
        if contains_str(causes[i].as_str(), "command cancelled") {
            assert(contains_seq(causes@[i as int]@, "command cancelled"@));
            return HostTaskStatus::Cancelled;
        }
        i = i + 1;
    }
    HostTaskStatus::Failed
}

/// Closing a session leaves none of its commands or transfers running and none
/// of its tunnels active.
pub proof fn lemma_session_close_ends_its_tasks(m: HostSnapshotView, time: Seq<char>, session_id: Seq<char>, reason: Seq<char>)
    ensures
        ({
            let a = after_session_closed(m, time, session_id, reason);
            &&& a.session.active_session_id is None
            &&& forall|i: int|
                0 <= i < a.commands.len() && #[trigger] a.commands[i].session_id == Some(session_id)
                    ==> a.commands[i].status != HostTaskStatus::Running
            &&& forall|i: int|
                0 <= i < a.transfers.len() && #[trigger] a.transfers[i].session_id == Some(session_id)
                    ==> a.transfers[i].status != HostTaskStatus::Running
            &&& forall|i: int|
                0 <= i < a.tunnels.len() && #[trigger] a.tunnels[i].session_id == Some(session_id)
                    ==> a.tunnels[i].status != TunnelStatus::Active
            &&& a.commands.len() == m.commands.len()
            &&& a.transfers.len() == m.transfers.len()
            &&& a.tunnels.len() == m.tunnels.len()
        }),
{
}

/// Every recorded change logs its event as the newest entry of the event log.
pub proof fn lemma_event_is_newest(m: HostSnapshotView, e: HostEventView)
    ensures
        log_event(m, e).events.len() > 0,
        log_event(m, e).events.last() == e,
        log_event(m, e).events.len() <= EVENT_HISTORY_LIMIT,
{
    let p = m.events.push(e);
    if p.len() > EVENT_HISTORY_LIMIT {
        assert(p.skip(p.len() - EVENT_HISTORY_LIMIT).last() == p.last());
    }
}

/// A command that was started and then completed is found under its request
/// id with the completion's status, duration and result.
pub proof fn lemma_command_lifecycle(
    m: HostSnapshotView,
    t1: Seq<char>,
    t2: Seq<char>,
    request_id: Seq<char>,
    session_id: Option<Seq<char>>,
    command: Seq<char>,
    status: HostTaskStatus,
    duration_ms: u64,
    result: Seq<char>,
)
    requires
        wf_view(m),
    ensures
        ({
            let a = after_command_completed(
                after_command_started(m, t1, request_id, session_id, command),
                t2,
                request_id,
                session_id,
                command,
                status,
                duration_ms,
                result,
            );
            match command_pos(a.commands, request_id) {
                Some(i) => {
                    &&& a.commands[i].status == status
                    &&& a.commands[i].duration_ms == Some(duration_ms)
                    &&& a.commands[i].result == Some(result)
                    &&& a.commands[i].command == command
                    &&& a.commands[i].finished_at == Some(t2)
                },
                None => false,
            }
        }),
{
    let c = HostCommandTaskView {
        request_id,
        session_id,
        command,
        status: HostTaskStatus::Running,
        started_at: t1,
        finished_at: None,
        result: None,
        duration_ms: None,
        summary: None,
    };
    let m1 = after_command_started(m, t1, request_id, session_id, command);
    lemma_upsert_command(m.commands, c);
    let u = upsert_command_spec(m.commands, c);
    assert(m1.commands == u);
    let j: int = match command_pos(m.commands, request_id) {
        Some(i) => i,
        None => u.len() - 1,
    };
    match command_pos(m.commands, request_id) {
        Some(i) => {
            assert(u[i] == c);
        },
        None => {
            let p = m.commands.push(c);
            assert(p.last() == c);
            if p.len() > TASK_HISTORY_LIMIT {
                assert(u[u.len() - 1] == p[p.len() - 1]);
            }
        },
    }
    assert(0 <= j < u.len() && u[j] == c);
    lemma_unique_commands_pos(u, j);
    let c2 = HostCommandTaskView {
        status,
        finished_at: Some(t2),
        duration_ms: Some(duration_ms),
        result: Some(result),
        ..c
    };
    let u2 = u.update(j, c2);
    lemma_same_ids_commands(u, u2);
    assert(u2[j] == c2);
    lemma_unique_commands_pos(u2, j);
}

/// Opening a tunnel keeps it in the history, however full the history was.
pub proof fn lemma_opened_tunnel_is_kept(m: HostSnapshotView, time: Seq<char>, t: HostTunnelView)
    requires
        wf_view(m),
    ensures
        exists|k: int|
            0 <= k < after_tunnel_opened(m, time, t).tunnels.len() && #[trigger] after_tunnel_opened(m, time, t).tunnels[k] == t,
        wf_view(after_tunnel_opened(m, time, t)),
{
    let u = upsert_tunnel_spec(m.tunnels, t);
    lemma_upsert_tunnel(m.tunnels, t);
    let j = choose|j: int| 0 <= j < u.len() && #[trigger] u[j] == t;
    lemma_trim_tunnels(u, 0, t.tunnel_id, TUNNEL_HISTORY_LIMIT as nat);
    let e = tunnel_opened_event(time, t);
    lemma_event_is_newest(HostSnapshotView { tunnels: u, ..m }, e);
    assert(u[j].tunnel_id == t.tunnel_id);
    let r = trim_tunnels_spec(u, 0, t.tunnel_id, TUNNEL_HISTORY_LIMIT as nat);
    assert(after_tunnel_opened(m, time, t).tunnels == r);
    assert(exists|k: int| 0 <= k < r.len() && #[trigger] r[k] == u[j]);
}

} // verus!

