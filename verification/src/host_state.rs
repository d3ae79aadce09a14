use vstd::prelude::*;
use crate::protocol::{TunnelDirection, TunnelInfo, TunnelStatus};
use crate::text::{owned, str_eq};

verus! {

pub const AUTH_HISTORY_LIMIT: usize = 50;
pub const TASK_HISTORY_LIMIT: usize = 100;
pub const TUNNEL_HISTORY_LIMIT: usize = 100;
pub const RECENT_ERROR_LIMIT: usize = 50;
pub const EVENT_HISTORY_LIMIT: usize = 200;

/// State of the host's connection to the relay.
#[derive(Debug, Clone, Copy, PartialEq, Eq, Structural)]
pub enum HostListenerStatus {
    Stopped,
    Connecting,
    Connected,
    Reconnecting,
    Stopping,
    Error,
}

#[derive(Debug, Clone, Copy, PartialEq, Eq, Structural)]
pub enum HostTaskStatus {
    Running,
    Completed,
    Failed,
    Cancelled,
}

#[derive(Debug, Clone, Copy, PartialEq, Eq, Structural)]
pub enum HostTransferDirection {
    Upload,
    Download,
}

#[derive(Debug, Clone, Copy, PartialEq, Eq, Structural)]
pub enum HostEventKind {
    ListenerStatusChanged,
    HostConnected,
    HostDisconnected,
    AuthRequested,
    SessionOpened,
    SessionClosed,
    CommandStarted,
    CommandCompleted,
    CommandCancelRequested,
    TransferStarted,
    TransferProgress,
    TransferCompleted,
    TunnelOpened,
    TunnelClosed,
    ErrorRecorded,
}

/// The lower-case name of a listener status.
pub open spec fn listener_status_name(s: HostListenerStatus) -> Seq<char> {
    match s {
        HostListenerStatus::Stopped => "stopped"@,
        HostListenerStatus::Connecting => "connecting"@,
        HostListenerStatus::Connected => "connected"@,
        HostListenerStatus::Reconnecting => "reconnecting"@,
        HostListenerStatus::Stopping => "stopping"@,
        HostListenerStatus::Error => "error"@,
    }
}

pub fn listener_status_str(s: HostListenerStatus) -> (r: &'static str)
    ensures
        r@ == listener_status_name(s),
{
    match s {
        HostListenerStatus::Stopped => "stopped",
        HostListenerStatus::Connecting => "connecting",
        HostListenerStatus::Connected => "connected",
        HostListenerStatus::Reconnecting => "reconnecting",
        HostListenerStatus::Stopping => "stopping",
        HostListenerStatus::Error => "error",
    }
}

/// The lower-case name of a task status.
pub open spec fn task_status_name(s: HostTaskStatus) -> Seq<char> {
    match s {
        HostTaskStatus::Running => "running"@,
        HostTaskStatus::Completed => "completed"@,
        HostTaskStatus::Failed => "failed"@,
        HostTaskStatus::Cancelled => "cancelled"@,
    }
}

pub fn task_status_str(status: HostTaskStatus) -> (r: &'static str)
    ensures
        r@ == task_status_name(status),
{
    match status {
        HostTaskStatus::Running => "running",
        HostTaskStatus::Completed => "completed",
        HostTaskStatus::Failed => "failed",
        HostTaskStatus::Cancelled => "cancelled",
    }
}

pub fn clone_opt(o: &Option<String>) -> (r: Option<String>)
    ensures
        r == *o,
{
    match o {
        Some(s) => Some(s.clone()),
        None => None,
    }
}

/// Something that happened on the host, as shown to the local operator.
pub struct HostEvent {
    pub time: String,
    pub kind: HostEventKind,
    pub request_id: Option<String>,
    pub session_id: Option<String>,
    pub command: Option<String>,
    pub status: Option<String>,
    pub summary: Option<String>,
}

impl Clone for HostEvent {
    fn clone(&self) -> (r: Self)
        ensures
            r == *self,
    {
        HostEvent {
            time: self.time.clone(),
            kind: self.kind,
            request_id: clone_opt(&self.request_id),
            session_id: clone_opt(&self.session_id),
            command: clone_opt(&self.command),
            status: clone_opt(&self.status),
            summary: clone_opt(&self.summary),
        }
    }
}

pub struct HostListenerSnapshot {
    pub status: HostListenerStatus,
    pub updated_at: String,
    pub last_error: Option<String>,
}

impl Clone for HostListenerSnapshot {
    fn clone(&self) -> (r: Self)
        ensures
            r == *self,
    {
        HostListenerSnapshot {
            status: self.status,
            updated_at: self.updated_at.clone(),
            last_error: clone_opt(&self.last_error),
        }
    }
}

pub struct HostTotpSnapshot {
    pub current_code: String,
    pub period_seconds: u64,
    pub remaining_seconds: u64,
}

pub struct HostPowerSnapshot {
    pub active: bool,
    pub warning: Option<String>,
}

impl Clone for HostPowerSnapshot {
    fn clone(&self) -> (r: Self)
        ensures
            r == *self,
    {
        HostPowerSnapshot { active: self.active, warning: clone_opt(&self.warning) }
    }
}

pub struct HostSessionSnapshot {
    pub active_session_id: Option<String>,
    pub controller_label: Option<String>,
    pub opened_at: Option<String>,
    pub last_closed_at: Option<String>,
    pub last_close_reason: Option<String>,
}

impl Clone for HostSessionSnapshot {
    fn clone(&self) -> (r: Self)
        ensures
            r == *self,
    {
        HostSessionSnapshot {
            active_session_id: clone_opt(&self.active_session_id),
            controller_label: clone_opt(&self.controller_label),
            opened_at: clone_opt(&self.opened_at),
            last_closed_at: clone_opt(&self.last_closed_at),
            last_close_reason: clone_opt(&self.last_close_reason),
        }
    }
}

pub struct HostAuthRequestSnapshot {
    pub request_id: String,
    pub controller_label: String,
    pub at: String,
    pub ok: bool,
}

impl Clone for HostAuthRequestSnapshot {
    fn clone(&self) -> (r: Self)
        ensures
            r == *self,
    {
        HostAuthRequestSnapshot {
            request_id: self.request_id.clone(),
            controller_label: self.controller_label.clone(),
            at: self.at.clone(),
            ok: self.ok,
        }
    }
}

pub struct HostCommandTaskSnapshot {
    pub request_id: String,
    pub session_id: Option<String>,
    pub command: String,
    pub status: HostTaskStatus,
    pub started_at: String,
    pub finished_at: Option<String>,
    pub result: Option<String>,
    pub duration_ms: Option<u64>,
    pub summary: Option<String>,
}

impl Clone for HostCommandTaskSnapshot {
    fn clone(&self) -> (r: Self)
        ensures
            r == *self,
    {
        HostCommandTaskSnapshot {
            request_id: self.request_id.clone(),
            session_id: clone_opt(&self.session_id),
            command: self.command.clone(),
            status: self.status,
            started_at: self.started_at.clone(),
            finished_at: clone_opt(&self.finished_at),
            result: clone_opt(&self.result),
            duration_ms: self.duration_ms,
            summary: clone_opt(&self.summary),
        }
    }
}

pub struct HostTransferTaskSnapshot {
    pub request_id: String,
    pub session_id: Option<String>,
    pub direction: HostTransferDirection,
    pub status: HostTaskStatus,
    pub started_at: String,
    pub finished_at: Option<String>,
    pub size: Option<u64>,
    pub bytes_transferred: u64,
    pub result: Option<String>,
    pub summary: Option<String>,
}

impl Clone for HostTransferTaskSnapshot {
    fn clone(&self) -> (r: Self)
        ensures
            r == *self,
    {
        HostTransferTaskSnapshot {
            request_id: self.request_id.clone(),
            session_id: clone_opt(&self.session_id),
            direction: self.direction,
            status: self.status,
            started_at: self.started_at.clone(),
            finished_at: clone_opt(&self.finished_at),
            size: self.size,
            bytes_transferred: self.bytes_transferred,
            result: clone_opt(&self.result),
            summary: clone_opt(&self.summary),
        }
    }
}

pub struct HostTunnelSnapshot {
    pub tunnel_id: String,
    pub session_id: Option<String>,
    pub direction: TunnelDirection,
    pub listen_addr: String,
    pub listen_port: u16,
    pub target_host: String,
    pub target_port: u16,
    pub status: TunnelStatus,
    pub opened_at: String,
    pub last_activity_at: String,
    pub active_streams: usize,
    pub total_streams: u64,
    pub close_reason: Option<String>,
}

impl Clone for HostTunnelSnapshot {
    fn clone(&self) -> (r: Self)
        ensures
            r == *self,
    {
        HostTunnelSnapshot {
            tunnel_id: self.tunnel_id.clone(),
            session_id: clone_opt(&self.session_id),
            direction: self.direction,
            listen_addr: self.listen_addr.clone(),
            listen_port: self.listen_port,
            target_host: self.target_host.clone(),
            target_port: self.target_port,
            status: self.status,
            opened_at: self.opened_at.clone(),
            last_activity_at: self.last_activity_at.clone(),
            active_streams: self.active_streams,
            total_streams: self.total_streams,
            close_reason: clone_opt(&self.close_reason),
        }
    }
}

impl HostTunnelSnapshot {
    /// The snapshot of a tunnel; an empty session id means no session.
    pub fn from_info(info: TunnelInfo) -> (r: HostTunnelSnapshot)
        ensures
            r.tunnel_id == info.tunnel_id,
            r.session_id == (if info.session_id@.len() == 0 { None } else { Some(info.session_id) }),
            r.direction == info.direction,
            r.listen_addr == info.listen_addr,
            r.listen_port == info.listen_port,
            r.target_host == info.target_host,
            r.target_port == info.target_port,
            r.status == info.status,
            r.opened_at == info.opened_at,
            r.last_activity_at == info.last_activity_at,
            r.active_streams == info.active_streams,
            r.total_streams == info.total_streams,
            r.close_reason == info.close_reason,
    {
        let empty = info.session_id.as_str().unicode_len() == 0;
        HostTunnelSnapshot {
            tunnel_id: info.tunnel_id,
            session_id: if empty { None } else { Some(info.session_id) },
            direction: info.direction,
            listen_addr: info.listen_addr,
            listen_port: info.listen_port,
            target_host: info.target_host,
            target_port: info.target_port,
            status: info.status,
            opened_at: info.opened_at,
            last_activity_at: info.last_activity_at,
            active_streams: info.active_streams,
            total_streams: info.total_streams,
            close_reason: info.close_reason,
        }
    }
}

pub struct HostErrorSnapshot {
    pub at: String,
    pub summary: String,
    pub request_id: Option<String>,
    pub session_id: Option<String>,
}

impl Clone for HostErrorSnapshot {
    fn clone(&self) -> (r: Self)
        ensures
            r == *self,
    {
        HostErrorSnapshot {
            at: self.at.clone(),
            summary: self.summary.clone(),
            request_id: clone_opt(&self.request_id),
            session_id: clone_opt(&self.session_id),
        }
    }
}

/// Everything the host's operator interface shows.
pub struct HostSnapshot {
    pub listener: HostListenerSnapshot,
    pub server_url: String,
    pub machine_id: String,
    pub host_id: String,
    pub totp: HostTotpSnapshot,
    pub power: HostPowerSnapshot,
    pub audit_path: String,
    pub session: HostSessionSnapshot,
    pub auth_requests: Vec<HostAuthRequestSnapshot>,
    pub commands: Vec<HostCommandTaskSnapshot>,
    pub transfers: Vec<HostTransferTaskSnapshot>,
    pub tunnels: Vec<HostTunnelSnapshot>,
    pub recent_errors: Vec<HostErrorSnapshot>,
    pub events: Vec<HostEvent>,
}

/// The host's fixed identity and settings, recorded in its state.
pub struct HostStateMetadata {
    pub server_url: String,
    pub machine_id: String,
    pub host_id: String,
    pub totp_period_seconds: u64,
    pub audit_path: String,
    pub power: HostPowerSnapshot,
}

} // verus!

verus! {

/// The last `limit` entries of `s` (all of them when there are fewer).
pub open spec fn trimmed<T>(s: Seq<T>, limit: nat) -> Seq<T> {
    if s.len() > limit { s.skip(s.len() - limit) } else { s }
}

/// Drops entries from the front of `v` until at most `limit` remain.
pub fn trim_vec<T>(v: &mut Vec<T>, limit: usize)
    ensures
        final(v)@ == trimmed(old(v)@, limit as nat),
{
    if v.len() <= limit {
        return;
    }
    let excess = v.len() - limit;
    let mut k: usize = 0;
    while k < excess
        invariant
            k <= excess,
            excess == old(v)@.len() - limit,
            v@ == old(v)@.skip(k as int),
        decreases excess - k,
    {
        v.remove(0);
        k = k + 1;
        assert(v@ =~= old(v)@.skip(k as int));
    }
}

/// A line break becomes a space and the text is cut to 256 characters plus `...`.
pub open spec fn redact_reason_spec(reason: Seq<char>) -> Seq<char> {
    let one_line = reason.map_values(|c: char| if c == '\n' { ' ' } else { c });
    if one_line.len() > 256 { one_line.subrange(0, 256) + "..."@ } else { one_line }
}

/// `label` cut to 128 characters plus `...`.
pub open spec fn compact_label_spec(label: Seq<char>) -> Seq<char> {
    if label.len() > 128 { label.subrange(0, 128) + "..."@ } else { label }
}

fn cut_chars(v: &Vec<char>, max: usize) -> (r: String)
    ensures
        r@ == (if v@.len() > max { v@.subrange(0, max as int) + "..."@ } else { v@ }),
{
    if v.len() > max {
        let mut r = crate::text::from_chars(crate::text::slice_chars(v, 0, max).as_slice());
        r.append("...");
        r
    } else {
        crate::text::from_chars(v.as_slice())
    }
}

/// A reason made single-line and bounded in length.
pub fn redact_reason(reason: &str) -> (r: String)
    ensures
        r@ == redact_reason_spec(reason@),
{
    let v = crate::text::to_chars(reason);
    let mut w: Vec<char> = Vec::new();
    let mut i: usize = 0;
    while i < v.len()
        invariant
            v@ == reason@,
            i <= v@.len(),
            w@ == v@.subrange(0, i as int).map_values(|c: char| if c == '\n' { ' ' } else { c }),
        decreases v@.len() - i,
    {
        let c = v[i];
        w.push(if c == '\n' { ' ' } else { c });
        i = i + 1;
        assert(w@ =~= v@.subrange(0, i as int).map_values(|c: char| if c == '\n' { ' ' } else { c }));
    }
    assert(v@.subrange(0, v@.len() as int) =~= v@);
    cut_chars(&w, 256)
}

/// A controller label bounded in length.
pub fn compact_label(label: &str) -> (r: String)
    ensures
        r@ == compact_label_spec(label@),
{
    let v = crate::text::to_chars(label);
    cut_chars(&v, 128)
}

/// `command=<name>`.
pub fn command_summary(command: &str) -> (r: String)
    ensures
        r@ == "command="@ + command@,
{
    let mut r = "command=".to_owned();
    r.append(command);
    r
}

/// `upload`/`download`, followed by ` size=<n>` when the size is known.
pub open spec fn transfer_summary_spec(direction: HostTransferDirection, size: Option<u64>) -> Seq<char> {
    let d = if direction == HostTransferDirection::Upload { "upload"@ } else { "download"@ };
    match size {
        Some(n) => d + " size="@ + crate::bytes::decimal(n as nat),
        None => d,
    }
}

pub fn transfer_summary(direction: HostTransferDirection, size: Option<u64>) -> (r: String)
    ensures
        r@ == transfer_summary_spec(direction, size),
{
    let mut r = match direction {
        HostTransferDirection::Upload => "upload".to_owned(),
        HostTransferDirection::Download => "download".to_owned(),
    };
    if let Some(n) = size {
        r.append(" size=");
        crate::bytes::push_decimal(&mut r, n);
    }
    r
}

} // verus!

verus! {

/// The characters of an optional text.
pub open spec fn opt_chars(o: Option<String>) -> Option<Seq<char>> {
    match o {
        Some(s) => Some(s@),
        None => None,
    }
}

pub struct HostEventView {
    pub time: Seq<char>,
    pub kind: HostEventKind,
    pub request_id: Option<Seq<char>>,
    pub session_id: Option<Seq<char>>,
    pub command: Option<Seq<char>>,
    pub status: Option<Seq<char>>,
    pub summary: Option<Seq<char>>,
}

impl View for HostEvent {
    type V = HostEventView;

    open spec fn view(&self) -> HostEventView {
        HostEventView {
            time: self.time@,
            kind: self.kind,
            request_id: opt_chars(self.request_id),
            session_id: opt_chars(self.session_id),
            command: opt_chars(self.command),
            status: opt_chars(self.status),
            summary: opt_chars(self.summary),
        }
    }
}

pub struct HostListenerView {
    pub status: HostListenerStatus,
    pub updated_at: Seq<char>,
    pub last_error: Option<Seq<char>>,
}

impl View for HostListenerSnapshot {
    type V = HostListenerView;

    open spec fn view(&self) -> HostListenerView {
        HostListenerView {
            status: self.status,
            updated_at: self.updated_at@,
            last_error: opt_chars(self.last_error),
        }
    }
}

pub struct HostTotpView {
    pub current_code: Seq<char>,
    pub period_seconds: u64,
    pub remaining_seconds: u64,
}

impl View for HostTotpSnapshot {
    type V = HostTotpView;

    open spec fn view(&self) -> HostTotpView {
        HostTotpView {
            current_code: self.current_code@,
            period_seconds: self.period_seconds,
            remaining_seconds: self.remaining_seconds,
        }
    }
}

pub struct HostPowerView {
    pub active: bool,
    pub warning: Option<Seq<char>>,
}

impl View for HostPowerSnapshot {
    type V = HostPowerView;

    open spec fn view(&self) -> HostPowerView {
        HostPowerView { active: self.active, warning: opt_chars(self.warning) }
    }
}

pub struct HostSessionView {
    pub active_session_id: Option<Seq<char>>,
    pub controller_label: Option<Seq<char>>,
    pub opened_at: Option<Seq<char>>,
    pub last_closed_at: Option<Seq<char>>,
    pub last_close_reason: Option<Seq<char>>,
}

impl View for HostSessionSnapshot {
    type V = HostSessionView;

    open spec fn view(&self) -> HostSessionView {
        HostSessionView {
            active_session_id: opt_chars(self.active_session_id),
            controller_label: opt_chars(self.controller_label),
            opened_at: opt_chars(self.opened_at),
            last_closed_at: opt_chars(self.last_closed_at),
            last_close_reason: opt_chars(self.last_close_reason),
        }
    }
}

pub struct HostAuthRequestView {
    pub request_id: Seq<char>,
    pub controller_label: Seq<char>,
    pub at: Seq<char>,
    pub ok: bool,
}

impl View for HostAuthRequestSnapshot {
    type V = HostAuthRequestView;

    open spec fn view(&self) -> HostAuthRequestView {
        HostAuthRequestView {
            request_id: self.request_id@,
            controller_label: self.controller_label@,
            at: self.at@,
            ok: self.ok,
        }
    }
}

pub struct HostCommandTaskView {
    pub request_id: Seq<char>,
    pub session_id: Option<Seq<char>>,
    pub command: Seq<char>,
    pub status: HostTaskStatus,
    pub started_at: Seq<char>,
    pub finished_at: Option<Seq<char>>,
    pub result: Option<Seq<char>>,
    pub duration_ms: Option<u64>,
    pub summary: Option<Seq<char>>,
}

impl View for HostCommandTaskSnapshot {
    type V = HostCommandTaskView;

    open spec fn view(&self) -> HostCommandTaskView {
        HostCommandTaskView {
            request_id: self.request_id@,
            session_id: opt_chars(self.session_id),
            command: self.command@,
            status: self.status,
            started_at: self.started_at@,
            finished_at: opt_chars(self.finished_at),
            result: opt_chars(self.result),
            duration_ms: self.duration_ms,
            summary: opt_chars(self.summary),
        }
    }
}

pub struct HostTransferTaskView {
    pub request_id: Seq<char>,
    pub session_id: Option<Seq<char>>,
    pub direction: HostTransferDirection,
    pub status: HostTaskStatus,
    pub started_at: Seq<char>,
    pub finished_at: Option<Seq<char>>,
    pub size: Option<u64>,
    pub bytes_transferred: u64,
    pub result: Option<Seq<char>>,
    pub summary: Option<Seq<char>>,
}

impl View for HostTransferTaskSnapshot {
    type V = HostTransferTaskView;

    open spec fn view(&self) -> HostTransferTaskView {
        HostTransferTaskView {
            request_id: self.request_id@,
            session_id: opt_chars(self.session_id),
            direction: self.direction,
            status: self.status,
            started_at: self.started_at@,
            finished_at: opt_chars(self.finished_at),
            size: self.size,
            bytes_transferred: self.bytes_transferred,
            result: opt_chars(self.result),
            summary: opt_chars(self.summary),
        }
    }
}

pub struct HostTunnelView {
    pub tunnel_id: Seq<char>,
    pub session_id: Option<Seq<char>>,
    pub direction: TunnelDirection,
    pub listen_addr: Seq<char>,
    pub listen_port: u16,
    pub target_host: Seq<char>,
    pub target_port: u16,
    pub status: TunnelStatus,
    pub opened_at: Seq<char>,
    pub last_activity_at: Seq<char>,
    pub active_streams: usize,
    pub total_streams: u64,
    pub close_reason: Option<Seq<char>>,
}

impl View for HostTunnelSnapshot {
    type V = HostTunnelView;

    open spec fn view(&self) -> HostTunnelView {
        HostTunnelView {
            tunnel_id: self.tunnel_id@,
            session_id: opt_chars(self.session_id),
            direction: self.direction,
            listen_addr: self.listen_addr@,
            listen_port: self.listen_port,
            target_host: self.target_host@,
            target_port: self.target_port,
            status: self.status,
            opened_at: self.opened_at@,
            last_activity_at: self.last_activity_at@,
            active_streams: self.active_streams,
            total_streams: self.total_streams,
            close_reason: opt_chars(self.close_reason),
        }
    }
}

pub struct HostErrorView {
    pub at: Seq<char>,
    pub summary: Seq<char>,
    pub request_id: Option<Seq<char>>,
    pub session_id: Option<Seq<char>>,
}

impl View for HostErrorSnapshot {
    type V = HostErrorView;

    open spec fn view(&self) -> HostErrorView {
        HostErrorView {
            at: self.at@,
            summary: self.summary@,
            request_id: opt_chars(self.request_id),
            session_id: opt_chars(self.session_id),
        }
    }
}

pub open spec fn auth_views(s: Seq<HostAuthRequestSnapshot>) -> Seq<HostAuthRequestView> {
    s.map_values(|a: HostAuthRequestSnapshot| a@)
}

pub open spec fn command_views(s: Seq<HostCommandTaskSnapshot>) -> Seq<HostCommandTaskView> {
    s.map_values(|c: HostCommandTaskSnapshot| c@)
}

pub open spec fn transfer_views(s: Seq<HostTransferTaskSnapshot>) -> Seq<HostTransferTaskView> {
    s.map_values(|t: HostTransferTaskSnapshot| t@)
}

pub open spec fn tunnel_views(s: Seq<HostTunnelSnapshot>) -> Seq<HostTunnelView> {
    s.map_values(|t: HostTunnelSnapshot| t@)
}

pub open spec fn error_views(s: Seq<HostErrorSnapshot>) -> Seq<HostErrorView> {
    s.map_values(|e: HostErrorSnapshot| e@)
}

pub open spec fn event_views(s: Seq<HostEvent>) -> Seq<HostEventView> {
    s.map_values(|e: HostEvent| e@)
}

/// The whole operator-facing state, as plain values.
pub struct HostSnapshotView {
    pub listener: HostListenerView,
    pub server_url: Seq<char>,
    pub machine_id: Seq<char>,
    pub host_id: Seq<char>,
    pub totp: HostTotpView,
    pub power: HostPowerView,
    pub audit_path: Seq<char>,
    pub session: HostSessionView,
    pub auth_requests: Seq<HostAuthRequestView>,
    pub commands: Seq<HostCommandTaskView>,
    pub transfers: Seq<HostTransferTaskView>,
    pub tunnels: Seq<HostTunnelView>,
    pub recent_errors: Seq<HostErrorView>,
    pub events: Seq<HostEventView>,
}

impl View for HostSnapshot {
    type V = HostSnapshotView;

    open spec fn view(&self) -> HostSnapshotView {
        HostSnapshotView {
            listener: self.listener@,
            server_url: self.server_url@,
            machine_id: self.machine_id@,
            host_id: self.host_id@,
            totp: self.totp@,
            power: self.power@,
            audit_path: self.audit_path@,
            session: self.session@,
            auth_requests: auth_views(self.auth_requests@),
            commands: command_views(self.commands@),
            transfers: transfer_views(self.transfers@),
            tunnels: tunnel_views(self.tunnels@),
            recent_errors: error_views(self.recent_errors@),
            events: event_views(self.events@),
        }
    }
}

} // verus!
