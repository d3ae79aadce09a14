use vstd::prelude::*;

verus! {

/// Version of the JSON wire protocol spoken between hosts, relay and controllers.
pub const PROTOCOL_VERSION: u16 = 2;

/// Message type names of the JSON wire protocol.
pub const TYPE_HOST_HELLO: &'static str = "host.hello";
pub const TYPE_HOST_HELLO_ACK: &'static str = "host.hello_ack";
pub const TYPE_HOST_AUTH_REQUEST: &'static str = "host.auth_request";
pub const TYPE_HOST_AUTH_RESULT: &'static str = "host.auth_result";
pub const TYPE_HOST_SESSION_OPENED: &'static str = "host.session_opened";
pub const TYPE_HOST_SESSION_CLOSED: &'static str = "host.session_closed";
pub const TYPE_CONTROL_OPEN: &'static str = "control.open";
pub const TYPE_CONTROL_OPEN_RESULT: &'static str = "control.open_result";
pub const TYPE_SESSION_STATUS: &'static str = "session.status";
pub const TYPE_SESSION_STATUS_RESULT: &'static str = "session.status_result";
pub const TYPE_SESSION_CLOSE: &'static str = "session.close";
pub const TYPE_SESSION_CLOSE_RESULT: &'static str = "session.close_result";
pub const TYPE_COMMAND_REQUEST: &'static str = "command.request";
pub const TYPE_COMMAND_OUTPUT: &'static str = "command.output";
pub const TYPE_COMMAND_COMPLETE: &'static str = "command.complete";
pub const TYPE_COMMAND_CANCEL: &'static str = "command.cancel";
pub const TYPE_COMMAND_CANCEL_RESULT: &'static str = "command.cancel_result";
pub const TYPE_UPLOAD_COMPLETE: &'static str = "upload.complete";
pub const TYPE_DOWNLOAD_COMPLETE: &'static str = "download.complete";
pub const TYPE_ERROR: &'static str = "error";
pub const TYPE_HOST_SESSION_CLOSE: &'static str = "host.session_close";
pub const TYPE_HOST_SESSION_CLOSE_RESULT: &'static str = "host.session_close_result";
pub const TYPE_COMMAND_START: &'static str = "command.start";
pub const TYPE_COMMAND_START_RESULT: &'static str = "command.start_result";
pub const TYPE_COMMAND_STATUS: &'static str = "command.status";
pub const TYPE_COMMAND_STATUS_RESULT: &'static str = "command.status_result";
pub const TYPE_TUNNEL_OPEN: &'static str = "tunnel.open";
pub const TYPE_TUNNEL_OPEN_RESULT: &'static str = "tunnel.open_result";
pub const TYPE_TUNNEL_CLOSE: &'static str = "tunnel.close";
pub const TYPE_TUNNEL_CLOSE_RESULT: &'static str = "tunnel.close_result";
pub const TYPE_TUNNEL_STATUS: &'static str = "tunnel.status";
pub const TYPE_TUNNEL_STATUS_RESULT: &'static str = "tunnel.status_result";
pub const TYPE_TUNNEL_STREAM_OPEN: &'static str = "tunnel.stream_open";
pub const TYPE_TUNNEL_STREAM_OPEN_RESULT: &'static str = "tunnel.stream_open_result";
pub const TYPE_TUNNEL_STREAM_EOF: &'static str = "tunnel.stream_eof";
pub const TYPE_TUNNEL_STREAM_RESET: &'static str = "tunnel.stream_reset";

/// Command names carried in `command.request` payloads.
pub const COMMAND_EXEC: &'static str = "exec";
pub const COMMAND_UPLOAD_BEGIN: &'static str = "upload.begin";
pub const COMMAND_DOWNLOAD_BEGIN: &'static str = "download.begin";
pub const COMMAND_SCREENSHOT: &'static str = "screenshot";
pub const COMMAND_WINDOWS: &'static str = "windows";
pub const COMMAND_MOUSE_MOVE: &'static str = "mouse.move";
pub const COMMAND_MOUSE_CLICK: &'static str = "mouse.click";
pub const COMMAND_MOUSE_SCROLL: &'static str = "mouse.scroll";
pub const COMMAND_KEYBOARD_TYPE: &'static str = "keyboard.type";
pub const COMMAND_KEYBOARD_KEY: &'static str = "keyboard.key";

/// Screenshot format accepted by hosts.
pub const DEFAULT_SCREENSHOT_FORMAT: &'static str = "png";
/// Upper bound, in UTF-8 bytes, on output the relay keeps per stream of a detached exec job.
pub const MAX_CAPTURED_OUTPUT_BYTES: usize = 1048576;
/// Idle timeout applied to tunnels that do not request one.
pub const DEFAULT_TUNNEL_IDLE_TIMEOUT_MS: u64 = 300000;

/// Error codes carried by `error` messages and failed results.
#[derive(Debug, Clone, Copy, PartialEq, Eq, Structural)]
pub enum ErrorCode {
    InvalidToken,
    HostNotFound,
    HostBusy,
    InvalidTotp,
    InvalidTotpPeriod,
    SessionExpired,
    HostDisconnected,
    RequestTimeout,
    CommandFailed,
    UnsupportedCommand,
    InvalidPath,
    ChecksumMismatch,
    PermissionDenied,
    Cancelled,
    InternalError,
}

/// The human readable message attached to each error code.
pub open spec fn error_code_message(code: ErrorCode) -> Seq<char> {
    match code {
        ErrorCode::InvalidToken => "control token is invalid"@,
        ErrorCode::HostNotFound => "host is not online"@,
        ErrorCode::HostBusy => "host already has an active session"@,
        ErrorCode::InvalidTotp => "TOTP is invalid or expired"@,
        ErrorCode::InvalidTotpPeriod => "TOTP period does not match the host"@,
        ErrorCode::SessionExpired => "session is expired or invalid"@,
        ErrorCode::HostDisconnected => "host disconnected"@,
        ErrorCode::RequestTimeout => "request timed out"@,
        ErrorCode::CommandFailed => "command failed"@,
        ErrorCode::UnsupportedCommand => "command is unsupported"@,
        ErrorCode::InvalidPath => "path is invalid"@,
        ErrorCode::ChecksumMismatch => "checksum mismatch"@,
        ErrorCode::PermissionDenied => "permission denied"@,
        ErrorCode::Cancelled => "request cancelled"@,
        ErrorCode::InternalError => "internal error"@,
    }
}

impl ErrorCode {
    pub fn message(self) -> (r: &'static str)
        ensures
            r@ == error_code_message(self),
    {
        match self {
            ErrorCode::InvalidToken => "control token is invalid",
            ErrorCode::HostNotFound => "host is not online",
            ErrorCode::HostBusy => "host already has an active session",
            ErrorCode::InvalidTotp => "TOTP is invalid or expired",
            ErrorCode::InvalidTotpPeriod => "TOTP period does not match the host",
            ErrorCode::SessionExpired => "session is expired or invalid",
            ErrorCode::HostDisconnected => "host disconnected",
            ErrorCode::RequestTimeout => "request timed out",
            ErrorCode::CommandFailed => "command failed",
            ErrorCode::UnsupportedCommand => "command is unsupported",
            ErrorCode::InvalidPath => "path is invalid",
            ErrorCode::ChecksumMismatch => "checksum mismatch",
            ErrorCode::PermissionDenied => "permission denied",
            ErrorCode::Cancelled => "request cancelled",
            ErrorCode::InternalError => "internal error",
        }
    }
}

/// Identity a host announces when it connects to the relay.
#[derive(Debug, Clone)]
pub struct HostHelloPayload {
    pub protocol_version: u16,
    pub host_version: String,
    pub host_id: String,
    pub machine_id: String,
    pub totp_period_seconds: u64,
    pub os: String,
    pub hostname_hash: String,
}

#[derive(Debug, Clone)]
pub struct HostHelloAckPayload {
    pub server_time: String,
    pub heartbeat_interval_ms: u64,
}

/// A controller's request to open a session with a host.
#[derive(Debug, Clone)]
pub struct ControlOpenPayload {
    pub protocol_version: u16,
    pub control_token: String,
    pub machine_id: String,
    pub host_id: Option<String>,
    pub totp: String,
    pub totp_period_seconds: u64,
    pub force_reconnect: bool,
}

#[derive(Debug, Clone)]
pub struct HostAuthRequestPayload {
    pub totp: String,
    pub controller_label: String,
}

#[derive(Debug, Clone)]
pub struct HostAuthResultPayload {
    pub ok: bool,
    pub code: Option<ErrorCode>,
    pub message: Option<String>,
}

#[derive(Debug, Clone)]
pub struct HostSessionOpenedPayload {
    pub session_id: String,
    pub controller_label: String,
}

/// A host's request to close one of its sessions.
#[derive(Debug, Clone)]
pub struct HostSessionClosePayload {
    pub session_id: String,
    pub reason: String,
}

#[derive(Debug, Clone)]
pub struct HostSessionClosedPayload {
    pub session_id: String,
    pub reason: String,
}

#[derive(Debug, Clone)]
pub struct ControlOpenResultPayload {
    pub ok: bool,
    pub session_id: String,
    pub session_token: String,
    pub host_id: String,
    pub machine_id: String,
}

#[derive(Debug, Clone)]
pub struct SessionStatusPayload {
    pub session_token: String,
}

#[derive(Debug, Clone)]
pub struct SessionStatusResultPayload {
    pub ok: bool,
    pub machine_id: String,
    pub host_online: bool,
    pub session_active: bool,
}

#[derive(Debug, Clone)]
pub struct SessionClosePayload {
    pub session_token: String,
}

#[derive(Debug, Clone)]
pub struct SessionCloseResultPayload {
    pub ok: bool,
    pub session_id: String,
}

#[derive(Debug, Clone)]
pub struct CommandOutputPayload {
    pub stream: String,
    pub data: String,
}

#[derive(Debug)]
pub struct CommandCompletePayload {
    pub ok: bool,
    pub exit_code: Option<i32>,
    pub duration_ms: u64,
    pub size: Option<u64>,
    pub sha256: Option<String>,
    pub summary: Option<String>,
}

#[derive(Debug)]
pub struct ErrorPayload {
    pub code: ErrorCode,
    pub message: String,
}

#[derive(Debug, Clone)]
pub struct CommandCancelPayload {
    pub session_token: String,
}

#[derive(Debug, Clone)]
pub struct CommandCancelResultPayload {
    pub ok: bool,
}

/// A controller's poll of a detached command.
#[derive(Debug, Clone)]
pub struct CommandStatusPayload {
    pub session_token: String,
    pub task_id: String,
}

/// A controller's request for its session's tunnels (one of them, when named).
#[derive(Debug, Clone)]
pub struct TunnelStatusPayload {
    pub session_token: String,
    pub tunnel_id: Option<String>,
}

/// A request to open a stream through a tunnel.
#[derive(Debug, Clone)]
pub struct TunnelStreamOpenPayload {
    pub tunnel_id: String,
    pub stream_id: String,
}

/// The answer to a request to open a tunnel stream.
#[derive(Debug, Clone)]
pub struct TunnelStreamOpenResultPayload {
    pub ok: bool,
    pub tunnel_id: String,
    pub stream_id: String,
}

/// One end of a tunnel stream finished or reset it.
#[derive(Debug, Clone)]
pub struct TunnelStreamControlPayload {
    pub tunnel_id: String,
    pub stream_id: String,
}

/// A controller's request to close one of its tunnels.
#[derive(Debug, Clone)]
pub struct TunnelClosePayload {
    pub session_token: String,
    pub tunnel_id: String,
}

#[derive(Debug, Clone)]
pub struct ExecArgs {
    pub program: String,
    pub argv: Vec<String>,
    pub cwd: Option<String>,
    pub timeout_ms: Option<u64>,
}

#[derive(Debug, Clone)]
pub struct UploadArgs {
    pub remote_path: String,
    pub overwrite: bool,
    pub sha256: String,
    pub size: u64,
}

#[derive(Debug, Clone)]
pub struct DownloadArgs {
    pub remote_path: String,
}

#[derive(Debug, Clone)]
pub struct ScreenshotArgs {
    pub display: Option<u32>,
    pub format: String,
}

#[derive(Debug, Clone)]
pub struct MouseMoveArgs {
    pub x: i32,
    pub y: i32,
}

#[derive(Debug, Clone)]
pub struct MouseClickArgs {
    pub x: i32,
    pub y: i32,
    pub button: String,
}

#[derive(Debug, Clone)]
pub struct MouseScrollArgs {
    pub delta: i32,
}

#[derive(Debug, Clone)]
pub struct KeyboardTypeArgs {
    pub text: String,
}

#[derive(Debug, Clone)]
pub struct KeyboardKeyArgs {
    pub key: String,
}

#[derive(Debug, Clone)]
pub struct RectInfo {
    pub left: i32,
    pub top: i32,
    pub right: i32,
    pub bottom: i32,
}

#[derive(Debug, Clone)]
pub struct WindowInfo {
    pub handle: String,
    pub title: String,
    pub process_id: u32,
    pub rect: RectInfo,
    pub visible: bool,
    pub focused: bool,
}

/// Which side of a tunnel listens: `Local` listens next to the controller and
/// connects out from the host, `Remote` listens on the host.
#[derive(Debug, Clone, Copy, PartialEq, Eq, Structural)]
pub enum TunnelDirection {
    Local,
    Remote,
}

/// The two peers a tunnel stream can be opened from.
#[derive(Debug, Clone, Copy, PartialEq, Eq, Structural)]
pub enum TunnelEndpointSide {
    Controller,
    Host,
}

impl TunnelDirection {
    /// The side whose listener accepts incoming connections.
    pub open spec fn spec_local_side(self) -> TunnelEndpointSide {
        match self {
            TunnelDirection::Local => TunnelEndpointSide::Controller,
            TunnelDirection::Remote => TunnelEndpointSide::Host,
        }
    }

    /// The side that dials the tunnel's target.
    pub open spec fn spec_target_side(self) -> TunnelEndpointSide {
        match self {
            TunnelDirection::Local => TunnelEndpointSide::Host,
            TunnelDirection::Remote => TunnelEndpointSide::Controller,
        }
    }

    pub fn local_endpoint_side(self) -> (r: TunnelEndpointSide)
        ensures
            r == self.spec_local_side(),
    {
        match self {
            TunnelDirection::Local => TunnelEndpointSide::Controller,
            TunnelDirection::Remote => TunnelEndpointSide::Host,
        }
    }

    pub fn target_endpoint_side(self) -> (r: TunnelEndpointSide)
        ensures
            r == self.spec_target_side(),
    {
        match self {
            TunnelDirection::Local => TunnelEndpointSide::Host,
            TunnelDirection::Remote => TunnelEndpointSide::Controller,
        }
    }
}

#[derive(Debug, Clone, Copy, PartialEq, Eq, Structural)]
pub enum TunnelStatus {
    Opening,
    Active,
    Closed,
    Failed,
}

/// Public description of a tunnel as reported to controllers and hosts.
#[derive(Debug)]
pub struct TunnelInfo {
    pub tunnel_id: String,
    pub session_id: String,
    pub direction: TunnelDirection,
    pub listen_addr: String,
    pub listen_port: u16,
    pub target_host: String,
    pub target_port: u16,
    pub status: TunnelStatus,
    pub opened_at: String,
    pub last_activity_at: String,
    pub idle_timeout_ms: u64,
    pub bytes_from_listener: u64,
    pub bytes_from_target: u64,
    pub active_streams: usize,
    pub total_streams: u64,
    pub close_reason: Option<String>,
}

/// A controller's request to open a TCP tunnel through the host.
#[derive(Debug, Clone)]
pub struct TunnelOpenPayload {
    pub session_token: String,
    pub tunnel_id: Option<String>,
    pub direction: TunnelDirection,
    pub listen_addr: String,
    pub listen_port: u16,
    pub target_host: String,
    pub target_port: u16,
    pub idle_timeout_ms: u64,
    pub allow_non_loopback_listen: bool,
    pub allow_non_loopback_target: bool,
}

/// Lifecycle of a relay-owned detached exec job.
#[derive(Debug, Clone, Copy, PartialEq, Eq, Structural)]
pub enum CommandTaskStatus {
    Running,
    Completed,
    Failed,
    Cancelled,
}

/// Snapshot of a detached exec job as returned by `command.status`.
#[derive(Debug)]
pub struct CommandStatusResultPayload {
    pub task_id: String,
    pub status: CommandTaskStatus,
    pub request_id: String,
    pub started_at: String,
    pub finished_at: Option<String>,
    pub stdout: String,
    pub stderr: String,
    pub stdout_truncated: bool,
    pub stderr_truncated: bool,
    pub complete: Option<CommandCompletePayload>,
    pub error: Option<ErrorPayload>,
}

fn clone_opt_text(o: &Option<String>) -> (r: Option<String>)
    ensures
        r == *o,
{
    match o {
        Some(s) => Some(s.clone()),
        None => None,
    }
}

impl Clone for CommandCompletePayload {
    fn clone(&self) -> (r: Self)
        ensures
            r == *self,
    {
        CommandCompletePayload {
            ok: self.ok,
            exit_code: self.exit_code,
            duration_ms: self.duration_ms,
            size: self.size,
            sha256: clone_opt_text(&self.sha256),
            summary: clone_opt_text(&self.summary),
        }
    }
}

impl Clone for ErrorPayload {
    fn clone(&self) -> (r: Self)
        ensures
            r == *self,
    {
        ErrorPayload { code: self.code, message: self.message.clone() }
    }
}

impl Clone for TunnelInfo {
    fn clone(&self) -> (r: Self)
        ensures
            r == *self,
    {
        TunnelInfo {
            tunnel_id: self.tunnel_id.clone(),
            session_id: self.session_id.clone(),
            direction: self.direction,
            listen_addr: self.listen_addr.clone(),
            listen_port: self.listen_port,
            target_host: self.target_host.clone(),
            target_port: self.target_port,
            status: self.status,
            opened_at: self.opened_at.clone(),
            last_activity_at: self.last_activity_at.clone(),
            idle_timeout_ms: self.idle_timeout_ms,
            bytes_from_listener: self.bytes_from_listener,
            bytes_from_target: self.bytes_from_target,
            active_streams: self.active_streams,
            total_streams: self.total_streams,
            close_reason: clone_opt_text(&self.close_reason),
        }
    }
}

impl Clone for CommandStatusResultPayload {
    fn clone(&self) -> (r: Self)
        ensures
            r == *self,
    {
        CommandStatusResultPayload {
            task_id: self.task_id.clone(),
            status: self.status,
            request_id: self.request_id.clone(),
            started_at: self.started_at.clone(),
            finished_at: clone_opt_text(&self.finished_at),
            stdout: self.stdout.clone(),
            stderr: self.stderr.clone(),
            stdout_truncated: self.stdout_truncated,
            stderr_truncated: self.stderr_truncated,
            complete: match &self.complete {
                Some(c) => Some(c.clone()),
                None => None,
            },
            error: match &self.error {
                Some(e) => Some(e.clone()),
                None => None,
            },
        }
    }
}

} // verus!
