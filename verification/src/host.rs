use vstd::prelude::*;
use crate::bytes::{decimal, push_decimal};
use crate::config::{
    opt_view, resolve_server_url, resolve_server_url_spec, resolve_totp_period_seconds,
    resolve_totp_period_spec, ws_endpoint_spec, ws_endpoint_url,
};
use crate::error::{RcwError, RcwErrorKind, RcwResult};
use crate::host_state::{
    HostListenerStatus, HostPowerSnapshot, HostSnapshot, HostSnapshotView, HostStateMetadata,
    HostTotpSnapshot, HostTotpView,
};
use crate::ids::{new_host_id, short_machine_id, short_machine_id_spec};
use crate::protocol::WindowInfo;
use crate::state_handle::HostStateHandle;
use crate::text::owned;
use crate::totp::{current_code, hotp_code, random_seed, DEFAULT_TOTP_DIGITS};

verus! {

/// What the host was started with; every setting may be left to its default.
pub struct HostConfig {
    pub server: Option<String>,
    pub totp_period_seconds: Option<u64>,
    pub audit_log: Option<String>,
}

impl HostConfig {
    /// A configuration with every setting left to its default.
    pub fn new() -> (r: Self)
        ensures
            r.server is None,
            r.totp_period_seconds is None,
            r.audit_log is None,
    {
        HostConfig { server: None, totp_period_seconds: None, audit_log: None }
    }

    pub fn with_server(self, server: Option<String>) -> (r: Self)
        ensures
            r.server == server,
            r.totp_period_seconds == self.totp_period_seconds,
            r.audit_log == self.audit_log,
    {
        HostConfig { server, ..self }
    }

    pub fn with_totp_period_seconds(self, period: Option<u64>) -> (r: Self)
        ensures
            r.totp_period_seconds == period,
            r.server == self.server,
            r.audit_log == self.audit_log,
    {
        HostConfig { totp_period_seconds: period, ..self }
    }

    pub fn with_audit_log(self, audit_log: Option<String>) -> (r: Self)
        ensures
            r.audit_log == audit_log,
            r.server == self.server,
            r.totp_period_seconds == self.totp_period_seconds,
    {
        HostConfig { audit_log, ..self }
    }
}

/// What a controller needs to reach this host.
pub struct HostConnectionInfo {
    pub server_url: String,
    pub machine_id: String,
    pub host_id: String,
    pub totp: String,
    pub totp_period_seconds: u64,
}

/// The text put on the clipboard for the person asking for help.
pub open spec fn clipboard_text_spec(info: HostConnectionInfo) -> Seq<char> {
    "远程协助连接信息\n服务器："@ + info.server_url@ + "\n机器 ID："@ + info.machine_id@ + "\nHost ID："@
        + info.host_id@ + "\n验证码："@ + info.totp@ + "\n验证码有效期："@ + decimal(
        info.totp_period_seconds as nat,
    ) + " 秒\n"@
}

impl HostConnectionInfo {
    pub fn clipboard_text(&self) -> (r: String)
        ensures
            r@ == clipboard_text_spec(*self),
    {
        let mut r = owned("远程协助连接信息\n服务器：");
        r.append(self.server_url.as_str());
        r.append("\n机器 ID：");
        r.append(self.machine_id.as_str());
        r.append("\nHost ID：");
        r.append(self.host_id.as_str());
        r.append("\n验证码：");
        r.append(self.totp.as_str());
        r.append("\n验证码有效期：");
        push_decimal(&mut r, self.totp_period_seconds);
        r.append(" 秒\n");
        r
    }
}

/// The running host's identity, one-time-code secret and live state.
pub struct HostContext {
    pub server_url: String,
    pub host_id: String,
    pub machine_id: String,
    pub totp_seed: Vec<u8>,
    pub totp_period_seconds: u64,
    pub audit_path: String,
    pub state: HostStateHandle,
}

impl HostContext {
    /// The context agrees with its live state: the code period is set and the
    /// state shows this host's relay address, ids and audit log.
    pub open spec fn wf(&self) -> bool {
        &&& self.state.wf()
        &&& self.totp_period_seconds > 0
        &&& self.state.model().server_url == self.server_url@
        &&& self.state.model().machine_id == self.machine_id@
        &&& self.state.model().host_id == self.host_id@
        &&& self.state.model().audit_path == self.audit_path@
    }
}

/// The one-time code shown at `now`, or `000000` when no period is set.
pub open spec fn totp_at_spec(seed: Seq<u8>, period: u64, now: u64) -> Seq<char> {
    if period > 0 {
        hotp_code(seed, now / period, DEFAULT_TOTP_DIGITS as nat)
    } else {
        "000000"@
    }
}

/// Seconds until the code changes, never less than one.
pub open spec fn remaining_seconds_spec(period: u64, now: u64) -> u64 {
    let left = period - now % period;
    if left < 1 { 1 } else { left as u64 }
}

/// `std::time::SystemTime::now` as whole seconds since the Unix epoch (zero
/// for a clock set before it). Nothing is stated of the value, which is the clock's.
#[verifier::external_body]
pub fn unix_now() -> u64 {
    std::time::SystemTime::now().duration_since(std::time::UNIX_EPOCH).unwrap_or_default().as_secs()
}

impl HostContext {
    pub fn server_url(&self) -> (r: &str)
        ensures
            r@ == self.server_url@,
    {
        self.server_url.as_str()
    }

    pub fn host_id(&self) -> (r: &str)
        ensures
            r@ == self.host_id@,
    {
        self.host_id.as_str()
    }

    pub fn machine_id(&self) -> (r: &str)
        ensures
            r@ == self.machine_id@,
    {
        self.machine_id.as_str()
    }

    pub fn totp_period_seconds(&self) -> (r: u64)
        ensures
            r == self.totp_period_seconds,
    {
        self.totp_period_seconds
    }

    pub fn audit_path(&self) -> (r: &str)
        ensures
            r@ == self.audit_path@,
    {
        self.audit_path.as_str()
    }

    /// The one-time code for the window containing `now`.
    pub fn totp_at(&self, now: u64) -> (r: String)
        ensures
            r@ == totp_at_spec(self.totp_seed@, self.totp_period_seconds, now),
    {
        match current_code(self.totp_seed.as_slice(), self.totp_period_seconds, now) {
            Ok(code) => code,
            Err(_) => owned("000000"),
        }
    }

    /// The one-time code valid now.
    pub fn current_totp(&self) -> (r: String)
        ensures
            exists|now: u64| r@ == totp_at_spec(self.totp_seed@, self.totp_period_seconds, now),
    {
        let now = unix_now();
        self.totp_at(now)
    }

    /// What to hand to a controller, with the code valid now.
    pub fn connection_info(&self) -> (r: HostConnectionInfo)
        ensures
            r.server_url == self.server_url,
            r.machine_id == self.machine_id,
            r.host_id == self.host_id,
            r.totp_period_seconds == self.totp_period_seconds,
            exists|now: u64| r.totp@ == totp_at_spec(self.totp_seed@, self.totp_period_seconds, now),
    {
        HostConnectionInfo {
            server_url: self.server_url.clone(),
            machine_id: self.machine_id.clone(),
            host_id: self.host_id.clone(),
            totp: self.current_totp(),
            totp_period_seconds: self.totp_period_seconds,
        }
    }

    /// The operator view at `now`: the live state with the code and the seconds
    /// it stays valid.
    pub fn snapshot_at(&self, now: u64) -> (r: HostSnapshot)
        requires
            self.wf(),
        ensures
            r@ == (HostSnapshotView {
                totp: HostTotpView {
                    current_code: totp_at_spec(self.totp_seed@, self.totp_period_seconds, now),
                    period_seconds: self.totp_period_seconds,
                    remaining_seconds: remaining_seconds_spec(self.totp_period_seconds, now),
                },
                ..self.state.model()
            }),
    {
        let left = self.totp_period_seconds - now % self.totp_period_seconds;
        let remaining_seconds = if left < 1 { 1 } else { left };
        self.state.snapshot(
            HostTotpSnapshot {
                current_code: self.totp_at(now),
                period_seconds: self.totp_period_seconds,
                remaining_seconds,
            },
        )
    }

    /// The operator view now.
    pub fn snapshot(&self) -> (r: HostSnapshot)
        requires
            self.wf(),
        ensures
            exists|now: u64|
                r@ == (HostSnapshotView {
                    totp: HostTotpView {
                        current_code: totp_at_spec(self.totp_seed@, self.totp_period_seconds, now),
                        period_seconds: self.totp_period_seconds,
                        remaining_seconds: #[trigger] remaining_seconds_spec(self.totp_period_seconds, now),
                    },
                    ..self.state.model()
                }),
    {
        let now = unix_now();
        self.snapshot_at(now)
    }
}

/// What the reconnect loop reports to whoever runs the host.
pub enum HostLoopEvent {
    Reconnecting { reason: Option<String> },
    Stopping,
    Stopped,
    StopWarning { reason: String },
    StopTimedOut,
}

/// After a connection ended while the host keeps running: the listener
/// reconnects, for the connection's error if it failed.
pub fn reconnect_after(outcome: Result<(), String>) -> (r: (HostListenerStatus, Option<String>, HostLoopEvent))
    ensures
        r.0 == HostListenerStatus::Reconnecting,
        match outcome {
            Ok(()) => r.1 is None && (r.2 matches HostLoopEvent::Reconnecting { reason: None }),
            Err(reason) => r.1 == Some(reason) && (r.2 matches HostLoopEvent::Reconnecting { reason: Some(x) }
                && x == reason),
        },
{
    match outcome {
        Ok(()) => (HostListenerStatus::Reconnecting, None, HostLoopEvent::Reconnecting { reason: None }),
        Err(reason) => {
            let copy = reason.clone();
            (HostListenerStatus::Reconnecting, Some(reason), HostLoopEvent::Reconnecting { reason: Some(copy) })
        },
    }
}

/// After a connection ended because the host is stopping: a clean end is
/// reported as stopped, an error as a warning.
pub fn handle_stop_result(outcome: Result<(), String>) -> (r: HostLoopEvent)
    ensures
        match outcome {
            Ok(()) => r is Stopped,
            Err(reason) => r matches HostLoopEvent::StopWarning { reason: x } && x == reason,
        },
{
    match outcome {
        Ok(()) => HostLoopEvent::Stopped,
        Err(reason) => HostLoopEvent::StopWarning { reason },
    }
}

/// What a starting host derives from its configuration and machine.
pub struct PreparedHost {
    pub context: HostContext,
    pub ws_url: String,
}

/// The relay address, the host's websocket address and the code period that
/// the host starts with, or the first error among them: the relay address
/// (explicit setting, then the environment's value, then the built-in one),
/// its `/ws/host` websocket address, then the code period.
pub open spec fn prepared_host_spec(
    explicit_server: Option<Seq<char>>,
    env_server: Option<Seq<char>>,
    embedded_server: Option<Seq<char>>,
    explicit_period: Option<u64>,
    env_period: Option<Seq<char>>,
    embedded_period: Option<u64>,
) -> Result<(Seq<char>, Seq<char>, u64), (RcwErrorKind, Seq<char>)> {
    match resolve_server_url_spec(explicit_server, env_server, embedded_server) {
        Err(e) => Err(e),
        Ok(server_url) => match ws_endpoint_spec(server_url, "/ws/host"@) {
            Err(e) => Err(e),
            Ok(ws_url) => match resolve_totp_period_spec(explicit_period, env_period, embedded_period) {
                Err(e) => Err(e),
                Ok(period) => Ok((server_url, ws_url, period)),
            },
        },
    }
}

/// Resolves the configuration and builds the host's identity and state: the
/// relay address and code period (explicit setting, then the environment's
/// value, then the built-in one), the host's websocket address, its machine id
/// from the machine material, a fresh host id and secret.
pub fn prepare_host(
    config: HostConfig,
    env_server: Option<&str>,
    embedded_server: Option<&str>,
    env_period: Option<&str>,
    embedded_period: Option<u64>,
    default_audit_path: String,
    machine_material: &[u8],
    power: HostPowerSnapshot,
) -> (r: RcwResult<PreparedHost>)
    ensures
        match prepared_host_spec(
            match config.server {
                Some(s) => Some(s@),
                None => None,
            },
            opt_view(env_server),
            opt_view(embedded_server),
            config.totp_period_seconds,
            opt_view(env_period),
            embedded_period,
        ) {
            Err(e) => r matches Err(x) && x@ == e,
            Ok((server_url, ws_url, period)) => r matches Ok(p) && {
                &&& p.context.server_url@ == server_url
                &&& p.ws_url@ == ws_url
                &&& p.context.totp_period_seconds == period
                &&& p.context.totp_period_seconds > 0
                &&& p.context.machine_id@ == short_machine_id_spec(machine_material@)
                &&& p.context.totp_seed@.len() == 20
                &&& p.context.audit_path@ == (match config.audit_log {
                    Some(a) => a@,
                    None => default_audit_path@,
                })
                &&& p.context.wf()
                &&& p.context.state.model().listener.status == HostListenerStatus::Stopped
                &&& p.context.state.model().server_url == p.context.server_url@
                &&& p.context.state.model().machine_id == p.context.machine_id@
                &&& p.context.state.model().host_id == p.context.host_id@
                &&& p.context.state.model().power == power@
                &&& p.context.state.model().events.len() == 0
            },
        },
{
    let explicit = match &config.server {
        Some(s) => Some(s.as_str()),
        None => None,
    };
    let server_url = match resolve_server_url(explicit, env_server, embedded_server) {
        Ok(u) => u,
        Err(e) => return Err(e),
    };
    let ws_url = match ws_endpoint_url(server_url.as_str(), "/ws/host") {
        Ok(u) => u,
        Err(e) => return Err(e),
    };
    let period = match resolve_totp_period_seconds(config.totp_period_seconds, env_period, embedded_period) {
        Ok(p) => p,
        Err(e) => return Err(e),
    };
    let audit_path = match config.audit_log {
        Some(a) => a,
        None => default_audit_path,
    };
    let machine_id = short_machine_id(machine_material);
    let host_id = new_host_id();
    let seed = random_seed();
    let state = HostStateHandle::new(
        HostStateMetadata {
            server_url: server_url.clone(),
            machine_id: machine_id.clone(),
            host_id: host_id.clone(),
            totp_period_seconds: period,
            audit_path: audit_path.clone(),
            power,
        },
    );
    Ok(
        PreparedHost {
            context: HostContext {
                server_url,
                host_id,
                machine_id,
                totp_seed: seed,
                totp_period_seconds: period,
                audit_path,
                state,
            },
            ws_url,
        },
    )
}

/// Holds the platform's request to keep the machine awake; on this build no
/// such request is made.
pub struct PowerGuard {
    active: bool,
}

impl PowerGuard {
    /// Makes the keep-awake request; on this build none is made and the guard is inactive.
    pub fn acquire() -> (r: RcwResult<PowerGuard>)
        ensures
            r matches Ok(g) && !g.is_active(),
    {
        Ok(PowerGuard { active: false })
    }

    pub closed spec fn is_active(&self) -> bool {
        self.active
    }

    pub fn active(&self) -> (r: bool)
        ensures
            r == self.is_active(),
    {
        self.active
    }
}

/// Whether the host runs with administrator rights; never on this build.
pub fn is_elevated() -> (r: bool)
    ensures
        !r,
{
    false
}

/// Opts the process into per-monitor DPI awareness; nothing to do on this build.
pub fn enable_process_dpi_awareness() {
}

pub open spec fn unsupported(message: Seq<char>) -> (RcwErrorKind, Seq<char>) {
    (RcwErrorKind::Other, message)
}

/// Clipboard integration is only available on Windows.
pub fn copy_connection_info(text: &str) -> (r: RcwResult<()>)
    ensures
        r matches Err(e) && e@ == unsupported("clipboard integration is only supported on Windows"@),
{
    Err(RcwError::Other(owned("clipboard integration is only supported on Windows")))
}

/// Screen capture is only available on Windows host builds.
pub fn screenshot_png(display: Option<u32>) -> (r: RcwResult<Vec<u8>>)
    ensures
        r matches Err(e) && e@ == unsupported("screenshot is only supported on Windows host builds"@),
{
    Err(RcwError::Other(owned("screenshot is only supported on Windows host builds")))
}

/// Window enumeration is only available on Windows host builds.
pub fn list_windows() -> (r: RcwResult<Vec<WindowInfo>>)
    ensures
        r matches Err(e) && e@ == unsupported("window enumeration is only supported on Windows host builds"@),
{
    Err(RcwError::Other(owned("window enumeration is only supported on Windows host builds")))
}

/// Mouse input is only available on Windows host builds.
pub fn mouse_move(x: i32, y: i32) -> (r: RcwResult<()>)
    ensures
        r matches Err(e) && e@ == unsupported("mouse input is only supported on Windows host builds"@),
{
    Err(RcwError::Other(owned("mouse input is only supported on Windows host builds")))
}

pub fn mouse_click(x: i32, y: i32, button: &str) -> (r: RcwResult<()>)
    ensures
        r matches Err(e) && e@ == unsupported("mouse input is only supported on Windows host builds"@),
{
    Err(RcwError::Other(owned("mouse input is only supported on Windows host builds")))
}

pub fn mouse_scroll(delta: i32) -> (r: RcwResult<()>)
    ensures
        r matches Err(e) && e@ == unsupported("mouse input is only supported on Windows host builds"@),
{
    Err(RcwError::Other(owned("mouse input is only supported on Windows host builds")))
}

/// Keyboard input is only available on Windows host builds.
pub fn keyboard_type(text: &str) -> (r: RcwResult<()>)
    ensures
        r matches Err(e) && e@ == unsupported("keyboard input is only supported on Windows host builds"@),
{
    Err(RcwError::Other(owned("keyboard input is only supported on Windows host builds")))
}

pub fn keyboard_key(key: &str) -> (r: RcwResult<()>)
    ensures
        r matches Err(e) && e@ == unsupported("keyboard input is only supported on Windows host builds"@),
{
    Err(RcwError::Other(owned("keyboard input is only supported on Windows host builds")))
}

/// Seconds to wait from `now` until the next code window starts, at least one.
pub open spec fn wait_for_next_tick_spec(period: u64, now: u64) -> int {
    let next = (now / period + 1) * period;
    if next - now < 1 { 1 } else { next - now }
}

pub fn seconds_until_next_totp_tick(period_seconds: u64, now: u64) -> (r: u64)
    requires
        period_seconds > 0,
        (now / period_seconds + 1) * period_seconds <= u64::MAX,
    ensures
        r == wait_for_next_tick_spec(period_seconds, now),
{
    assert((now / period_seconds + 1) * period_seconds >= now / period_seconds + 1) by (nonlinear_arith)
        requires
            period_seconds > 0,
    ;
    let next = (now / period_seconds + 1) * period_seconds;
    let wait = if next > now { next - now } else { 0 };
    if wait < 1 { 1 } else { wait }
}

} // verus!
