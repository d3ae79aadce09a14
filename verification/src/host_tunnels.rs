use vstd::prelude::*;
use crate::bytes::{decimal, push_decimal};
use crate::protocol::{
    ErrorCode, TunnelDirection, TunnelInfo, TunnelOpenPayload, TunnelStatus, DEFAULT_TUNNEL_IDLE_TIMEOUT_MS,
};
use crate::text::{owned, concat2};

verus! {

/// The report of a tunnel the host was asked to open, with this status, at
/// `now` (both timestamps), with no traffic yet.
pub open spec fn opened_report(
    tunnel_id: Seq<char>,
    session_id: String,
    payload: TunnelOpenPayload,
    status: TunnelStatus,
    now: String,
    close_reason: Option<String>,
    info: TunnelInfo,
) -> bool {
    &&& info.tunnel_id@ == tunnel_id
    &&& info.session_id == session_id
    &&& info.direction == payload.direction
    &&& info.listen_addr == payload.listen_addr
    &&& info.listen_port == payload.listen_port
    &&& info.target_host == payload.target_host
    &&& info.target_port == payload.target_port
    &&& info.status == status
    &&& info.opened_at == now
    &&& info.last_activity_at == now
    &&& info.idle_timeout_ms == payload.idle_timeout_ms
    &&& info.bytes_from_listener == 0
    &&& info.bytes_from_target == 0
    &&& info.active_streams == 0
    &&& info.total_streams == 0
    &&& info.close_reason == close_reason
}

fn report(
    tunnel_id: &str,
    session_id: String,
    payload: &TunnelOpenPayload,
    status: TunnelStatus,
    now: String,
    close_reason: Option<String>,
) -> (r: TunnelInfo)
    ensures
        opened_report(tunnel_id@, session_id, *payload, status, now, close_reason, r),
{
    TunnelInfo {
        tunnel_id: owned(tunnel_id),
        session_id,
        direction: payload.direction,
        listen_addr: payload.listen_addr.clone(),
        listen_port: payload.listen_port,
        target_host: payload.target_host.clone(),
        target_port: payload.target_port,
        status,
        opened_at: now.clone(),
        last_activity_at: now,
        idle_timeout_ms: payload.idle_timeout_ms,
        bytes_from_listener: 0,
        bytes_from_target: 0,
        active_streams: 0,
        total_streams: 0,
        close_reason,
    }
}

/// The session id a report carries: the request's, or empty when it had none.
pub open spec fn session_or_empty(session_id: Option<String>) -> Seq<char> {
    match session_id {
        Some(s) => s@,
        None => Seq::empty(),
    }
}

/// The report of a tunnel the host could not open, for `reason`.
pub fn failed_tunnel_info(
    tunnel_id: &str,
    session_id: Option<String>,
    payload: &TunnelOpenPayload,
    reason: String,
    now: String,
) -> (r: TunnelInfo)
    ensures
        r.session_id@ == session_or_empty(session_id),
        opened_report(tunnel_id@, r.session_id, *payload, TunnelStatus::Failed, now, Some(reason), r),
{
    let sid = match session_id {
        Some(s) => s,
        None => String::new(),
    };
    report(tunnel_id, sid, payload, TunnelStatus::Failed, now, Some(reason))
}

/// The report of a tunnel the host opened, when the request names a session.
pub fn initial_tunnel_info(tunnel_id: &str, session_id: Option<String>, payload: &TunnelOpenPayload, now: String) -> (r:
    Option<TunnelInfo>)
    ensures
        match session_id {
            Some(s) => r matches Some(info) && opened_report(tunnel_id@, s, *payload, TunnelStatus::Active, now, None, info),
            None => r is None,
        },
{
    match session_id {
        Some(s) => Some(report(tunnel_id, s, payload, TunnelStatus::Active, now, None)),
        None => None,
    }
}

/// A host refuses to listen on port zero for a remote tunnel.
pub fn validate_host_tunnel_open(payload: &TunnelOpenPayload) -> (r: Result<(), String>)
    ensures
        (payload.direction == TunnelDirection::Remote && payload.listen_port == 0) ==> (r matches Err(m) && m@
            == "remote tunnel listen_port must be non-zero"@),
        !(payload.direction == TunnelDirection::Remote && payload.listen_port == 0) ==> r is Ok,
{
    if payload.direction == TunnelDirection::Remote && payload.listen_port == 0 {
        return Err(owned("remote tunnel listen_port must be non-zero"));
    }
    Ok(())
}

/// What the host does with a request to open a tunnel.
#[derive(Debug)]
pub enum HostTunnelOpen {
    /// The request is unusable; the controller gets this error.
    Refused { code: ErrorCode, message: String },
    /// The tunnel cannot be opened; the controller gets this failed report.
    Failed(TunnelInfo),
    /// A remote tunnel: listen on `bind_addr`, then report `info` (with the
    /// address actually bound) as active, or fail with the bind error.
    Listen { info: TunnelInfo, bind_addr: String },
    /// A local tunnel: nothing to set up on the host; report `info` as active.
    Active(TunnelInfo),
}

/// A failed report for this tunnel and session, closed for `reason`.
pub open spec fn failed_report(
    info: TunnelInfo,
    tunnel_id: Seq<char>,
    session_id: Seq<char>,
    payload: TunnelOpenPayload,
    now: String,
    reason: Seq<char>,
) -> bool {
    &&& info.session_id@ == session_id
    &&& opened_report(tunnel_id, info.session_id, payload, TunnelStatus::Failed, now, info.close_reason, info)
    &&& info.close_reason matches Some(m) && m@ == reason
}

/// `addr:port`.
pub open spec fn bind_addr_spec(addr: Seq<char>, port: u16) -> Seq<char> {
    addr + ":"@ + decimal(port as nat)
}

/// Decides how to answer a request to open a tunnel, received at `now`: it
/// needs a tunnel id; a remote tunnel needs a listen port; the report needs
/// the request's session.
pub fn plan_host_tunnel_open(
    tunnel_id: Option<String>,
    session_id: Option<String>,
    payload: &TunnelOpenPayload,
    now: String,
) -> (r: HostTunnelOpen)
    ensures
        match tunnel_id {
            None => r matches HostTunnelOpen::Refused { code, message } && code == ErrorCode::InternalError && message@
                == "tunnel.open missing tunnel_id"@,
            Some(tid) => if payload.direction == TunnelDirection::Remote && payload.listen_port == 0 {
                r matches HostTunnelOpen::Failed(info) && failed_report(
                    info,
                    tid@,
                    session_or_empty(session_id),
                    *payload,
                    now,
                    "remote tunnel listen_port must be non-zero"@,
                )
            } else {
                match session_id {
                    None => r matches HostTunnelOpen::Failed(info) && failed_report(
                        info,
                        tid@,
                        Seq::empty(),
                        *payload,
                        now,
                        "tunnel.open missing session_id"@,
                    ),
                    Some(s) => match payload.direction {
                        TunnelDirection::Remote => r matches HostTunnelOpen::Listen { info, bind_addr } && opened_report(
                            tid@,
                            s,
                            *payload,
                            TunnelStatus::Active,
                            now,
                            None,
                            info,
                        ) && bind_addr@ == bind_addr_spec(payload.listen_addr@, payload.listen_port),
                        TunnelDirection::Local => r matches HostTunnelOpen::Active(info) && opened_report(
                            tid@,
                            s,
                            *payload,
                            TunnelStatus::Active,
                            now,
                            None,
                            info,
                        ),
                    },
                }
            },
        },
{
    let tid = match tunnel_id {
        Some(t) => t,
        None => {
            return HostTunnelOpen::Refused {
                code: ErrorCode::InternalError,
                message: owned("tunnel.open missing tunnel_id"),
            }
        },
    };
    match validate_host_tunnel_open(payload) {
        Err(reason) => return HostTunnelOpen::Failed(failed_tunnel_info(tid.as_str(), session_id, payload, reason, now)),
        Ok(()) => {},
    }
    let has_session = session_id.is_some();
    match initial_tunnel_info(tid.as_str(), session_id, payload, now.clone()) {
        None => {
            HostTunnelOpen::Failed(
                failed_tunnel_info(tid.as_str(), None, payload, owned("tunnel.open missing session_id"), now),
            )
        },
        Some(info) => {
            if payload.direction == TunnelDirection::Remote {
                let mut bind_addr = concat2(payload.listen_addr.as_str(), ":");
                push_decimal(&mut bind_addr, payload.listen_port as u64);
                HostTunnelOpen::Listen { info, bind_addr }
            } else {
                HostTunnelOpen::Active(info)
            }
        },
    }
}

/// The name of a direction as the host's audit log writes it.
pub fn direction_name(direction: TunnelDirection) -> (r: &'static str)
    ensures
        r@ == (match direction {
            TunnelDirection::Local => "Local"@,
            TunnelDirection::Remote => "Remote"@,
        }),
{
    match direction {
        TunnelDirection::Local => "Local",
        TunnelDirection::Remote => "Remote",
    }
}

/// The report the host sends back when a controller closes a tunnel: only
/// the id and the session are known, the status is closed for
/// `controller_close`, both timestamps are `now`.
pub fn closed_tunnel_info(tunnel_id: String, session_id: Option<String>, now: String) -> (r: TunnelInfo)
    ensures
        r.tunnel_id == tunnel_id,
        r.session_id@ == session_or_empty(session_id),
        r.direction == TunnelDirection::Local,
        r.listen_addr@ == Seq::<char>::empty(),
        r.listen_port == 0,
        r.target_host@ == Seq::<char>::empty(),
        r.target_port == 0,
        r.status == TunnelStatus::Closed,
        r.opened_at == now,
        r.last_activity_at == now,
        r.idle_timeout_ms == DEFAULT_TUNNEL_IDLE_TIMEOUT_MS,
        r.bytes_from_listener == 0,
        r.bytes_from_target == 0,
        r.active_streams == 0,
        r.total_streams == 0,
        r.close_reason matches Some(m) && m@ == "controller_close"@,
{
    let sid = match session_id {
        Some(s) => s,
        None => String::new(),
    };
    TunnelInfo {
        tunnel_id,
        session_id: sid,
        direction: TunnelDirection::Local,
        listen_addr: String::new(),
        listen_port: 0,
        target_host: String::new(),
        target_port: 0,
        status: TunnelStatus::Closed,
        opened_at: now.clone(),
        last_activity_at: now,
        idle_timeout_ms: DEFAULT_TUNNEL_IDLE_TIMEOUT_MS,
        bytes_from_listener: 0,
        bytes_from_target: 0,
        active_streams: 0,
        total_streams: 0,
        close_reason: Some(owned("controller_close")),
    }
}

} // verus!
