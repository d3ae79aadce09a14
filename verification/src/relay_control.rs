use vstd::prelude::*;
use crate::host_state::clone_opt;
use crate::audit::AuditEvent;
use crate::protocol::{
    error_code_message, CommandCancelPayload, CommandStatusPayload, CommandStatusResultPayload, ErrorCode, ErrorPayload,
    HostSessionClosedPayload, SessionClosePayload, SessionCloseResultPayload, SessionStatusPayload,
    SessionStatusResultPayload, TunnelClosePayload, TunnelInfo, TunnelStatusPayload,
};
use crate::protocol::CommandTaskStatus;
use crate::server_state::{
    after_sessions_gone, close_info, drop_session, session_tunnel_reports, stream_outside, touched, valid_session, Clock,
    ServerState, ServerView, SessionState,
};
use crate::table::{key_pos, lemma_key_pos, unique_keys, Entry};
use crate::text::{concat2, owned};

verus! {

/// An error answered to a controller's request: the session it names, a
/// code and a message.
#[derive(Debug)]
pub struct ControlError {
    pub session_id: Option<String>,
    pub code: ErrorCode,
    pub message: String,
}

/// Whether `e` carries this session, code and message.
pub open spec fn is_control_error(e: ControlError, session_id: Option<String>, code: ErrorCode, message: Seq<char>) -> bool {
    e.session_id == session_id && e.code == code && e.message@ == message
}

/// The session's host is connected on the session's connection.
pub open spec fn host_online_spec(v: ServerView, st: SessionState) -> bool {
    key_pos(v.hosts, st.host_id@) matches Some(h) && v.hosts[h].value.connection_id@ == st.connection_id@
}

/// The channel of the session's host, when it is connected on the session's connection.
pub open spec fn host_tx_spec(v: ServerView, host_id: Seq<char>, connection_id: Seq<char>) -> Option<u64> {
    match key_pos(v.hosts, host_id) {
        Some(h) => if v.hosts[h].value.connection_id@ == connection_id { Some(v.hosts[h].value.tx) } else { None },
        None => None,
    }
}

fn missing_session_error() -> (e: ControlError)
    ensures
        is_control_error(e, None, ErrorCode::SessionExpired, "missing session_id"@),
{
    ControlError { session_id: None, code: ErrorCode::SessionExpired, message: owned("missing session_id") }
}

fn invalid_payload_error(session_id: Option<String>, prefix: &str, detail: &String) -> (e: ControlError)
    ensures
        is_control_error(e, session_id, ErrorCode::InternalError, prefix@ + detail@),
{
    ControlError { session_id, code: ErrorCode::InternalError, message: concat2(prefix, detail.as_str()) }
}

fn code_error(session_id: Option<String>, code: ErrorCode) -> (e: ControlError)
    ensures
        is_control_error(e, session_id, code, error_code_message(code)),
{
    ControlError { session_id, code, message: owned(code.message()) }
}

/// What a controller is told about its session.
pub struct SessionStatusReply {
    pub session_id: String,
    pub payload: SessionStatusResultPayload,
}

/// The parsed payload of a request, or the parser's complaint.
pub type Parsed<T> = Result<T, String>;

impl ServerState {
    /// A controller asks about its session: it must name the session and
    /// hold its token; the session is marked as seen, and the answer says
    /// whether its host is still connected.
    pub fn session_status(
        &mut self,
        session_id: Option<String>,
        payload: Parsed<SessionStatusPayload>,
        now: &Clock,
    ) -> (r: Result<SessionStatusReply, ControlError>)
        requires
            old(self).wf(),
        ensures
            final(self).wf(),
            match session_id {
                None => (r matches Err(e) && is_control_error(e, None, ErrorCode::SessionExpired, "missing session_id"@))
                    && final(self)@ == old(self)@,
                Some(sid) => match payload {
                    Err(p) => (r matches Err(e) && is_control_error(
                        e,
                        Some(sid),
                        ErrorCode::InternalError,
                        "invalid session.status payload: "@ + p@,
                    )) && final(self)@ == old(self)@,
                    Ok(p) => match valid_session(old(self)@, sid@, p.session_token@) {
                        None => (r matches Err(e) && is_control_error(
                            e,
                            Some(sid),
                            ErrorCode::SessionExpired,
                            error_code_message(ErrorCode::SessionExpired),
                        )) && final(self)@ == old(self)@,
                        Some(i) => {
                            let st = old(self)@.sessions[i].value;
                            &&& r matches Ok(rep) && rep.session_id == st.session_id && rep.payload.ok
                                && rep.payload.machine_id == st.machine_id && rep.payload.host_online == host_online_spec(
                                old(self)@,
                                st,
                            ) && rep.payload.session_active == rep.payload.host_online
                            &&& final(self)@ == touched(old(self)@, sid@, now.ms)
                        },
                    },
                },
            },
    {
        let sid = match session_id {
            Some(s) => s,
            None => return Err(missing_session_error()),
        };
        let p = match payload {
            Ok(p) => p,
            Err(e) => return Err(invalid_payload_error(Some(sid), "invalid session.status payload: ", &e)),
        };
        let session = match self.session_if_valid(sid.as_str(), p.session_token.as_str(), now) {
            Some(s) => s,
            None => return Err(code_error(Some(sid), ErrorCode::SessionExpired)),
        };
        let host_online = self.host_tx(session.host_id.as_str(), session.connection_id.as_str()).is_some();
        Ok(
            SessionStatusReply {
                session_id: session.session_id,
                payload: SessionStatusResultPayload {
                    ok: true,
                    machine_id: session.machine_id,
                    host_online,
                    session_active: host_online,
                },
            },
        )
    }

    /// A controller polls a detached command: the job's latest snapshot, if
    /// the token is the job's session's.
    pub fn command_status(&self, session_id: Option<String>, payload: Parsed<CommandStatusPayload>) -> (r: Result<
        CommandStatusResultPayload,
        ControlError,
    >)
        requires
            self.wf(),
        ensures
            match payload {
                Err(p) => r matches Err(e) && is_control_error(
                    e,
                    session_id,
                    ErrorCode::InternalError,
                    "invalid command.status payload: "@ + p@,
                ),
                Ok(p) => match key_pos(self@.jobs, p.task_id@) {
                    Some(i) if self@.jobs[i].value.session_token@ == p.session_token@ => r == Ok::<
                        CommandStatusResultPayload,
                        ControlError,
                    >(self@.jobs[i].value.snapshot),
                    _ => r matches Err(e) && is_control_error(
                        e,
                        session_id,
                        ErrorCode::SessionExpired,
                        "command.status has no active exec job"@,
                    ),
                },
            },
    {
        let p = match payload {
            Ok(p) => p,
            Err(e) => return Err(invalid_payload_error(session_id, "invalid command.status payload: ", &e)),
        };
        match self.exec_job_if_valid(p.task_id.as_str(), p.session_token.as_str()) {
            Some(snapshot) => Ok(snapshot),
            None => Err(
                ControlError {
                    session_id,
                    code: ErrorCode::SessionExpired,
                    message: owned("command.status has no active exec job"),
                },
            ),
        }
    }

    /// A controller lists its session's tunnels (or one of them): the
    /// session must be named and the token its own; the session is marked as seen.
    pub fn tunnel_status(&mut self, session_id: Option<String>, payload: Parsed<TunnelStatusPayload>, now: &Clock) -> (r:
        Result<Vec<TunnelInfo>, ControlError>)
        requires
            old(self).wf(),
        ensures
            final(self).wf(),
            match session_id {
                None => (r matches Err(e) && is_control_error(e, None, ErrorCode::SessionExpired, "missing session_id"@))
                    && final(self)@ == old(self)@,
                Some(sid) => match payload {
                    Err(p) => (r matches Err(e) && is_control_error(
                        e,
                        Some(sid),
                        ErrorCode::InternalError,
                        "invalid tunnel.status payload: "@ + p@,
                    )) && final(self)@ == old(self)@,
                    Ok(p) => match valid_session(old(self)@, sid@, p.session_token@) {
                        None => (r matches Err(e) && is_control_error(
                            e,
                            Some(sid),
                            ErrorCode::SessionExpired,
                            error_code_message(ErrorCode::SessionExpired),
                        )) && final(self)@ == old(self)@,
                        Some(_) => (r matches Ok(v) && v@ == session_tunnel_reports(
                            old(self)@.tunnels,
                            sid@,
                            match p.tunnel_id {
                                Some(t) => Some(t@),
                                None => None,
                            },
                        )) && final(self)@ == touched(old(self)@, sid@, now.ms),
                    },
                },
            },
    {
        let sid = match session_id {
            Some(s) => s,
            None => return Err(missing_session_error()),
        };
        let p = match payload {
            Ok(p) => p,
            Err(e) => return Err(invalid_payload_error(Some(sid), "invalid tunnel.status payload: ", &e)),
        };
        let named: Option<&str> = match &p.tunnel_id {
            Some(t) => Some(t.as_str()),
            None => None,
        };
        match self.tunnels_for_session_if_valid(sid.as_str(), p.session_token.as_str(), named, now) {
            Some(list) => Ok(list),
            None => Err(code_error(Some(sid), ErrorCode::SessionExpired)),
        }
    }
}


/// Marking a session as seen twice at the same time is marking it once.
pub proof fn lemma_touch_twice(v: ServerView, session_id: Seq<char>, now: u64)
    requires
        unique_keys(v.sessions),
    ensures
        touched(touched(v, session_id, now), session_id, now) == touched(v, session_id, now),
{
    match key_pos(v.sessions, session_id) {
        Some(i) => {
            let u = touched(v, session_id, now);
            assert(u.sessions[i].key == v.sessions[i].key);
            crate::table::lemma_unique_same_keys(v.sessions, u.sessions);
            lemma_key_pos(u.sessions, i);
            assert(u.sessions.update(i, Entry { key: u.sessions[i].key, value: SessionState { last_seen: now, ..u.sessions[i].value } }) =~= u.sessions);
        },
        None => {},
    }
}

/// What closing a session at the controller's request produces: the session,
/// the notice for its host (when the host is still connected), the answer
/// for the controller and the audit record.
pub struct SessionCloseReply {
    pub session: SessionState,
    pub host_tx: Option<u64>,
    pub notice: HostSessionClosedPayload,
    pub result: SessionCloseResultPayload,
    pub audit: AuditEvent,
}

/// A closed tunnel's final report and the channel of its host, when the host
/// is still connected.
pub struct TunnelCloseReply {
    pub tunnel: TunnelInfo,
    pub host_tx: Option<u64>,
}

/// Where a cancellation goes: the request, its session and the host's channel.
pub struct CancelForward {
    pub request_id: String,
    pub session_id: String,
    pub host_tx: u64,
}

/// The session a cancellation is for: the request's live route, else a
/// running detached job of that id whose session token matches.
pub open spec fn cancel_route(v: ServerView, request_id: Seq<char>, token: Seq<char>) -> Option<String> {
    match key_pos(v.routes, request_id) {
        Some(i) => Some(v.routes[i].value.session_id),
        None => match key_pos(v.jobs, request_id) {
            Some(j) => if v.jobs[j].value.session_token@ == token && v.jobs[j].value.snapshot.status
                == CommandTaskStatus::Running {
                Some(v.jobs[j].value.session_id)
            } else {
                None
            },
            None => None,
        },
    }
}

impl ServerState {
    /// A controller closes its session: the session goes with everything it
    /// entails, its host is told (`controller_close`) and the close is audited.
    pub fn session_close(
        &mut self,
        request_id: Option<String>,
        session_id: Option<String>,
        payload: Parsed<SessionClosePayload>,
        now: &Clock,
    ) -> (r: Result<SessionCloseReply, ControlError>)
        requires
            old(self).wf(),
        ensures
            final(self).wf(),
            match session_id {
                None => (r matches Err(e) && is_control_error(e, None, ErrorCode::SessionExpired, "missing session_id"@))
                    && final(self)@ == old(self)@,
                Some(sid) => match payload {
                    Err(p) => (r matches Err(e) && is_control_error(
                        e,
                        Some(sid),
                        ErrorCode::InternalError,
                        "invalid session.close payload: "@ + p@,
                    )) && final(self)@ == old(self)@,
                    Ok(p) => match valid_session(old(self)@, sid@, p.session_token@) {
                        None => (r matches Err(e) && is_control_error(
                            e,
                            Some(sid),
                            ErrorCode::SessionExpired,
                            error_code_message(ErrorCode::SessionExpired),
                        )) && final(self)@ == old(self)@,
                        Some(i) => {
                            let st = old(self)@.sessions[i].value;
                            &&& exists|err: ErrorPayload|
                                err.code == ErrorCode::Cancelled && err.message@ == "session closed by controller"@
                                    && #[trigger] after_sessions_gone(
                                    drop_session(old(self)@, i),
                                    seq![st.session_id@],
                                    err,
                                    *now,
                                ) == final(self)@
                            &&& r matches Ok(rep) && {
                                &&& rep.session == st
                                &&& rep.host_tx == host_tx_spec(final(self)@, st.host_id@, st.connection_id@)
                                &&& rep.notice.session_id == st.session_id
                                &&& rep.notice.reason@ == "controller_close"@
                                &&& rep.result.ok && rep.result.session_id == st.session_id
                                &&& rep.audit.side@ == "server"@ && rep.audit.event@ == "session.closed"@
                                &&& rep.audit.machine_id == Some(st.machine_id)
                                &&& rep.audit.host_id == Some(st.host_id)
                                &&& rep.audit.session_id == Some(st.session_id)
                                &&& rep.audit.request_id == request_id
                                &&& rep.audit.result matches Some(t) && t@ == "ok"@
                            }
                        },
                    },
                },
            },
    {
        let sid = match session_id {
            Some(s) => s,
            None => return Err(missing_session_error()),
        };
        let p = match payload {
            Ok(p) => p,
            Err(e) => return Err(invalid_payload_error(Some(sid), "invalid session.close payload: ", &e)),
        };
        let session = match self.remove_session_if_valid(sid.as_str(), p.session_token.as_str(), now) {
            Some(s) => s,
            None => return Err(code_error(Some(sid), ErrorCode::SessionExpired)),
        };
        let host_tx = self.host_tx(session.host_id.as_str(), session.connection_id.as_str());
        let mut audit = AuditEvent::new("server", "session.closed");
        audit.machine_id = Some(session.machine_id.clone());
        audit.host_id = Some(session.host_id.clone());
        audit.session_id = Some(session.session_id.clone());
        audit.request_id = request_id;
        audit.result = Some(owned("ok"));
        let notice = HostSessionClosedPayload { session_id: session.session_id.clone(), reason: owned("controller_close") };
        let result = SessionCloseResultPayload { ok: true, session_id: session.session_id.clone() };
        Ok(SessionCloseReply { session, host_tx, notice, result, audit })
    }

    /// A controller closes one of its tunnels: the token must be the
    /// tunnel's session's; the tunnel and its streams go, and the reply names
    /// the host to tell.
    pub fn tunnel_close(&mut self, session_id: Option<String>, payload: Parsed<TunnelClosePayload>, now: &Clock) -> (r:
        Result<TunnelCloseReply, ControlError>)
        requires
            old(self).wf(),
        ensures
            final(self).wf(),
            match session_id {
                None => (r matches Err(e) && is_control_error(e, None, ErrorCode::SessionExpired, "missing session_id"@))
                    && final(self)@ == old(self)@,
                Some(sid) => match payload {
                    Err(p) => (r matches Err(e) && is_control_error(
                        e,
                        Some(sid),
                        ErrorCode::InternalError,
                        "invalid tunnel.close payload: "@ + p@,
                    )) && final(self)@ == old(self)@,
                    Ok(p) => match key_pos(old(self)@.tunnels, p.tunnel_id@) {
                        Some(i) if valid_session(
                            old(self)@,
                            old(self)@.tunnels[i].value.info.session_id@,
                            p.session_token@,
                        ) is Some => {
                            let t = old(self)@.tunnels[i].value;
                            &&& r matches Ok(rep) && {
                                &&& rep.tunnel.close_reason matches Some(reason) && reason@ == "controller_close"@
                                    && rep.tunnel == close_info(t.info, reason, *now)
                                &&& rep.host_tx == host_tx_spec(old(self)@, t.host_id@, t.connection_id@)
                            }
                            &&& final(self)@ == (ServerView {
                                tunnels: old(self)@.tunnels.remove(i),
                                streams: old(self)@.streams.filter(stream_outside(seq![t.info.tunnel_id@])),
                                ..touched(old(self)@, t.info.session_id@, now.ms)
                            })
                        },
                        _ => (r matches Err(e) && is_control_error(
                            e,
                            Some(sid),
                            ErrorCode::SessionExpired,
                            "tunnel is not active"@,
                        )) && final(self)@ == old(self)@,
                    },
                },
            },
    {
        let sid = match session_id {
            Some(s) => s,
            None => return Err(missing_session_error()),
        };
        let p = match payload {
            Ok(p) => p,
            Err(e) => return Err(invalid_payload_error(Some(sid), "invalid tunnel.close payload: ", &e)),
        };
        let tunnel = match self.tunnel_if_valid(p.tunnel_id.as_str(), p.session_token.as_str(), now) {
            Some(t) => t,
            None => {
                return Err(
                    ControlError { session_id: Some(sid), code: ErrorCode::SessionExpired, message: owned("tunnel is not active") },
                )
            },
        };
        let ghost i = key_pos(old(self)@.tunnels, p.tunnel_id@)->0;
        let ghost t = old(self)@.tunnels[i].value;
        let ghost mid = self@;
        proof {
            let si = valid_session(old(self)@, t.info.session_id@, p.session_token@)->0;
            lemma_key_pos(mid.sessions, si);
            lemma_touch_twice(old(self)@, t.info.session_id@, now.ms);
        }
        let reason = owned("controller_close");
        let closed = match self.close_tunnel_if_valid(p.tunnel_id.as_str(), p.session_token.as_str(), &reason, now) {
            Some(c) => c,
            None => {
                assert(false);
                return Err(
                    ControlError { session_id: Some(sid), code: ErrorCode::SessionExpired, message: owned("tunnel is not active") },
                );
            },
        };
        let host_tx = self.host_tx(tunnel.host_id.as_str(), tunnel.connection_id.as_str());
        Ok(TunnelCloseReply { tunnel: closed, host_tx })
    }

    /// A controller cancels a request: the request's route (or a running
    /// detached job of that id) names the session, whose token must match and
    /// whose host must be connected; the cancellation then goes to that host.
    pub fn command_cancel(
        &mut self,
        request_id: Option<String>,
        session_id: Option<String>,
        payload: Parsed<CommandCancelPayload>,
        now: &Clock,
    ) -> (r: Result<CancelForward, ControlError>)
        requires
            old(self).wf(),
        ensures
            final(self).wf(),
            match request_id {
                None => (r matches Err(e) && is_control_error(
                    e,
                    session_id,
                    ErrorCode::InternalError,
                    "command.cancel requires request_id"@,
                )) && final(self)@ == old(self)@,
                Some(rid) => match payload {
                    Err(p) => (r matches Err(e) && is_control_error(
                        e,
                        session_id,
                        ErrorCode::InternalError,
                        "invalid command.cancel payload: "@ + p@,
                    )) && final(self)@ == old(self)@,
                    Ok(p) => match cancel_route(old(self)@, rid@, p.session_token@) {
                        None => (r matches Err(e) && is_control_error(
                            e,
                            session_id,
                            ErrorCode::SessionExpired,
                            "command.cancel has no active request route"@,
                        )) && final(self)@ == old(self)@,
                        Some(route_sid) => match valid_session(old(self)@, route_sid@, p.session_token@) {
                            None => (r matches Err(e) && is_control_error(
                                e,
                                Some(route_sid),
                                ErrorCode::SessionExpired,
                                error_code_message(ErrorCode::SessionExpired),
                            )) && final(self)@ == old(self)@,
                            Some(i) => {
                                let st = old(self)@.sessions[i].value;
                                &&& final(self)@ == touched(old(self)@, route_sid@, now.ms)
                                &&& match host_tx_spec(old(self)@, st.host_id@, st.connection_id@) {
                                    Some(tx) => r matches Ok(f) && f.request_id == rid && f.session_id == st.session_id
                                        && f.host_tx == tx,
                                    None => r matches Err(e) && is_control_error(
                                        e,
                                        Some(st.session_id),
                                        ErrorCode::HostDisconnected,
                                        error_code_message(ErrorCode::HostDisconnected),
                                    ),
                                }
                            },
                        },
                    },
                },
            },
    {
        let rid = match request_id {
            Some(r) => r,
            None => {
                return Err(
                    ControlError {
                        session_id,
                        code: ErrorCode::InternalError,
                        message: owned("command.cancel requires request_id"),
                    },
                )
            },
        };
        let p = match payload {
            Ok(p) => p,
            Err(e) => return Err(invalid_payload_error(session_id, "invalid command.cancel payload: ", &e)),
        };
        let route = match self.request_session_id(rid.as_str()) {
            Some(s) => Some(s),
            None => match self.exec_job_route_if_valid(rid.as_str(), p.session_token.as_str()) {
                Some((_, _, s)) => Some(s),
                None => None,
            },
        };
        let route_sid = match route {
            Some(s) => s,
            None => {
                return Err(
                    ControlError {
                        session_id,
                        code: ErrorCode::SessionExpired,
                        message: owned("command.cancel has no active request route"),
                    },
                )
            },
        };
        let session = match self.session_if_valid(route_sid.as_str(), p.session_token.as_str(), now) {
            Some(s) => s,
            None => return Err(code_error(Some(route_sid), ErrorCode::SessionExpired)),
        };
        match self.host_tx(session.host_id.as_str(), session.connection_id.as_str()) {
            Some(host_tx) => Ok(CancelForward { request_id: rid, session_id: session.session_id, host_tx }),
            None => Err(code_error(Some(session.session_id), ErrorCode::HostDisconnected)),
        }
    }
}

} // verus!
