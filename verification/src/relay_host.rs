use vstd::prelude::*;
use crate::audit::AuditEvent;
use crate::protocol::{
    error_code_message, CommandCompletePayload, CommandOutputPayload, ErrorCode, ErrorPayload, TunnelInfo, TunnelStatus,
};
use crate::server_state::{
    activated, fail_job, finish_job, output_appended, running_job, with_job, with_tunnel, Clock, RequestRoute,
    ServerState, ServerView, SessionState,
};
use crate::table::key_pos;
use crate::text::{owned, str_eq};

verus! {

/// A host's message about a request, with its payload where the relay
/// reads it (`None` when that payload could not be read).
pub enum HostResponse {
    Output(Option<CommandOutputPayload>),
    Complete(Option<CommandCompletePayload>),
    UploadComplete,
    DownloadComplete,
    Error(Option<ErrorPayload>),
}

/// Every response but output ends its request.
pub open spec fn is_terminal(r: HostResponse) -> bool {
    !(r is Output)
}

/// The live route of a host's response: the request's route, when it is
/// this host connection's and this session's.
pub open spec fn response_route(
    v: ServerView,
    request_id: Option<String>,
    host_id: Seq<char>,
    connection_id: Seq<char>,
    session_id: Seq<char>,
) -> Option<RequestRoute> {
    match request_id {
        Some(rid) => match key_pos(v.routes, rid@) {
            Some(i) => {
                let rt = v.routes[i].value;
                if rt.host_id@ == host_id && rt.connection_id@ == connection_id && rt.session_id@ == session_id {
                    Some(rt)
                } else {
                    None
                }
            },
            None => None,
        },
        None => None,
    }
}

/// `v1` is `v0` after recording a response into the detached job `task_id`:
/// output is captured, a completion or an error ends the job; anything else
/// changes nothing.
pub open spec fn detached_recorded(v0: ServerView, v1: ServerView, task_id: Seq<char>, response: HostResponse, now: Clock) -> bool {
    match response {
        HostResponse::Output(Some(o)) => output_appended(v0, v1, task_id, o.stream@, o.data@),
        HostResponse::Complete(Some(c)) => match running_job(v0, task_id) {
            Some(i) => v1 == with_job(v0, i, finish_job(v0.jobs[i].value, c, now)),
            None => v1 == v0,
        },
        HostResponse::Error(Some(e)) => match running_job(v0, task_id) {
            Some(i) => v1 == with_job(v0, i, fail_job(v0.jobs[i].value, e, now)),
            None => v1 == v0,
        },
        _ => v1 == v0,
    }
}

/// `v1` is `v0` without the route of `request_id` (when it had one).
pub open spec fn route_cleared(v0: ServerView, v1: ServerView, request_id: Seq<char>) -> bool {
    match key_pos(v0.routes, request_id) {
        Some(i) => v1 == (ServerView { routes: v0.routes.remove(i), ..v0 }),
        None => v1 == v0,
    }
}

/// The controller of the session, when the session is this host connection's.
pub open spec fn session_controller(v: ServerView, session_id: Seq<char>, host_id: Seq<char>, connection_id: Seq<char>) -> Option<
    u64,
> {
    match key_pos(v.sessions, session_id) {
        Some(i) => {
            let st = v.sessions[i].value;
            if st.host_id@ == host_id && st.connection_id@ == connection_id {
                st.controller_tx
            } else {
                None
            }
        },
        None => None,
    }
}

/// The state after a host's response: a detached job records it, then an
/// ending response forgets its route.
pub open spec fn after_response(
    v0: ServerView,
    v1: ServerView,
    mid: ServerView,
    request_id: Option<String>,
    host_id: Seq<char>,
    connection_id: Seq<char>,
    session_id: Seq<char>,
    response: HostResponse,
    now: Clock,
) -> bool {
    &&& if response_route(v0, request_id, host_id, connection_id, session_id) matches Some(rt) && rt.detached {
        detached_recorded(v0, mid, request_id->0@, response, now)
    } else {
        mid == v0
    }
    &&& if is_terminal(response) && request_id is Some {
        route_cleared(mid, v1, request_id->0@)
    } else {
        v1 == mid
    }
}

/// The outcome of a host's response: without a session nothing happens;
/// otherwise the state moves as `after_response` says and the message goes
/// to the route's controller (none for a detached job) or, without a live
/// route, to the session's controller.
pub open spec fn host_response_ok(
    v0: ServerView,
    v1: ServerView,
    r: Option<u64>,
    response: HostResponse,
    request_id: Option<String>,
    session_id: Option<String>,
    host_id: Seq<char>,
    connection_id: Seq<char>,
    now: Clock,
) -> bool {
    match session_id {
        None => r is None && v1 == v0,
        Some(sid) => {
            let route = response_route(v0, request_id, host_id, connection_id, sid@);
            &&& exists|mid: ServerView|
                #[trigger] after_response(v0, v1, mid, request_id, host_id, connection_id, sid@, response, now)
            &&& r == match route {
                Some(rt) => if rt.detached {
                    None
                } else {
                    Some(rt.controller_tx)
                },
                None => session_controller(v0, sid@, host_id, connection_id),
            }
        },
    }
}

impl ServerState {
    /// A host answers a request: a detached job records the answer; otherwise
    /// the answer goes to the request's controller (or, without a live
    /// route, to the session's controller); an ending answer forgets the
    /// route. Returns the controller to forward the message to.
    pub fn host_response(
        &mut self,
        response: HostResponse,
        request_id: Option<String>,
        session_id: Option<String>,
        host_id: &str,
        connection_id: &str,
        now: &Clock,
    ) -> (r: Option<u64>)
        requires
            old(self).wf(),
        ensures
            final(self).wf(),
            host_response_ok(old(self)@, final(self)@, r, response, request_id, session_id, host_id@, connection_id@, *now),
    {
        let sid = match session_id {
            Some(s) => s,
            None => return None,
        };
        let terminal = match &response {
            HostResponse::Output(_) => false,
            _ => true,
        };
        let route = match &request_id {
            Some(rid) => self.request_route_for_host(rid.as_str(), host_id, connection_id, Some(sid.as_str())),
            None => None,
        };
        let detached = match &route {
            Some(rt) => rt.detached,
            None => false,
        };
        if detached {
            let rid = request_id.as_ref().unwrap();
            match &response {
                HostResponse::Output(Some(o)) => self.append_exec_job_output(rid.as_str(), o.stream.as_str(), o.data.as_str()),
                HostResponse::Complete(Some(c)) => self.finish_exec_job(rid.as_str(), c.clone(), now),
                HostResponse::Error(Some(e)) => self.fail_exec_job(rid.as_str(), e.clone(), now),
                _ => {},
            }
        }
        let ghost mid = self@;
        let controller = match &route {
            Some(rt) => if rt.detached {
                None
            } else {
                Some(rt.controller_tx)
            },
            None => self.session_controller_for_machine(sid.as_str(), host_id, connection_id),
        };
        if terminal {
            match &request_id {
                Some(rid) => self.clear_request_route(rid.as_str()),
                None => {},
            }
        }
        assert(after_response(old(self)@, self@, mid, request_id, host_id@, connection_id@, sid@, response, *now));
        assert(host_response_ok(old(self)@, self@, controller, response, request_id, session_id, host_id@, connection_id@, *now));
        controller
    }
}


/// What the relay forwards to a controller about a tunnel the host opened
/// (or could not open).
pub struct TunnelOpenReply {
    pub to: u64,
    pub session_id: String,
    pub ok: bool,
    pub tunnel: TunnelInfo,
}

/// The relay's record of the tunnel after the host's answer: activated with
/// the address the host bound, or failed (and dropped with its streams) for
/// the host's reason.
pub open spec fn after_tunnel_answer(v: ServerView, i: int, ok: bool, reported: TunnelInfo, now: Clock) -> ServerView {
    if ok {
        with_tunnel(v, i, activated(v.tunnels[i].value, Some(reported.listen_addr), Some(reported.listen_port), now))
    } else {
        ServerView {
            tunnels: v.tunnels.remove(i),
            streams: v.streams.filter(crate::server_state::stream_not_of(reported.tunnel_id@)),
            ..v
        }
    }
}

/// The reason a host gave for not opening a tunnel, or a default.
pub open spec fn rejection_reason(reported: TunnelInfo) -> Seq<char> {
    match reported.close_reason {
        Some(r) => r@,
        None => "host rejected tunnel"@,
    }
}

/// The reply carries the tunnel's report: as activated, or as failed for
/// the host's reason.
pub open spec fn tunnel_reply_ok(
    reply: TunnelOpenReply,
    to: u64,
    session_id: String,
    ok: bool,
    info: TunnelInfo,
    reported: TunnelInfo,
) -> bool {
    &&& reply.to == to
    &&& reply.session_id == session_id
    &&& reply.ok == ok
    &&& if ok {
        reply.tunnel == info
    } else {
        &&& reply.tunnel == (TunnelInfo { close_reason: reply.tunnel.close_reason, ..info })
        &&& reply.tunnel.close_reason matches Some(c) && c@ == rejection_reason(reported)
    }
}

impl ServerState {
    /// A host answers a tunnel request: the relay's record is activated or
    /// failed accordingly, and the answer goes to the session's controller
    /// when the report is for the tunnel's own session and the session is
    /// this host connection's.
    pub fn tunnel_open_result(
        &mut self,
        ok: bool,
        reported: TunnelInfo,
        host_id: &str,
        connection_id: &str,
        now: &Clock,
    ) -> (r: Option<TunnelOpenReply>)
        requires
            old(self).wf(),
        ensures
            final(self).wf(),
            match key_pos(old(self)@.tunnels, reported.tunnel_id@) {
                None => r is None && final(self)@ == old(self)@,
                Some(i) => {
                    let t = old(self)@.tunnels[i].value;
                    let info = if ok {
                        activated(t, Some(reported.listen_addr), Some(reported.listen_port), *now).info
                    } else {
                        TunnelInfo { status: TunnelStatus::Failed, last_activity_at: now.text, ..t.info }
                    };
                    &&& final(self)@ == after_tunnel_answer(old(self)@, i, ok, reported, *now)
                    &&& if t.info.session_id@ == reported.session_id@ {
                        match session_controller(final(self)@, t.info.session_id@, host_id@, connection_id@) {
                            Some(tx) => r matches Some(reply) && tunnel_reply_ok(reply, tx, t.info.session_id, ok, info, reported),
                            None => r is None,
                        }
                    } else {
                        r is None
                    }
                },
            },
    {
        let tunnel = if ok {
            self.activate_tunnel(
                reported.tunnel_id.as_str(),
                Some(reported.listen_addr.clone()),
                Some(reported.listen_port),
                now,
            )
        } else {
            let reason = match &reported.close_reason {
                Some(c) => c.as_str(),
                None => "host rejected tunnel",
            };
            self.fail_tunnel(reported.tunnel_id.as_str(), reason, now)
        };
        let tunnel = match tunnel {
            Some(t) => t,
            None => return None,
        };
        if !str_eq(tunnel.session_id.as_str(), reported.session_id.as_str()) {
            return None;
        }
        match self.session_controller_for_machine(tunnel.session_id.as_str(), host_id, connection_id) {
            Some(to) => {
                let session_id = tunnel.session_id.clone();
                Some(TunnelOpenReply { to, session_id, ok, tunnel })
            },
            None => None,
        }
    }
}

/// A controller that lost its session because the host went away.
pub struct SessionLost {
    pub to: u64,
    pub session_id: String,
}

/// The controllers of these sessions, in order, with the sessions they lost.
pub open spec fn lost_sessions(s: Seq<SessionState>) -> Seq<(u64, Seq<char>)>
    decreases s.len(),
{
    if s.len() == 0 {
        Seq::empty()
    } else {
        let rest = lost_sessions(s.drop_last());
        match s.last().controller_tx {
            Some(tx) => rest.push((tx, s.last().session_id@)),
            None => rest,
        }
    }
}

pub open spec fn lost_views(v: Seq<SessionLost>) -> Seq<(u64, Seq<char>)> {
    v.map_values(|l: SessionLost| (l.to, l.session_id@))
}

/// The audit record of a session closed because its host went away.
pub open spec fn session_lost_audit(e: AuditEvent, st: SessionState, host_id: Seq<char>) -> bool {
    &&& e.side@ == "server"@ && e.event@ == "session.closed"@
    &&& e.machine_id == Some(st.machine_id)
    &&& e.host_id matches Some(h) && h@ == host_id
    &&& e.session_id == Some(st.session_id)
    &&& e.result matches Some(x) && x@ == "closed"@
    &&& e.summary matches Some(x) && x@ == "host disconnected"@
}

/// What the relay reports when a host connection ends: each controller of a
/// closed session is told the host disconnected, each closed session and the
/// disconnection itself are audited.
pub struct HostGone {
    pub lost: Vec<SessionLost>,
    pub audits: Vec<AuditEvent>,
}

pub fn host_gone_reports(removed: &Vec<SessionState>, host_id: &str, connection_id: &str, machine_id: &str) -> (r: HostGone)
    ensures
        lost_views(r.lost@) == lost_sessions(removed@),
        r.audits@.len() == removed@.len() + 1,
        forall|i: int| 0 <= i < removed@.len() ==> session_lost_audit(#[trigger] r.audits@[i], removed@[i], host_id@),
        ({
            let e = r.audits@[removed@.len() as int];
            &&& e.side@ == "server"@ && e.event@ == "host.disconnected"@
            &&& e.machine_id matches Some(m) && m@ == machine_id@
            &&& e.host_id matches Some(h) && h@ == host_id@
            &&& e.result matches Some(x) && x@ == "ok"@
            &&& e.summary matches Some(x) && x@ == "host_id="@ + host_id@ + " connection_id="@ + connection_id@
        }),
{
    let mut lost: Vec<SessionLost> = Vec::new();
    let mut audits: Vec<AuditEvent> = Vec::new();
    let mut i: usize = 0;
    while i < removed.len()
        invariant
            i <= removed@.len(),
            lost_views(lost@) == lost_sessions(removed@.take(i as int)),
            audits@.len() == i,
            forall|j: int| 0 <= j < i ==> session_lost_audit(#[trigger] audits@[j], removed@[j], host_id@),
        decreases removed@.len() - i,
    {
        let st = &removed[i];
        assert(removed@.take(i + 1).drop_last() =~= removed@.take(i as int));
        match st.controller_tx {
            Some(tx) => {
                lost.push(SessionLost { to: tx, session_id: st.session_id.clone() });
            },
            None => {},
        }
        assert(lost_views(lost@) =~= lost_sessions(removed@.take(i + 1)));
        let mut e = AuditEvent::new("server", "session.closed");
        e.machine_id = Some(st.machine_id.clone());
        e.host_id = Some(owned(host_id));
        e.session_id = Some(st.session_id.clone());
        e.result = Some(owned("closed"));
        e.summary = Some(owned("host disconnected"));
        audits.push(e);
        i = i + 1;
    }
    assert(removed@.take(i as int) =~= removed@);
    let mut e = AuditEvent::new("server", "host.disconnected");
    e.machine_id = Some(owned(machine_id));
    e.host_id = Some(owned(host_id));
    e.result = Some(owned("ok"));
    let mut summary = owned("host_id=");
    summary.append(host_id);
    summary.append(" connection_id=");
    summary.append(connection_id);
    e.summary = Some(summary);
    audits.push(e);
    HostGone { lost, audits }
}


impl ServerState {
    /// Where a host's binary frame for `request_id` goes: the request's
    /// controller, or for a detached request the session's current
    /// controller; only for a route of this host connection.
    pub fn host_frame_route(&self, request_id: &str, host_id: &str, connection_id: &str) -> (r: Option<u64>)
        requires
            self.wf(),
        ensures
            match key_pos(self@.routes, request_id@) {
                Some(i) => {
                    let rt = self@.routes[i].value;
                    if rt.host_id@ == host_id@ && rt.connection_id@ == connection_id@ {
                        if rt.detached {
                            r == session_controller(self@, rt.session_id@, host_id@, connection_id@)
                        } else {
                            r == Some(rt.controller_tx)
                        }
                    } else {
                        r is None
                    }
                },
                None => r is None,
            },
    {
        let route = match self.request_route_for_host(request_id, host_id, connection_id, None) {
            Some(rt) => rt,
            None => return None,
        };
        if !route.detached {
            Some(route.controller_tx)
        } else {
            self.session_controller_for_machine(route.session_id.as_str(), host_id, connection_id)
        }
    }
}


/// A host told that one of its sessions expired.
pub struct IdleNotice {
    pub to: u64,
    pub payload: crate::protocol::HostSessionClosedPayload,
}

/// The hosts of these sessions that are still connected on the sessions'
/// connections, in order, with the sessions.
pub open spec fn idle_notices(v: ServerView, s: Seq<SessionState>) -> Seq<(u64, Seq<char>)>
    decreases s.len(),
{
    if s.len() == 0 {
        Seq::empty()
    } else {
        let rest = idle_notices(v, s.drop_last());
        match crate::relay_control::host_tx_spec(v, s.last().host_id@, s.last().connection_id@) {
            Some(tx) => rest.push((tx, s.last().session_id@)),
            None => rest,
        }
    }
}

pub open spec fn notice_views(v: Seq<IdleNotice>) -> Seq<(u64, Seq<char>)> {
    v.map_values(|n: IdleNotice| (n.to, n.payload.session_id@))
}

/// What the relay reports about sessions that expired for want of use: each
/// host still connected is told (`session_idle_timeout`), each expiry is audited.
pub struct IdleReports {
    pub notices: Vec<IdleNotice>,
    pub audits: Vec<AuditEvent>,
}

impl ServerState {
    pub fn idle_expiry_reports(&self, expired: &Vec<SessionState>) -> (r: IdleReports)
        requires
            self.wf(),
        ensures
            notice_views(r.notices@) == idle_notices(self@, expired@),
            forall|i: int| 0 <= i < r.notices@.len() ==> #[trigger] r.notices@[i].payload.reason@ == "session_idle_timeout"@,
            r.audits@.len() == expired@.len(),
            forall|i: int|
                0 <= i < expired@.len() ==> {
                    let e = #[trigger] r.audits@[i];
                    let st = expired@[i];
                    &&& e.side@ == "server"@ && e.event@ == "session.closed"@
                    &&& e.machine_id == Some(st.machine_id)
                    &&& e.host_id == Some(st.host_id)
                    &&& e.session_id == Some(st.session_id)
                    &&& e.result matches Some(x) && x@ == "closed"@
                    &&& e.summary matches Some(x) && x@ == "session idle timeout"@
                },
    {
        let mut notices: Vec<IdleNotice> = Vec::new();
        let mut audits: Vec<AuditEvent> = Vec::new();
        let mut i: usize = 0;
        while i < expired.len()
            invariant
                self.wf(),
                i <= expired@.len(),
                notice_views(notices@) == idle_notices(self@, expired@.take(i as int)),
                forall|k: int| 0 <= k < notices@.len() ==> #[trigger] notices@[k].payload.reason@ == "session_idle_timeout"@,
                audits@.len() == i,
                forall|j: int|
                    0 <= j < i ==> {
                        let e = #[trigger] audits@[j];
                        let st = expired@[j];
                        &&& e.side@ == "server"@ && e.event@ == "session.closed"@
                        &&& e.machine_id == Some(st.machine_id)
                        &&& e.host_id == Some(st.host_id)
                        &&& e.session_id == Some(st.session_id)
                        &&& e.result matches Some(x) && x@ == "closed"@
                        &&& e.summary matches Some(x) && x@ == "session idle timeout"@
                    },
            decreases expired@.len() - i,
        {
            let st = &expired[i];
            assert(expired@.take(i + 1).drop_last() =~= expired@.take(i as int));
            match self.host_tx(st.host_id.as_str(), st.connection_id.as_str()) {
                Some(tx) => {
                    notices.push(
                        IdleNotice {
                            to: tx,
                            payload: crate::protocol::HostSessionClosedPayload {
                                session_id: st.session_id.clone(),
                                reason: owned("session_idle_timeout"),
                            },
                        },
                    );
                },
                None => {},
            }
            assert(notice_views(notices@) =~= idle_notices(self@, expired@.take(i + 1)));
            let mut e = AuditEvent::new("server", "session.closed");
            e.machine_id = Some(st.machine_id.clone());
            e.host_id = Some(st.host_id.clone());
            e.session_id = Some(st.session_id.clone());
            e.result = Some(owned("closed"));
            e.summary = Some(owned("session idle timeout"));
            audits.push(e);
            i = i + 1;
        }
        assert(expired@.take(i as int) =~= expired@);
        IdleReports { notices, audits }
    }
}

} // verus!
