use vstd::prelude::*;
use crate::protocol::{
    error_code_message, ErrorCode, TunnelEndpointSide, TunnelStreamControlPayload, TunnelStreamOpenPayload,
    TunnelStreamOpenResultPayload,
};
use crate::relay_control::{host_tx_spec, is_control_error, ControlError, Parsed};
use crate::relay_host::session_controller;
use crate::server_state::{
    stream_counters_have_room, touched, traffic_in_tunnel, with_stream,
    after_stream_closed, after_stream_eof, eof_marked, opened_stream, stream_of, stream_refusal, with_new_stream,
    with_tunnel, Clock, ServerState, ServerView, TunnelStreamRoute,
};
use crate::table::{key_pos, upsert_spec, Entry};
use crate::text::{concat2, owned, str_eq};

verus! {

/// The state after a stream was opened from `side` through tunnel
/// `tunnel_id` (which accepted it).
pub open spec fn after_stream_opened(v: ServerView, tunnel_id: Seq<char>, stream_id: String, now: Clock) -> ServerView {
    let i = key_pos(v.tunnels, tunnel_id)->0;
    let t = v.tunnels[i].value;
    ServerView {
        streams: upsert_spec(v.streams, Entry { key: stream_id, value: opened_stream(t, now.ms) }),
        ..with_tunnel(v, i, crate::server_state::with_new_stream(t, now))
    }
}

/// What ending (`reset`) or finishing one end of a stream does, and the
/// stream's route before that, when the stream belongs to the tunnel.
pub open spec fn stream_end_step(
    v0: ServerView,
    v1: ServerView,
    route: Option<TunnelStreamRoute>,
    tunnel_id: Seq<char>,
    stream_id: Seq<char>,
    reset: bool,
    side: TunnelEndpointSide,
    now: Clock,
) -> bool {
    match stream_of(v0, tunnel_id, stream_id) {
        Some(i) => if reset {
            route == Some(v0.streams[i].value) && v1 == after_stream_closed(v0, i, tunnel_id, now)
        } else {
            route == Some(eof_marked(v0.streams[i].value, side, now.ms)) && v1 == after_stream_eof(
                v0,
                i,
                tunnel_id,
                side,
                now,
            )
        },
        None => route is None && v1 == v0,
    }
}

impl ServerState {
    /// Ends (`reset`) or finishes `side`'s end of a stream of this tunnel;
    /// returns the stream's route.
    fn end_stream(&mut self, tunnel_id: &str, stream_id: &str, reset: bool, side: TunnelEndpointSide, now: &Clock) -> (r:
        Option<TunnelStreamRoute>)
        requires
            old(self).wf(),
        ensures
            final(self).wf(),
            stream_end_step(old(self)@, final(self)@, r, tunnel_id@, stream_id@, reset, side, *now),
    {
        if reset {
            self.close_tunnel_stream(tunnel_id, stream_id, now)
        } else {
            match self.mark_tunnel_stream_eof(tunnel_id, stream_id, side, now) {
                Some((route, _)) => Some(route),
                None => None,
            }
        }
    }

    /// A controller opens a stream through one of its tunnels; the request
    /// goes on to the tunnel's host, or the stream is dropped again when the
    /// host is gone.
    pub fn controller_stream_open(
        &mut self,
        session_id: Option<String>,
        payload: Parsed<TunnelStreamOpenPayload>,
        now: &Clock,
    ) -> (r: Result<u64, ControlError>)
        requires
            old(self).wf(),
            stream_counters_have_room(old(self)@),
        ensures
            final(self).wf(),
            match payload {
                Err(p) => (r matches Err(e) && is_control_error(
                    e,
                    session_id,
                    ErrorCode::InternalError,
                    "invalid tunnel.stream_open payload: "@ + p@,
                )) && final(self)@ == old(self)@,
                Ok(p) => match stream_refusal(old(self)@, p.tunnel_id@, TunnelEndpointSide::Controller) {
                    Some((code, message)) => (r matches Err(e) && is_control_error(e, session_id, code, message))
                        && final(self)@ == old(self)@,
                    None => {
                        let mid = after_stream_opened(old(self)@, p.tunnel_id@, p.stream_id, *now);
                        let route = opened_stream(
                            old(self)@.tunnels[key_pos(old(self)@.tunnels, p.tunnel_id@)->0].value,
                            now.ms,
                        );
                        match host_tx_spec(mid, route.host_id@, route.connection_id@) {
                            Some(tx) => r == Ok::<u64, ControlError>(tx) && final(self)@ == mid,
                            None => (r matches Err(e) && is_control_error(
                                e,
                                Some(route.session_id),
                                ErrorCode::HostDisconnected,
                                error_code_message(ErrorCode::HostDisconnected),
                            )) && stream_end_step(mid, final(self)@, Some(route), p.tunnel_id@, p.stream_id@, true, TunnelEndpointSide::Controller, *now),
                        }
                    },
                },
            },
    {
        let p = match payload {
            Ok(p) => p,
            Err(e) => {
                return Err(
                    ControlError {
                        session_id,
                        code: ErrorCode::InternalError,
                        message: concat2("invalid tunnel.stream_open payload: ", e.as_str()),
                    },
                )
            },
        };
        let route = match self.add_tunnel_stream(p.tunnel_id.as_str(), p.stream_id.clone(), TunnelEndpointSide::Controller, now) {
            Ok(route) => route,
            Err(e) => return Err(ControlError { session_id, code: e.code, message: e.message }),
        };
        match self.host_tx(route.host_id.as_str(), route.connection_id.as_str()) {
            Some(tx) => Ok(tx),
            None => {
                proof {
                    let e = Entry { key: p.stream_id, value: route };
                    crate::server_state::lemma_upsert_then_lookup(old(self)@.streams, e);
                    let ti = key_pos(old(self)@.tunnels, p.tunnel_id@)->0;
                    assert(old(self)@.tunnels[ti].key@ == p.tunnel_id@);
                }
                let _ = self.close_tunnel_stream(p.tunnel_id.as_str(), p.stream_id.as_str(), now);
                Err(
                    ControlError {
                        session_id: Some(route.session_id),
                        code: ErrorCode::HostDisconnected,
                        message: owned(ErrorCode::HostDisconnected.message()),
                    },
                )
            },
        }
    }
}


/// The channel a host-side stream message goes to: the session's
/// controller, when the stream is this host connection's.
pub open spec fn to_session_controller(
    v: ServerView,
    route: Option<TunnelStreamRoute>,
    host_id: Seq<char>,
    connection_id: Seq<char>,
) -> Option<u64> {
    match route {
        Some(rt) => if rt.host_id@ == host_id && rt.connection_id@ == connection_id {
            session_controller(v, rt.session_id@, host_id, connection_id)
        } else {
            None
        },
        None => None,
    }
}

/// The channel a controller-side stream message goes to: the stream's host.
pub open spec fn to_stream_host(v: ServerView, route: Option<TunnelStreamRoute>) -> Option<u64> {
    match route {
        Some(rt) => host_tx_spec(v, rt.host_id@, rt.connection_id@),
        None => None,
    }
}

/// Where a host's request to open a stream (for a remote tunnel) goes.
pub enum HostStreamOpen {
    /// Forward the request to this controller.
    Forward(u64),
    /// Tell this controller the stream was refused.
    Refuse { to: u64, code: ErrorCode, message: String },
    /// Nobody to tell.
    Drop,
}

impl ServerState {
    /// A host opens a stream through a remote tunnel (a connection arrived
    /// at its listener): on success the session's controller gets the
    /// request, when the stream is this host connection's; a refusal is
    /// reported to the controller of the session the message names, when
    /// that session is this host connection's.
    pub fn host_stream_open(
        &mut self,
        session_id: Option<String>,
        payload: TunnelStreamOpenPayload,
        host_id: &str,
        connection_id: &str,
        now: &Clock,
    ) -> (r: HostStreamOpen)
        requires
            old(self).wf(),
            stream_counters_have_room(old(self)@),
        ensures
            final(self).wf(),
            match stream_refusal(old(self)@, payload.tunnel_id@, TunnelEndpointSide::Host) {
                Some((code, message)) => final(self)@ == old(self)@ && match session_controller(
                    old(self)@,
                    match session_id {
                        Some(s) => s@,
                        None => Seq::empty(),
                    },
                    host_id@,
                    connection_id@,
                ) {
                    Some(tx) => r matches HostStreamOpen::Refuse { to, code: c, message: m } && to == tx && c == code
                        && m@ == message,
                    None => r is Drop,
                },
                None => {
                    let route = opened_stream(
                        old(self)@.tunnels[key_pos(old(self)@.tunnels, payload.tunnel_id@)->0].value,
                        now.ms,
                    );
                    &&& final(self)@ == after_stream_opened(old(self)@, payload.tunnel_id@, payload.stream_id, *now)
                    &&& match to_session_controller(final(self)@, Some(route), host_id@, connection_id@) {
                        Some(tx) => r matches HostStreamOpen::Forward(t) && t == tx,
                        None => r is Drop,
                    }
                },
            },
    {
        match self.add_tunnel_stream(payload.tunnel_id.as_str(), payload.stream_id.clone(), TunnelEndpointSide::Host, now) {
            Ok(route) => {
                if !str_eq(route.host_id.as_str(), host_id) || !str_eq(route.connection_id.as_str(), connection_id) {
                    return HostStreamOpen::Drop;
                }
                match self.session_controller_for_machine(route.session_id.as_str(), host_id, connection_id) {
                    Some(tx) => HostStreamOpen::Forward(tx),
                    None => HostStreamOpen::Drop,
                }
            },
            Err(e) => {
                let sid: &str = match &session_id {
                    Some(s) => s.as_str(),
                    None => "",
                };
                proof {
                    reveal_strlit("");
                }
                assert(sid@ == match session_id {
                    Some(s) => s@,
                    None => Seq::<char>::empty(),
                });
                match self.session_controller_for_machine(sid, host_id, connection_id) {
                    Some(tx) => HostStreamOpen::Refuse { to: tx, code: e.code, message: e.message },
                    None => HostStreamOpen::Drop,
                }
            },
        }
    }

    /// A controller answers a host's stream request: a refusal drops the
    /// stream; the answer goes on to the stream's host.
    pub fn controller_stream_open_result(
        &mut self,
        session_id: Option<String>,
        payload: Parsed<TunnelStreamOpenResultPayload>,
        now: &Clock,
    ) -> (r: Result<Option<u64>, ControlError>)
        requires
            old(self).wf(),
        ensures
            final(self).wf(),
            match payload {
                Err(p) => (r matches Err(e) && is_control_error(
                    e,
                    session_id,
                    ErrorCode::InternalError,
                    "invalid tunnel.stream_open_result payload: "@ + p@,
                )) && final(self)@ == old(self)@,
                Ok(p) => if p.ok {
                    final(self)@ == old(self)@ && r == Ok::<Option<u64>, ControlError>(to_stream_host(
                        old(self)@,
                        match stream_of(old(self)@, p.tunnel_id@, p.stream_id@) {
                            Some(i) => Some(old(self)@.streams[i].value),
                            None => None,
                        },
                    ))
                } else {
                    exists|route: Option<TunnelStreamRoute>|
                        #[trigger] stream_end_step(old(self)@, final(self)@, route, p.tunnel_id@, p.stream_id@, true, TunnelEndpointSide::Controller, *now)
                            && r == Ok::<Option<u64>, ControlError>(to_stream_host(final(self)@, route))
                },
            },
    {
        let p = match payload {
            Ok(p) => p,
            Err(e) => {
                return Err(
                    ControlError {
                        session_id,
                        code: ErrorCode::InternalError,
                        message: concat2("invalid tunnel.stream_open_result payload: ", e.as_str()),
                    },
                )
            },
        };
        let route = if p.ok {
            self.tunnel_stream(p.tunnel_id.as_str(), p.stream_id.as_str())
        } else {
            self.end_stream(p.tunnel_id.as_str(), p.stream_id.as_str(), true, TunnelEndpointSide::Controller, now)
        };
        let to = match &route {
            Some(rt) => self.host_tx(rt.host_id.as_str(), rt.connection_id.as_str()),
            None => None,
        };
        Ok(to)
    }

    /// A host answers a controller's stream request: a refusal drops the
    /// stream; the answer goes on to the session's controller, when the
    /// stream is this host connection's.
    pub fn host_stream_open_result(
        &mut self,
        payload: TunnelStreamOpenResultPayload,
        host_id: &str,
        connection_id: &str,
        now: &Clock,
    ) -> (r: Option<u64>)
        requires
            old(self).wf(),
        ensures
            final(self).wf(),
            if payload.ok {
                final(self)@ == old(self)@ && r == to_session_controller(
                    old(self)@,
                    match stream_of(old(self)@, payload.tunnel_id@, payload.stream_id@) {
                        Some(i) => Some(old(self)@.streams[i].value),
                        None => None,
                    },
                    host_id@,
                    connection_id@,
                )
            } else {
                exists|route: Option<TunnelStreamRoute>|
                    #[trigger] stream_end_step(old(self)@, final(self)@, route, payload.tunnel_id@, payload.stream_id@, true, TunnelEndpointSide::Host, *now)
                        && r == to_session_controller(final(self)@, route, host_id@, connection_id@)
            },
    {
        let route = if payload.ok {
            self.tunnel_stream(payload.tunnel_id.as_str(), payload.stream_id.as_str())
        } else {
            self.end_stream(payload.tunnel_id.as_str(), payload.stream_id.as_str(), true, TunnelEndpointSide::Host, now)
        };
        match route {
            Some(rt) => {
                if !str_eq(rt.host_id.as_str(), host_id) || !str_eq(rt.connection_id.as_str(), connection_id) {
                    return None;
                }
                self.session_controller_for_machine(rt.session_id.as_str(), host_id, connection_id)
            },
            None => None,
        }
    }

    /// A controller finishes (`reset == false`) or resets its end of a
    /// stream; the message goes on to the stream's host.
    pub fn controller_stream_end(
        &mut self,
        kind: &str,
        reset: bool,
        session_id: Option<String>,
        payload: Parsed<TunnelStreamControlPayload>,
        now: &Clock,
    ) -> (r: Result<Option<u64>, ControlError>)
        requires
            old(self).wf(),
        ensures
            final(self).wf(),
            match payload {
                Err(p) => (r matches Err(e) && is_control_error(
                    e,
                    session_id,
                    ErrorCode::InternalError,
                    "invalid "@ + kind@ + " payload: "@ + p@,
                )) && final(self)@ == old(self)@,
                Ok(p) => exists|route: Option<TunnelStreamRoute>|
                    #[trigger] stream_end_step(old(self)@, final(self)@, route, p.tunnel_id@, p.stream_id@, reset, TunnelEndpointSide::Controller, *now)
                        && r == Ok::<Option<u64>, ControlError>(to_stream_host(final(self)@, route)),
            },
    {
        let p = match payload {
            Ok(p) => p,
            Err(e) => {
                let mut m = concat2("invalid ", kind);
                m.append(" payload: ");
                m.append(e.as_str());
                return Err(ControlError { session_id, code: ErrorCode::InternalError, message: m });
            },
        };
        let route = self.end_stream(p.tunnel_id.as_str(), p.stream_id.as_str(), reset, TunnelEndpointSide::Controller, now);
        let to = match &route {
            Some(rt) => self.host_tx(rt.host_id.as_str(), rt.connection_id.as_str()),
            None => None,
        };
        Ok(to)
    }

    /// A host finishes or resets its end of a stream; the message goes on to
    /// the session's controller, when the stream is this host connection's.
    pub fn host_stream_end(
        &mut self,
        reset: bool,
        payload: TunnelStreamControlPayload,
        host_id: &str,
        connection_id: &str,
        now: &Clock,
    ) -> (r: Option<u64>)
        requires
            old(self).wf(),
        ensures
            final(self).wf(),
            exists|route: Option<TunnelStreamRoute>|
                #[trigger] stream_end_step(old(self)@, final(self)@, route, payload.tunnel_id@, payload.stream_id@, reset, TunnelEndpointSide::Host, *now)
                    && r == to_session_controller(final(self)@, route, host_id@, connection_id@),
    {
        let route = self.end_stream(payload.tunnel_id.as_str(), payload.stream_id.as_str(), reset, TunnelEndpointSide::Host, now);
        match route {
            Some(rt) => {
                if !str_eq(rt.host_id.as_str(), host_id) || !str_eq(rt.connection_id.as_str(), connection_id) {
                    return None;
                }
                self.session_controller_for_machine(rt.session_id.as_str(), host_id, connection_id)
            },
            None => None,
        }
    }
}


/// Why a controller's binary frame (an upload chunk) cannot go to a host,
/// before the host's channel is looked up.
pub open spec fn frame_refusal(v: ServerView, request_id: Seq<char>) -> Option<(Option<String>, Seq<char>)> {
    match key_pos(v.routes, request_id) {
        None => Some((None, "binary frame has no active request route"@)),
        Some(i) => {
            let rt = v.routes[i].value;
            match key_pos(v.sessions, rt.session_id@) {
                None => Some((Some(rt.session_id), error_code_message(ErrorCode::SessionExpired))),
                Some(j) => {
                    let st = v.sessions[j].value;
                    if st.host_id@ != rt.host_id@ || st.connection_id@ != rt.connection_id@ {
                        Some((Some(st.session_id), "binary frame route does not match session host"@))
                    } else {
                        None
                    }
                },
            }
        },
    }
}

impl ServerState {
    /// Where a controller's binary frame for `request_id` goes: the host of
    /// the request's session, which must still be the request's host
    /// connection; the session is marked as seen.
    pub fn controller_frame_route(&mut self, request_id: &str, now: &Clock) -> (r: Result<u64, ControlError>)
        requires
            old(self).wf(),
        ensures
            final(self).wf(),
            match frame_refusal(old(self)@, request_id@) {
                Some((sid, message)) => (r matches Err(e) && is_control_error(e, sid, ErrorCode::SessionExpired, message))
                    && final(self)@ == old(self)@,
                None => {
                    let rt = old(self)@.routes[key_pos(old(self)@.routes, request_id@)->0].value;
                    let st = old(self)@.sessions[key_pos(old(self)@.sessions, rt.session_id@)->0].value;
                    &&& final(self)@ == crate::server_state::touched(old(self)@, st.session_id@, now.ms)
                    &&& match host_tx_spec(old(self)@, st.host_id@, st.connection_id@) {
                        Some(tx) => r == Ok::<u64, ControlError>(tx),
                        None => r matches Err(e) && is_control_error(
                            e,
                            Some(st.session_id),
                            ErrorCode::HostDisconnected,
                            error_code_message(ErrorCode::HostDisconnected),
                        ),
                    }
                },
            },
    {
        let route = match self.request_route(request_id) {
            Some(rt) => rt,
            None => {
                return Err(
                    ControlError {
                        session_id: None,
                        code: ErrorCode::SessionExpired,
                        message: owned("binary frame has no active request route"),
                    },
                )
            },
        };
        let session = match self.command_route(route.session_id.as_str()) {
            Some(st) => st,
            None => {
                return Err(
                    ControlError {
                        session_id: Some(route.session_id),
                        code: ErrorCode::SessionExpired,
                        message: owned(ErrorCode::SessionExpired.message()),
                    },
                )
            },
        };
        if !str_eq(session.host_id.as_str(), route.host_id.as_str()) || !str_eq(
            session.connection_id.as_str(),
            route.connection_id.as_str(),
        ) {
            return Err(
                ControlError {
                    session_id: Some(session.session_id),
                    code: ErrorCode::SessionExpired,
                    message: owned("binary frame route does not match session host"),
                },
            );
        }
        self.touch_session(session.session_id.as_str(), now);
        match self.host_tx(session.host_id.as_str(), session.connection_id.as_str()) {
            Some(tx) => Ok(tx),
            None => Err(
                ControlError {
                    session_id: Some(session.session_id),
                    code: ErrorCode::HostDisconnected,
                    message: owned(ErrorCode::HostDisconnected.message()),
                },
            ),
        }
    }
}

/// The relay's state after `bytes` of tunnel data from `side` on stream `i`
/// of tunnel `tunnel_id`: the stream, its tunnel's traffic and its session
/// are marked active.
pub open spec fn after_tunnel_data(v: ServerView, i: int, tunnel_id: Seq<char>, side: TunnelEndpointSide, bytes: usize, now: Clock) -> ServerView {
    let s1 = TunnelStreamRoute { last_activity: now.ms, ..v.streams[i].value };
    touched(traffic_in_tunnel(with_stream(v, i, s1), tunnel_id, side, bytes, now), s1.session_id@, now.ms)
}

impl ServerState {
    /// A controller's tunnel data on a stream: the traffic is counted and the
    /// data goes to the stream's host; refused when the stream is unknown to
    /// the tunnel or its host has gone.
    pub fn controller_tunnel_data(&mut self, tunnel_id: &str, stream_id: &str, bytes: usize, now: &Clock) -> (r: Result<
        u64,
        ControlError,
    >)
        requires
            old(self).wf(),
        ensures
            final(self).wf(),
            match stream_of(old(self)@, tunnel_id@, stream_id@) {
                None => final(self)@ == old(self)@ && (r matches Err(e) && is_control_error(
                    e,
                    None,
                    ErrorCode::SessionExpired,
                    "tunnel data has no active stream route"@,
                )),
                Some(i) => {
                    let route = old(self)@.streams[i].value;
                    &&& final(self)@ == after_tunnel_data(old(self)@, i, tunnel_id@, TunnelEndpointSide::Controller, bytes, *now)
                    &&& match host_tx_spec(old(self)@, route.host_id@, route.connection_id@) {
                        Some(tx) => r == Ok::<u64, ControlError>(tx),
                        None => r matches Err(e) && is_control_error(
                            e,
                            Some(route.session_id),
                            ErrorCode::HostDisconnected,
                            error_code_message(ErrorCode::HostDisconnected),
                        ),
                    }
                },
            },
    {
        let route = match self.record_tunnel_bytes(tunnel_id, stream_id, TunnelEndpointSide::Controller, bytes, now) {
            Some(route) => route,
            None => {
                return Err(
                    ControlError {
                        session_id: None,
                        code: ErrorCode::SessionExpired,
                        message: owned("tunnel data has no active stream route"),
                    },
                );
            },
        };
        match self.host_tx(route.host_id.as_str(), route.connection_id.as_str()) {
            Some(tx) => Ok(tx),
            None => Err(
                ControlError {
                    session_id: Some(route.session_id),
                    code: ErrorCode::HostDisconnected,
                    message: owned(ErrorCode::HostDisconnected.message()),
                },
            ),
        }
    }

    /// A host's tunnel data on a stream: the traffic is counted and the data
    /// goes to the controller of the stream's session, when the stream is this
    /// host connection's.
    pub fn host_tunnel_data(
        &mut self,
        tunnel_id: &str,
        stream_id: &str,
        bytes: usize,
        host_id: &str,
        connection_id: &str,
        now: &Clock,
    ) -> (r: Option<u64>)
        requires
            old(self).wf(),
        ensures
            final(self).wf(),
            match stream_of(old(self)@, tunnel_id@, stream_id@) {
                None => final(self)@ == old(self)@ && r is None,
                Some(i) => {
                    let route = old(self)@.streams[i].value;
                    &&& final(self)@ == after_tunnel_data(old(self)@, i, tunnel_id@, TunnelEndpointSide::Host, bytes, *now)
                    &&& if route.host_id@ == host_id@ && route.connection_id@ == connection_id@ {
                        r == session_controller(final(self)@, route.session_id@, host_id@, connection_id@)
                    } else {
                        r is None
                    }
                },
            },
    {
        let route = match self.record_tunnel_bytes(tunnel_id, stream_id, TunnelEndpointSide::Host, bytes, now) {
            Some(route) => route,
            None => return None,
        };
        if !str_eq(route.host_id.as_str(), host_id) || !str_eq(route.connection_id.as_str(), connection_id) {
            return None;
        }
        self.session_controller_for_machine(route.session_id.as_str(), host_id, connection_id)
    }
}

} // verus!
