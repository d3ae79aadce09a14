use vstd::prelude::*;
use crate::audit::AuditCategory;
use crate::host::HostContext;
use crate::host_audit::HostAuditRecord;
use crate::host_state::{opt_chars, HostEvent};
use crate::protocol::{
    error_code_message, ErrorCode, HostAuthRequestPayload, HostAuthResultPayload,
    HostSessionClosedPayload, HostSessionOpenedPayload,
};
use crate::state_handle::{
    after_auth_request, after_cancel_requested, after_disconnected, after_session_closed,
    after_session_opened,
};
use crate::text::{owned, str_eq};
use crate::totp::{code_accepted, verify_code, DEFAULT_SKEW_WINDOWS};

verus! {

/// What a frame from the relay asks of the host.
#[derive(Debug, Clone, Copy, PartialEq, Eq, Structural)]
pub enum ServerMessageKind {
    HelloAck,
    AuthRequest,
    SessionOpened,
    SessionClosed,
    SessionCloseResult,
    Error,
    CommandRequest,
    CommandCancel,
    TunnelOpen,
    TunnelClose,
    TunnelStreamOpen,
    TunnelStreamOpenResult,
    TunnelStreamEof,
    TunnelStreamReset,
    Other,
}

pub open spec fn server_message_kind(kind: Seq<char>) -> ServerMessageKind {
    if kind == "host.hello_ack"@ {
        ServerMessageKind::HelloAck
    } else if kind == "host.auth_request"@ {
        ServerMessageKind::AuthRequest
    } else if kind == "host.session_opened"@ {
        ServerMessageKind::SessionOpened
    } else if kind == "host.session_closed"@ {
        ServerMessageKind::SessionClosed
    } else if kind == "host.session_close_result"@ {
        ServerMessageKind::SessionCloseResult
    } else if kind == "error"@ {
        ServerMessageKind::Error
    } else if kind == "command.request"@ {
        ServerMessageKind::CommandRequest
    } else if kind == "command.cancel"@ {
        ServerMessageKind::CommandCancel
    } else if kind == "tunnel.open"@ {
        ServerMessageKind::TunnelOpen
    } else if kind == "tunnel.close"@ {
        ServerMessageKind::TunnelClose
    } else if kind == "tunnel.stream_open"@ {
        ServerMessageKind::TunnelStreamOpen
    } else if kind == "tunnel.stream_open_result"@ {
        ServerMessageKind::TunnelStreamOpenResult
    } else if kind == "tunnel.stream_eof"@ {
        ServerMessageKind::TunnelStreamEof
    } else if kind == "tunnel.stream_reset"@ {
        ServerMessageKind::TunnelStreamReset
    } else {
        ServerMessageKind::Other
    }
}

/// Which handler a frame from the relay goes to, by its type.
pub fn classify_server_message(kind: &str) -> (r: ServerMessageKind)
    ensures
        r == server_message_kind(kind@),
{
    if str_eq(kind, "host.hello_ack") {
        ServerMessageKind::HelloAck
    } else if str_eq(kind, "host.auth_request") {
        ServerMessageKind::AuthRequest
    } else if str_eq(kind, "host.session_opened") {
        ServerMessageKind::SessionOpened
    } else if str_eq(kind, "host.session_closed") {
        ServerMessageKind::SessionClosed
    } else if str_eq(kind, "host.session_close_result") {
        ServerMessageKind::SessionCloseResult
    } else if str_eq(kind, "error") {
        ServerMessageKind::Error
    } else if str_eq(kind, "command.request") {
        ServerMessageKind::CommandRequest
    } else if str_eq(kind, "command.cancel") {
        ServerMessageKind::CommandCancel
    } else if str_eq(kind, "tunnel.open") {
        ServerMessageKind::TunnelOpen
    } else if str_eq(kind, "tunnel.close") {
        ServerMessageKind::TunnelClose
    } else if str_eq(kind, "tunnel.stream_open") {
        ServerMessageKind::TunnelStreamOpen
    } else if str_eq(kind, "tunnel.stream_open_result") {
        ServerMessageKind::TunnelStreamOpenResult
    } else if str_eq(kind, "tunnel.stream_eof") {
        ServerMessageKind::TunnelStreamEof
    } else if str_eq(kind, "tunnel.stream_reset") {
        ServerMessageKind::TunnelStreamReset
    } else {
        ServerMessageKind::Other
    }
}

/// The host's answer to an authentication request, with what it records.
pub struct AuthAnswer {
    pub result: HostAuthResultPayload,
    pub event: HostEvent,
    pub record: HostAuditRecord,
}

/// What the host records about a session change.
pub struct SessionChange {
    pub event: HostEvent,
    pub record: HostAuditRecord,
}

impl HostContext {
    /// A controller asks to open a session: the one-time code is checked
    /// against the current window and one window on each side, the relay is
    /// answered, and the request recorded. A clock whose window lies beyond
    /// what an `i64` counter holds accepts no code.
    pub fn answer_auth_request(&mut self, request_id: String, payload: HostAuthRequestPayload, now: u64) -> (r: AuthAnswer)
        requires
            old(self).wf(),
        ensures
            final(self).wf(),
            ({
                let ok = now / old(self).totp_period_seconds < i64::MAX && code_accepted(
                    payload.totp@,
                    old(self).totp_seed@,
                    old(self).totp_period_seconds,
                    now,
                    DEFAULT_SKEW_WINDOWS,
                );
                &&& r.result.ok == ok
                &&& r.result.code == (if ok { None } else { Some(ErrorCode::InvalidTotp) })
                &&& opt_chars(r.result.message) == (if ok { None } else { Some(error_code_message(ErrorCode::InvalidTotp)) })
                &&& final(self).state.model() == after_auth_request(
                    old(self).state.model(),
                    r.event.time@,
                    request_id@,
                    payload.controller_label@,
                    ok,
                )
                &&& r.record.event@ == "session.auth"@
                &&& r.record.category == AuditCategory::Session
                &&& r.record.request_id == Some(request_id)
                &&& r.record.controller_label == Some(payload.controller_label)
                &&& opt_chars(r.record.result) == Some(if ok { "ok"@ } else { "failed"@ })
            }),
            final(self).totp_seed == old(self).totp_seed,
            final(self).totp_period_seconds == old(self).totp_period_seconds,
            final(self).server_url == old(self).server_url,
            final(self).host_id == old(self).host_id,
            final(self).machine_id == old(self).machine_id,
    {
        let ok = if now / self.totp_period_seconds >= 9223372036854775807u64 {
            false
        } else {
            match verify_code(
                payload.totp.as_str(),
                self.totp_seed.as_slice(),
                self.totp_period_seconds,
                now,
                DEFAULT_SKEW_WINDOWS,
            ) {
                Ok(b) => b,
                Err(_) => false,
            }
        };
        let result = HostAuthResultPayload {
            ok,
            code: if ok { None } else { Some(ErrorCode::InvalidTotp) },
            message: if ok { None } else { Some(owned(ErrorCode::InvalidTotp.message())) },
        };
        let label = payload.controller_label.clone();
        let event = self.state.record_auth_request(request_id.clone(), payload.controller_label, ok);
        let mut record = HostAuditRecord::new(AuditCategory::Session, "session.auth");
        record.request_id = Some(request_id);
        record.controller_label = Some(label);
        record.result = Some(if ok { owned("ok") } else { owned("failed") });
        AuthAnswer { result, event, record }
    }

    /// The relay opened a session on this host.
    pub fn on_session_opened(
        &mut self,
        active_session: &mut Option<String>,
        request_id: Option<String>,
        payload: HostSessionOpenedPayload,
    ) -> (r: SessionChange)
        requires
            old(self).wf(),
        ensures
            final(self).wf(),
            *final(active_session) == Some(payload.session_id),
            final(self).state.model() == after_session_opened(
                old(self).state.model(),
                r.event.time@,
                payload.session_id@,
                payload.controller_label@,
            ),
            r.record.event@ == "session.opened"@,
            r.record.request_id == request_id,
            r.record.session_id == Some(payload.session_id),
            r.record.controller_label == Some(payload.controller_label),
            opt_chars(r.record.result) == Some("ok"@),
            final(self).totp_seed == old(self).totp_seed,
            final(self).totp_period_seconds == old(self).totp_period_seconds,
    {
        *active_session = Some(payload.session_id.clone());
        let label = payload.controller_label.clone();
        let sid = payload.session_id.clone();
        let event = self.state.record_session_opened(payload.session_id, payload.controller_label);
        let mut record = HostAuditRecord::new(AuditCategory::Session, "session.opened");
        record.request_id = request_id;
        record.session_id = Some(sid);
        record.controller_label = Some(label);
        record.result = Some(owned("ok"));
        SessionChange { event, record }
    }

    /// The relay closed the session: it is no longer active and its running
    /// tasks are marked closed.
    pub fn on_session_closed(
        &mut self,
        active_session: &mut Option<String>,
        request_id: Option<String>,
        payload: HostSessionClosedPayload,
    ) -> (r: SessionChange)
        requires
            old(self).wf(),
        ensures
            final(self).wf(),
            *final(active_session) is None,
            final(self).state.model() == after_session_closed(
                old(self).state.model(),
                r.event.time@,
                payload.session_id@,
                payload.reason@,
            ),
            r.record.event@ == "session.closed"@,
            r.record.request_id == request_id,
            r.record.session_id == Some(payload.session_id),
            r.record.summary == Some(payload.reason),
            opt_chars(r.record.result) == Some("ok"@),
            final(self).totp_seed == old(self).totp_seed,
            final(self).totp_period_seconds == old(self).totp_period_seconds,
    {
        *active_session = None;
        let sid = payload.session_id.clone();
        let reason = payload.reason.clone();
        let event = self.state.record_session_closed(payload.session_id, payload.reason);
        let mut record = HostAuditRecord::new(AuditCategory::Session, "session.closed");
        record.request_id = request_id;
        record.session_id = Some(sid);
        record.result = Some(owned("ok"));
        record.summary = Some(reason);
        SessionChange { event, record }
    }

    /// The relay asked to cancel an upload in progress.
    pub fn on_upload_cancelled(&mut self, request_id: String, session_id: Option<String>, host_requested: bool) -> (r: SessionChange)
        requires
            old(self).wf(),
        ensures
            final(self).wf(),
            final(self).state.model() == after_cancel_requested(
                old(self).state.model(),
                r.event.time@,
                request_id@,
                opt_chars(session_id),
            ),
            r.record.event@ == "command.cancel"@,
            r.record.category == AuditCategory::Transfer,
            r.record.request_id == Some(request_id),
            r.record.task_id == Some(request_id),
            r.record.session_id == session_id,
            opt_chars(r.record.command) == Some("upload.begin"@),
            opt_chars(r.record.result) == Some(if host_requested { "host_requested"@ } else { "requested"@ }),
    {
        let event = self.state.record_cancel_requested(request_id.clone(), crate::host_state::clone_opt(&session_id));
        let mut record = HostAuditRecord::new(AuditCategory::Transfer, "command.cancel");
        record.request_id = Some(request_id.clone());
        record.session_id = session_id;
        record.task_id = Some(request_id);
        record.command = Some(owned("upload.begin"));
        record.command_kind = Some(owned("upload.begin"));
        record.result = Some(if host_requested { owned("host_requested") } else { owned("requested") });
        SessionChange { event, record }
    }

    /// The relay asked to cancel a running command: the request is recorded
    /// and audited under the command's category.
    pub fn on_command_cancelled(&mut self, request_id: String, session_id: Option<String>, command: String) -> (r: SessionChange)
        requires
            old(self).wf(),
        ensures
            final(self).wf(),
            final(self).state.model() == after_cancel_requested(
                old(self).state.model(),
                r.event.time@,
                request_id@,
                opt_chars(session_id),
            ),
            r.record.event@ == "command.cancel"@,
            r.record.category == crate::host_audit::category_for_command_spec(command@),
            r.record.request_id == Some(request_id),
            r.record.task_id == Some(request_id),
            r.record.session_id == session_id,
            r.record.command == Some(command),
            r.record.command_kind == Some(command),
            opt_chars(r.record.result) == Some("requested"@),
    {
        let event = self.state.record_cancel_requested(request_id.clone(), crate::host_state::clone_opt(&session_id));
        let mut record = HostAuditRecord::new(crate::host_audit::category_for_command(command.as_str()), "command.cancel");
        record.request_id = Some(request_id.clone());
        record.session_id = session_id;
        record.task_id = Some(request_id);
        record.command = Some(command.clone());
        record.command_kind = Some(command);
        record.result = Some(owned("requested"));
        SessionChange { event, record }
    }

    /// The connection to the relay ended.
    pub fn on_disconnected(&mut self, active_session: Option<String>) -> (r: SessionChange)
        requires
            old(self).wf(),
        ensures
            final(self).wf(),
            final(self).state.model() == after_disconnected(old(self).state.model(), r.event.time@, opt_chars(active_session)),
            r.record.event@ == "host.disconnected"@,
            r.record.session_id == active_session,
            opt_chars(r.record.result) == Some("ok"@),
    {
        let event = self.state.record_disconnected(crate::host_state::clone_opt(&active_session));
        let mut record = HostAuditRecord::new(AuditCategory::Host, "host.disconnected");
        record.session_id = active_session;
        record.result = Some(owned("ok"));
        SessionChange { event, record }
    }
}

} // verus!
