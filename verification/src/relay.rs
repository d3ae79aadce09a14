use vstd::prelude::*;
use crate::audit::AuditEvent;
use crate::bytes::{decimal, push_decimal};
use crate::ids::{token_label, token_label_spec};
use crate::protocol::{
    CommandStatusResultPayload, ControlOpenResultPayload, HostAuthResultPayload, HostHelloPayload, HostSessionClosePayload,
    HostSessionClosedPayload, HostSessionOpenedPayload,
    error_code_message, ControlOpenPayload, ErrorCode, ErrorPayload, HostAuthRequestPayload,
    TunnelOpenPayload, PROTOCOL_VERSION,
};
use crate::ids::{b64_url_nopad, new_session_id, new_session_token, ulid_decode, ulid_encode};
use crate::server_state::{
    session_of_host, session_values, valid_session, SessionState, rate_decision as registration_decision,
    hosts_with_machine, rate_decision, rate_table_after, rate_view, Clock, HostConn, HostLookup,
    PendingOpen, ServerState, ServerView, AUTH_ATTEMPT_LIMIT, RATE_LIMIT_WINDOW_MS,
};
use crate::table::{key_pos, upsert_spec, Entry};
use crate::text::{
    ascii_lower, contains_seq, contains_str, owned, starts_with_seq, starts_with_str, str_eq, to_ascii_lower,
    to_chars, trim_seq, is_blank, is_ws, lemma_trim_keeps_a_non_space,
};

verus! {

/// A message the relay sends, and to which channel.
pub enum Outgoing {
    Error { to: u64, request_id: Option<String>, session_id: Option<String>, code: ErrorCode, message: String },
    AuthRequest { to: u64, request_id: String, payload: HostAuthRequestPayload },
    OpenResult { to: u64, request_id: String, session_id: String, payload: ControlOpenResultPayload },
    SessionOpened { to: u64, request_id: String, session_id: String, payload: HostSessionOpenedPayload },
    SessionClosed { to: u64, request_id: Option<String>, session_id: String, payload: HostSessionClosedPayload },
    SessionCloseResult { to: u64, request_id: Option<String>, session_id: String, ok: bool },
    HelloAck { to: u64, request_id: Option<String>, server_time: String, heartbeat_interval_ms: u64 },
}

/// Whether `o` is an error message to `to` with this code and text.
pub open spec fn is_error(o: Outgoing, to: u64, request_id: Option<String>, code: ErrorCode, message: Seq<char>) -> bool {
    o matches Outgoing::Error { to: t, request_id: r, session_id: None, code: c, message: m } && t == to && r == request_id && c
        == code && m@ == message
}

/// Whether `value` names the loopback host: `localhost` (any case),
/// `127.0.0.1`, `::1` or any `127.` address.
pub open spec fn is_loopback_spec(value: Seq<char>) -> bool {
    ascii_lower(value) == "localhost"@ || value == "127.0.0.1"@ || value == "::1"@ || starts_with_seq(value, "127."@)
}

/// `::1`, `localhost` in any case and every address that starts with `127.`
/// name the loopback host; a tunnel between two such addresses with
/// non-zero ports is accepted whether or not other addresses are allowed.
pub proof fn lemma_loopback_tunnels_are_accepted(p: TunnelOpenPayload)
    ensures
        forall|a: Seq<char>| a == "::1"@ || #[trigger] ascii_lower(a) == "localhost"@ || starts_with_seq(a, "127."@)
            ==> is_loopback_spec(a),
        (p.listen_addr@ == "::1"@ || ascii_lower(p.listen_addr@) == "localhost"@ || starts_with_seq(p.listen_addr@, "127."@))
            && (p.target_host@ == "::1"@ || ascii_lower(p.target_host@) == "localhost"@ || starts_with_seq(
            p.target_host@,
            "127."@,
        )) && p.listen_port != 0 && p.target_port != 0 ==> tunnel_open_refusal(p) is None,
        forall|a: Seq<char>|
            #[trigger] is_loopback_spec(a) ==> a == "::1"@ || ascii_lower(a) == "localhost"@ || starts_with_seq(a, "127."@),
{
    reveal_strlit("::1");
    reveal_strlit("localhost");
    reveal_strlit("127.");
    reveal_strlit("127.0.0.1");
    assert("127.0.0.1"@.subrange(0, 4) =~= "127."@);
    assert forall|a: Seq<char>|
        a == "::1"@ || #[trigger] ascii_lower(a) == "localhost"@ || starts_with_seq(a, "127."@) implies trim_seq(a).len()
        > 0 by {
        if a == "::1"@ {
            assert(!is_ws(a[0]));
            lemma_trim_keeps_a_non_space(a, 0);
        } else if ascii_lower(a) == "localhost"@ {
            assert(ascii_lower(a).len() == a.len());
            assert("localhost"@.len() == 9);
            assert(ascii_lower(a)[0] == crate::text::lower_char(a[0]));
            assert(ascii_lower(a)[0] == 'l');
            assert(!is_ws(a[0]));
            lemma_trim_keeps_a_non_space(a, 0);
        } else {
            assert(a.subrange(0, 4)[0] == '1');
            assert(!is_ws(a[0]));
            lemma_trim_keeps_a_non_space(a, 0);
        }
    }
}

/// Without explicit permission, a tunnel whose listen address (or else
/// target host) is none of `::1`, `localhost` in any case, or a `127.`
/// address is refused as not loopback; the listen address is checked first.
pub proof fn lemma_other_tunnel_addresses_need_permission(p: TunnelOpenPayload)
    ensures
        trim_seq(p.listen_addr@).len() > 0 && trim_seq(p.target_host@).len() > 0 && p.listen_port != 0 && p.target_port
            != 0 && !p.allow_non_loopback_listen && !(p.listen_addr@ == "::1"@ || ascii_lower(p.listen_addr@)
            == "localhost"@ || starts_with_seq(p.listen_addr@, "127."@)) ==> tunnel_open_refusal(p) == Some(
            (ErrorCode::PermissionDenied, "tunnel listen address must be loopback unless explicitly allowed"@),
        ),
        trim_seq(p.listen_addr@).len() > 0 && trim_seq(p.target_host@).len() > 0 && p.listen_port != 0 && p.target_port
            != 0 && (p.allow_non_loopback_listen || is_loopback_spec(p.listen_addr@)) && !p.allow_non_loopback_target
            && !(p.target_host@ == "::1"@ || ascii_lower(p.target_host@) == "localhost"@ || starts_with_seq(
            p.target_host@,
            "127."@,
        )) ==> tunnel_open_refusal(p) == Some(
            (ErrorCode::PermissionDenied, "tunnel target host must be loopback unless explicitly allowed"@),
        ),
{
    reveal_strlit("127.");
    reveal_strlit("127.0.0.1");
    assert("127.0.0.1"@.subrange(0, 4) =~= "127."@);
}

pub fn is_loopback_name(value: &str) -> (r: bool)
    ensures
        r == is_loopback_spec(value@),
{
    let lower = to_ascii_lower(&to_chars(value));
    let lower_text = crate::text::from_chars(lower.as_slice());
    str_eq(lower_text.as_str(), "localhost") || str_eq(value, "127.0.0.1") || str_eq(value, "::1") || starts_with_str(
        value,
        "127.",
    )
}

/// Why a tunnel request is refused, if it is: both addresses are required,
/// both ports must be non-zero, and both ends must be loopback unless the
/// request explicitly allows otherwise.
pub open spec fn tunnel_open_refusal(p: TunnelOpenPayload) -> Option<(ErrorCode, Seq<char>)> {
    if trim_seq(p.listen_addr@).len() == 0 || trim_seq(p.target_host@).len() == 0 {
        Some((ErrorCode::InvalidPath, "tunnel listen and target addresses are required"@))
    } else if p.listen_port == 0 {
        Some((ErrorCode::InvalidPath, "tunnel listen_port must be non-zero"@))
    } else if p.target_port == 0 {
        Some((ErrorCode::InvalidPath, "tunnel target_port must be non-zero"@))
    } else if !p.allow_non_loopback_listen && !is_loopback_spec(p.listen_addr@) {
        Some((ErrorCode::PermissionDenied, "tunnel listen address must be loopback unless explicitly allowed"@))
    } else if !p.allow_non_loopback_target && !is_loopback_spec(p.target_host@) {
        Some((ErrorCode::PermissionDenied, "tunnel target host must be loopback unless explicitly allowed"@))
    } else {
        None
    }
}

pub fn validate_tunnel_open_payload(payload: &TunnelOpenPayload) -> (r: Result<(), ErrorPayload>)
    ensures
        match tunnel_open_refusal(*payload) {
            Some((code, message)) => r matches Err(e) && e.code == code && e.message@ == message,
            None => r is Ok,
        },
{
    if is_blank(payload.listen_addr.as_str()) || is_blank(payload.target_host.as_str()) {
        return Err(
            ErrorPayload { code: ErrorCode::InvalidPath, message: owned("tunnel listen and target addresses are required") },
        );
    }
    if payload.listen_port == 0 {
        return Err(ErrorPayload { code: ErrorCode::InvalidPath, message: owned("tunnel listen_port must be non-zero") });
    }
    if payload.target_port == 0 {
        return Err(ErrorPayload { code: ErrorCode::InvalidPath, message: owned("tunnel target_port must be non-zero") });
    }
    if !payload.allow_non_loopback_listen && !is_loopback_name(payload.listen_addr.as_str()) {
        return Err(
            ErrorPayload {
                code: ErrorCode::PermissionDenied,
                message: owned("tunnel listen address must be loopback unless explicitly allowed"),
            },
        );
    }
    if !payload.allow_non_loopback_target && !is_loopback_name(payload.target_host.as_str()) {
        return Err(
            ErrorPayload {
                code: ErrorCode::PermissionDenied,
                message: owned("tunnel target host must be loopback unless explicitly allowed"),
            },
        );
    }
    Ok(())
}

/// Whether a websocket read error only means the peer went away without a
/// closing handshake.
pub open spec fn is_unclean_disconnect_spec(message: Seq<char>) -> bool {
    contains_seq(message, "Connection reset without closing handshake"@) || contains_seq(message, "Connection reset by peer"@)
        || contains_seq(message, "Broken pipe"@) || contains_seq(message, "connection closed before message completed"@)
}

pub fn is_unclean_disconnect(message: &str) -> (r: bool)
    ensures
        r == is_unclean_disconnect_spec(message@),
{
    contains_str(message, "Connection reset without closing handshake") || contains_str(message, "Connection reset by peer")
        || contains_str(message, "Broken pipe") || contains_str(message, "connection closed before message completed")
}

/// The host a controller's open request is addressed to: the named host when
/// a host id is given (it must be online and on this machine), else the only
/// host online with the machine id.
pub open spec fn addressed_host(v: ServerView, open: ControlOpenPayload) -> Result<HostConn, (ErrorCode, Seq<char>)> {
    match open.host_id {
        Some(h) => match key_pos(v.hosts, h@) {
            None => Err((ErrorCode::HostNotFound, "host id is not online"@)),
            Some(i) => if v.hosts[i].value.machine_id@ != open.machine_id@ {
                Err((ErrorCode::HostNotFound, "host id does not match machine id"@))
            } else {
                Ok(v.hosts[i].value)
            },
        },
        None => {
            let m = hosts_with_machine(v.hosts, open.machine_id@);
            if m.len() == 0 {
                Err((ErrorCode::HostNotFound, error_code_message(ErrorCode::HostNotFound)))
            } else if m.len() == 1 {
                Ok(m[0])
            } else {
                Err((ErrorCode::HostBusy, ambiguous_message(open.machine_id@, m.len())))
            }
        },
    }
}

proof fn lemma_hosts_with_machine_members(s: Seq<Entry<HostConn>>, m: Seq<char>)
    ensures
        forall|k: int|
            0 <= k < hosts_with_machine(s, m).len() ==> (#[trigger] hosts_with_machine(s, m)[k]).machine_id@ == m
                && exists|i: int| 0 <= i < s.len() && s[i].value == hosts_with_machine(s, m)[k],
    decreases s.len(),
{
    if s.len() > 0 {
        let t = s.drop_last();
        lemma_hosts_with_machine_members(t, m);
        let r = hosts_with_machine(s, m);
        let q = hosts_with_machine(t, m);
        assert forall|k: int| 0 <= k < r.len() implies (#[trigger] r[k]).machine_id@ == m && exists|i: int|
            0 <= i < s.len() && s[i].value == r[k] by {
            if k < q.len() {
                assert(r[k] == q[k]);
                let i = choose|i: int| 0 <= i < t.len() && t[i].value == q[k];
                assert(s[i] == t[i]);
            } else {
                assert(s[s.len() - 1] == s.last());
            }
        }
    }
}

proof fn lemma_hosts_with_machine_complete(s: Seq<Entry<HostConn>>, m: Seq<char>)
    ensures
        forall|i: int|
            0 <= i < s.len() && (#[trigger] s[i].value).machine_id@ == m ==> exists|k: int|
                0 <= k < hosts_with_machine(s, m).len() && hosts_with_machine(s, m)[k] == s[i].value,
    decreases s.len(),
{
    if s.len() > 0 {
        let t = s.drop_last();
        lemma_hosts_with_machine_complete(t, m);
        let r = hosts_with_machine(s, m);
        let q = hosts_with_machine(t, m);
        assert forall|i: int| 0 <= i < s.len() && (#[trigger] s[i].value).machine_id@ == m implies exists|k: int|
            0 <= k < r.len() && r[k] == s[i].value by {
            if i < s.len() - 1 {
                assert(t[i] == s[i]);
                let k = choose|k: int| 0 <= k < q.len() && q[k] == t[i].value;
                assert(r[k] == q[k]);
            } else {
                assert(s[i] == s.last());
                assert(r[r.len() - 1] == s.last().value);
            }
        }
    }
}

proof fn lemma_hosts_with_machine_single(s: Seq<Entry<HostConn>>, m: Seq<char>)
    requires
        forall|i: int, j: int|
            0 <= i < s.len() && 0 <= j < s.len() && (#[trigger] s[i].value).machine_id@ == m && (#[trigger] s[j].value).machine_id@
                == m ==> i == j,
    ensures
        hosts_with_machine(s, m).len() <= 1,
    decreases s.len(),
{
    if s.len() > 0 {
        let t = s.drop_last();
        assert forall|i: int, j: int|
            0 <= i < t.len() && 0 <= j < t.len() && (#[trigger] t[i].value).machine_id@ == m && (#[trigger] t[j].value).machine_id@
                == m implies i == j by {
            assert(t[i] == s[i] && t[j] == s[j]);
        }
        lemma_hosts_with_machine_single(t, m);
        let q = hosts_with_machine(t, m);
        if s.last().value.machine_id@ == m && q.len() > 0 {
            lemma_hosts_with_machine_members(t, m);
            assert(q[0].machine_id@ == m);
            let i = choose|i: int| 0 <= i < t.len() && t[i].value == q[0];
            assert(t[i] == s[i]);
            assert(s[s.len() - 1] == s.last());
            assert(s[i].value.machine_id@ == m);
            assert(i == s.len() - 1);
        }
    }
}

/// The host an open request reaches: a host id names a host that is online
/// and on the requested machine; without one, the machine's only online
/// host; a machine with no host online is not found.
#[verifier::rlimit(80)]
pub proof fn lemma_addressed_host_is_on_the_machine(v: ServerView, open: ControlOpenPayload)
    ensures
        addressed_host(v, open) matches Ok(h) ==> h.machine_id@ == open.machine_id@ && exists|i: int|
            0 <= i < v.hosts.len() && v.hosts[i].value == h && (open.host_id matches Some(x) ==> v.hosts[i].key@ == x@),
        open.host_id is None && addressed_host(v, open) is Ok ==> forall|i: int|
            0 <= i < v.hosts.len() && (#[trigger] v.hosts[i].value).machine_id@ == open.machine_id@ ==> v.hosts[i].value
                == addressed_host(v, open)->Ok_0,
        open.host_id is None && (forall|i: int|
            0 <= i < v.hosts.len() ==> (#[trigger] v.hosts[i].value).machine_id@ != open.machine_id@) ==> addressed_host(
            v,
            open,
        ) == Err::<HostConn, (ErrorCode, Seq<char>)>((ErrorCode::HostNotFound, error_code_message(ErrorCode::HostNotFound))),
        open.host_id is None && (exists|i: int|
            0 <= i < v.hosts.len() && (#[trigger] v.hosts[i].value).machine_id@ == open.machine_id@ && forall|j: int|
                0 <= j < v.hosts.len() && (#[trigger] v.hosts[j].value).machine_id@ == open.machine_id@ ==> j == i)
            ==> addressed_host(v, open) is Ok,
{
    let m = open.machine_id@;
    let r = hosts_with_machine(v.hosts, m);
    let unique = exists|i: int|
        0 <= i < v.hosts.len() && (#[trigger] v.hosts[i].value).machine_id@ == m && forall|j: int|
            0 <= j < v.hosts.len() && (#[trigger] v.hosts[j].value).machine_id@ == m ==> j == i;
    if open.host_id is None {
        if r.len() == 1 {
            lemma_hosts_with_machine_members(v.hosts, m);
            lemma_hosts_with_machine_complete(v.hosts, m);
            assert(r[0].machine_id@ == m);
            assert forall|i: int|
                0 <= i < v.hosts.len() && (#[trigger] v.hosts[i].value).machine_id@ == m implies v.hosts[i].value == r[0] by {
                let k = choose|k: int| 0 <= k < r.len() && r[k] == v.hosts[i].value;
            }
        } else if r.len() == 0 {
            lemma_hosts_with_machine_complete(v.hosts, m);
            assert forall|i: int| 0 <= i < v.hosts.len() implies (#[trigger] v.hosts[i].value).machine_id@ != m by {
                if v.hosts[i].value.machine_id@ == m {
                    let k = choose|k: int| 0 <= k < r.len() && r[k] == v.hosts[i].value;
                }
            }
            assert(!unique);
        } else {
            lemma_hosts_with_machine_members(v.hosts, m);
            assert(r[0].machine_id@ == m);
            let w = choose|i: int| 0 <= i < v.hosts.len() && v.hosts[i].value == r[0];
            assert(v.hosts[w].value.machine_id@ == m);
            if unique {
                let i = choose|i: int|
                    0 <= i < v.hosts.len() && (#[trigger] v.hosts[i].value).machine_id@ == m && forall|j: int|
                        0 <= j < v.hosts.len() && (#[trigger] v.hosts[j].value).machine_id@ == m ==> j == i;
                lemma_hosts_with_machine_single(v.hosts, m);
            }
        }
    }
}

pub open spec fn ambiguous_message(machine_id: Seq<char>, n: nat) -> Seq<char> {
    "short machine ID "@ + machine_id + " matches "@ + decimal(n) + " online hosts; pass host_id to select one"@
}

/// Whether any session is open on this host.
pub open spec fn host_busy(v: ServerView, host_id: Seq<char>) -> bool {
    exists|i: int| 0 <= i < v.sessions.len() && #[trigger] v.sessions[i].value.host_id@ == host_id
}

/// Why an open request that passed the rate limit is refused, if it is.
pub open spec fn open_refusal(v: ServerView, open: ControlOpenPayload, request_id: Option<String>, control_token: Seq<char>) -> Option<
    (ErrorCode, Seq<char>),
> {
    if open.control_token@ != control_token {
        Some((ErrorCode::InvalidToken, error_code_message(ErrorCode::InvalidToken)))
    } else {
        match addressed_host(v, open) {
            Err(e) => Some(e),
            Ok(host) => if host.totp_period_seconds != open.totp_period_seconds {
                Some((ErrorCode::InvalidTotpPeriod, error_code_message(ErrorCode::InvalidTotpPeriod)))
            } else if !open.force_reconnect && host_busy(v, host.host_id@) {
                Some((ErrorCode::HostBusy, error_code_message(ErrorCode::HostBusy)))
            } else if request_id is None {
                Some((ErrorCode::InternalError, "control.open requires request_id"@))
            } else {
                None
            },
        }
    }
}

/// The checks of an open request that passed the rate limit, in order: a
/// wrong control token is refused as such; then a host that cannot be
/// found or chosen; then a host whose code period differs from the
/// request's, with `InvalidTotpPeriod`; then, unless a reconnect is forced,
/// a host that already has a session, as busy; a request that passes them
/// all (and carries a request id) is forwarded to the host.
pub proof fn lemma_open_checks_in_order(
    v: ServerView,
    open: ControlOpenPayload,
    request_id: Option<String>,
    control_token: Seq<char>,
)
    ensures
        open.control_token@ != control_token ==> open_refusal(v, open, request_id, control_token) == Some(
            (ErrorCode::InvalidToken, error_code_message(ErrorCode::InvalidToken)),
        ),
        open.control_token@ == control_token && addressed_host(v, open) is Err ==> open_refusal(
            v,
            open,
            request_id,
            control_token,
        ) == Some(addressed_host(v, open)->Err_0),
        open.control_token@ == control_token && addressed_host(v, open) is Ok && addressed_host(v, open)->Ok_0.totp_period_seconds
            != open.totp_period_seconds ==> open_refusal(v, open, request_id, control_token) == Some(
            (ErrorCode::InvalidTotpPeriod, error_code_message(ErrorCode::InvalidTotpPeriod)),
        ),
        open.control_token@ == control_token && addressed_host(v, open) is Ok && addressed_host(v, open)->Ok_0.totp_period_seconds
            == open.totp_period_seconds && !open.force_reconnect && (exists|i: int|
            0 <= i < v.sessions.len() && #[trigger] v.sessions[i].value.host_id@ == addressed_host(v, open)->Ok_0.host_id@)
            ==> open_refusal(v, open, request_id, control_token) == Some(
            (ErrorCode::HostBusy, error_code_message(ErrorCode::HostBusy)),
        ),
        open.control_token@ == control_token && addressed_host(v, open) is Ok && addressed_host(v, open)->Ok_0.totp_period_seconds
            == open.totp_period_seconds && (open.force_reconnect || forall|i: int|
            0 <= i < v.sessions.len() ==> #[trigger] v.sessions[i].value.host_id@ != addressed_host(v, open)->Ok_0.host_id@)
            && request_id is Some ==> open_refusal(v, open, request_id, control_token) is None,
{
}

/// The audit of an open request refused for a wrong control token.
pub open spec fn is_bad_token_audit(a: AuditEvent, open: ControlOpenPayload, request_id: Option<String>) -> bool {
    &&& a.side@ == "server"@ && a.event@ == "session.auth"@
    &&& a.machine_id matches Some(m) && m@ == open.machine_id@
    &&& a.request_id == request_id
    &&& a.host_id is None && a.session_id is None
    &&& a.result matches Some(x) && x@ == "failed"@
    &&& a.summary matches Some(x) && x@ == "invalid control token"@
}

/// What handling a controller's open request does.
pub struct OpenStep {
    pub sends: Vec<Outgoing>,
    pub audit: Option<AuditEvent>,
}

impl ServerState {
    /// A controller asks to open a session: the protocol version, the machine's
    /// attempt rate, the control token, the addressed host, its code period
    /// and whether it is busy are checked in turn; the first failure is
    /// answered with an error, else the request is recorded as pending and
    /// the host is asked to check the one-time code.
    pub fn control_open(
        &mut self,
        open: ControlOpenPayload,
        request_id: Option<String>,
        control_token: &str,
        controller_tx: u64,
        now: &Clock,
    ) -> (r: OpenStep)
        requires
            old(self).wf(),
        ensures
            final(self).wf(),
            open.protocol_version == PROTOCOL_VERSION && rate_decision(
                old(self)@.auth_attempts,
                open.machine_id@,
                AUTH_ATTEMPT_LIMIT as nat,
                RATE_LIMIT_WINDOW_MS,
                now.ms,
            ).0 && open.control_token@ == control_token@ && (addressed_host(old(self)@, open) matches Ok(h)
                && h.totp_period_seconds != open.totp_period_seconds) ==> {
                &&& r.sends@.len() == 1
                &&& is_error(
                    r.sends@[0],
                    controller_tx,
                    request_id,
                    ErrorCode::InvalidTotpPeriod,
                    error_code_message(ErrorCode::InvalidTotpPeriod),
                )
                &&& r.audit is None
                &&& final(self)@.pending == old(self)@.pending
            },
            if open.protocol_version != PROTOCOL_VERSION {
                &&& r.sends@.len() == 1
                &&& is_error(r.sends@[0], controller_tx, request_id, ErrorCode::InternalError, "unsupported protocol version"@)
                &&& r.audit is None
                &&& final(self)@ == old(self)@
            } else {
                let (allowed, events) = rate_decision(
                    old(self)@.auth_attempts,
                    open.machine_id@,
                    AUTH_ATTEMPT_LIMIT as nat,
                    RATE_LIMIT_WINDOW_MS,
                    now.ms,
                );
                let v1 = final(self)@;
                &&& rate_view(v1.auth_attempts) == rate_table_after(old(self)@.auth_attempts, open.machine_id@, events)
                &&& v1.hosts == old(self)@.hosts
                &&& v1.sessions == old(self)@.sessions
                &&& v1.routes == old(self)@.routes
                &&& v1.jobs == old(self)@.jobs
                &&& v1.tunnels == old(self)@.tunnels
                &&& v1.streams == old(self)@.streams
                &&& v1.registrations == old(self)@.registrations
                &&& if !allowed {
                    &&& r.sends@.len() == 1
                    &&& is_error(r.sends@[0], controller_tx, request_id, ErrorCode::PermissionDenied, "authentication rate limit exceeded"@)
                    &&& r.audit is None
                    &&& v1.pending == old(self)@.pending
                } else {
                    match open_refusal(old(self)@, open, request_id, control_token@) {
                        Some((code, message)) => {
                            &&& r.sends@.len() == 1
                            &&& is_error(
                                r.sends@[0],
                                controller_tx,
                                if request_id is Some || code != ErrorCode::InternalError { request_id } else { None },
                                code,
                                message,
                            )
                            &&& v1.pending == old(self)@.pending
                            &&& (code == ErrorCode::InvalidToken) == (r.audit is Some)
                            &&& r.audit matches Some(a) ==> is_bad_token_audit(a, open, request_id)
                        },
                        None => {
                            let host = addressed_host(old(self)@, open)->Ok_0;
                            let rid = request_id->Some_0;
                            let label = token_label_spec(open.control_token@);
                            &&& r.audit is None
                            &&& r.sends@.len() == 1
                            &&& r.sends@[0] matches Outgoing::AuthRequest { to, request_id: q, payload }
                            &&& to == host.tx
                            &&& q == rid
                            &&& payload.totp == open.totp
                            &&& payload.controller_label@ == label
                            &&& key_pos(v1.pending, rid@) matches Some(j)
                            &&& v1.pending[j].value.host_id == host.host_id
                            &&& v1.pending[j].value.machine_id == open.machine_id
                            &&& v1.pending[j].value.connection_id == host.connection_id
                            &&& v1.pending[j].value.controller_tx == controller_tx
                            &&& v1.pending[j].value.controller_label@ == label
                            &&& v1.pending[j].value.force_reconnect == open.force_reconnect
                            &&& v1.pending[j].value.created_at == now.ms
                        },
                    }
                }
            },
    {
        proof {
            lemma_open_checks_in_order(self@, open, request_id, control_token@);
        }
        let mut sends: Vec<Outgoing> = Vec::new();
        if open.protocol_version != PROTOCOL_VERSION {
            sends.push(
                Outgoing::Error {
                    to: controller_tx,
                    request_id,
                    session_id: None,
                    code: ErrorCode::InternalError,
                    message: owned("unsupported protocol version"),
                },
            );
            return OpenStep { sends, audit: None };
        }
        if !self.allow_auth_attempt(open.machine_id.as_str(), now) {
            sends.push(
                Outgoing::Error {
                    to: controller_tx,
                    request_id,
                    session_id: None,
                    code: ErrorCode::PermissionDenied,
                    message: owned("authentication rate limit exceeded"),
                },
            );
            return OpenStep { sends, audit: None };
        }
        let ghost v0 = old(self)@;
        assert(self@.hosts == v0.hosts && self@.sessions == v0.sessions && self@.pending == v0.pending);
        if !str_eq(open.control_token.as_str(), control_token) {
            let mut event = AuditEvent::new("server", "session.auth");
            event.machine_id = Some(open.machine_id.clone());
            event.request_id = clone_text(&request_id);
            event.result = Some(owned("failed"));
            event.summary = Some(owned("invalid control token"));
            sends.push(
                Outgoing::Error {
                    to: controller_tx,
                    request_id,
                    session_id: None,
                    code: ErrorCode::InvalidToken,
                    message: owned(ErrorCode::InvalidToken.message()),
                },
            );
            return OpenStep { sends, audit: Some(event) };
        }
        let host = match self.addressed_host(&open) {
            Ok(h) => h,
            Err((code, message)) => {
                sends.push(Outgoing::Error { to: controller_tx, request_id, session_id: None, code, message });
                return OpenStep { sends, audit: None };
            },
        };
        if host.totp_period_seconds != open.totp_period_seconds {
            sends.push(
                Outgoing::Error {
                    to: controller_tx,
                    request_id,
                    session_id: None,
                    code: ErrorCode::InvalidTotpPeriod,
                    message: owned(ErrorCode::InvalidTotpPeriod.message()),
                },
            );
            return OpenStep { sends, audit: None };
        }
        if !open.force_reconnect && self.host_has_active_session(host.host_id.as_str()) {
            sends.push(
                Outgoing::Error {
                    to: controller_tx,
                    request_id,
                    session_id: None,
                    code: ErrorCode::HostBusy,
                    message: owned(ErrorCode::HostBusy.message()),
                },
            );
            return OpenStep { sends, audit: None };
        }
        let rid = match request_id {
            Some(rid) => rid,
            None => {
                sends.push(
                    Outgoing::Error {
                        to: controller_tx,
                        request_id: None,
                        session_id: None,
                        code: ErrorCode::InternalError,
                        message: owned("control.open requires request_id"),
                    },
                );
                return OpenStep { sends, audit: None };
            },
        };
        let controller_label = token_label(open.control_token.as_str());
        let pending = PendingOpen {
            host_id: host.host_id.clone(),
            machine_id: open.machine_id.clone(),
            connection_id: host.connection_id.clone(),
            controller_tx,
            controller_label: controller_label.clone(),
            force_reconnect: open.force_reconnect,
            created_at: now.ms,
        };
        let ghost pend = pending;
        let ghost before = self@.pending;
        self.insert_pending_open(rid.clone(), pending);
        proof {
            crate::server_state::lemma_upsert_then_lookup(before, Entry { key: rid, value: pend });
        }
        sends.push(
            Outgoing::AuthRequest {
                to: host.tx,
                request_id: rid,
                payload: HostAuthRequestPayload { totp: open.totp, controller_label },
            },
        );
        OpenStep { sends, audit: None }
    }

    /// The host a controller's open request is addressed to, or why there is none.
    pub fn addressed_host(&self, open: &ControlOpenPayload) -> (r: Result<HostConn, (ErrorCode, String)>)
        requires
            self.wf(),
        ensures
            match addressed_host(self@, *open) {
                Ok(h) => r == Ok::<HostConn, (ErrorCode, String)>(h),
                Err((code, message)) => r matches Err((c, m)) && c == code && m@ == message,
            },
    {
        match &open.host_id {
            Some(h) => match self.host(h.as_str()) {
                None => Err((ErrorCode::HostNotFound, owned("host id is not online"))),
                Some(host) => if !str_eq(host.machine_id.as_str(), open.machine_id.as_str()) {
                    Err((ErrorCode::HostNotFound, owned("host id does not match machine id")))
                } else {
                    Ok(host)
                },
            },
            None => match self.host_for_machine_id(open.machine_id.as_str()) {
                HostLookup::Found(host) => Ok(host),
                HostLookup::NotFound => Err((ErrorCode::HostNotFound, owned(ErrorCode::HostNotFound.message()))),
                HostLookup::Ambiguous(matches) => {
                    let mut m = owned("short machine ID ");
                    m.append(open.machine_id.as_str());
                    m.append(" matches ");
                    push_decimal(&mut m, matches.len() as u64);
                    m.append(" online hosts; pass host_id to select one");
                    Err((ErrorCode::HostBusy, m))
                },
            },
        }
    }
}

fn clone_text(o: &Option<String>) -> (r: Option<String>)
    ensures
        r == *o,
{
    match o {
        Some(s) => Some(s.clone()),
        None => None,
    }
}


/// The heartbeat interval the relay announces to hosts.
pub const HEARTBEAT_INTERVAL_MS: u64 = 15000;

/// What handling a host's frame does: the messages to send and the audit
/// records to append.
pub struct RelayStep {
    pub sends: Vec<Outgoing>,
    pub audits: Vec<AuditEvent>,
}

/// Whether `o` is addressed to channel `to`.
pub open spec fn sent_to(o: Outgoing, to: u64) -> bool {
    match o {
        Outgoing::Error { to: t, .. } => t == to,
        Outgoing::AuthRequest { to: t, .. } => t == to,
        Outgoing::OpenResult { to: t, .. } => t == to,
        Outgoing::SessionOpened { to: t, .. } => t == to,
        Outgoing::SessionClosed { to: t, .. } => t == to,
        Outgoing::SessionCloseResult { to: t, .. } => t == to,
        Outgoing::HelloAck { to: t, .. } => t == to,
    }
}

fn audit_event(event: &str, machine_id: &String, host_id: &String) -> (r: AuditEvent)
    ensures
        r.side@ == "server"@,
        r.event@ == event@,
        r.machine_id == Some(*machine_id),
        r.host_id == Some(*host_id),
        r.session_id is None,
        r.request_id is None,
        r.result is None,
        r.summary is None,
{
    let mut e = AuditEvent::new("server", event);
    e.machine_id = Some(machine_id.clone());
    e.host_id = Some(host_id.clone());
    e
}

/// The relay's state once pending open `i` (taken by `p`) is granted as
/// session `st`: the request is no longer pending, the host connection's
/// sessions are closed with `err` when the controller forced a reconnect,
/// and `st` is recorded.
pub open spec fn after_grant(
    v: ServerView,
    i: int,
    p: PendingOpen,
    host_id: Seq<char>,
    connection_id: Seq<char>,
    st: SessionState,
    err: ErrorPayload,
    now: Clock,
) -> ServerView {
    let v1 = ServerView { pending: v.pending.remove(i), ..v };
    let v2 = if p.force_reconnect {
        crate::server_state::after_removing_sessions(v1, session_of_host(host_id, Some(connection_id)), err, now)
    } else {
        v1
    };
    ServerView { sessions: upsert_spec(v2.sessions, Entry { key: st.session_id, value: st }), ..v2 }
}

/// A session granted to pending open `p` on this host connection, seen now,
/// with a fresh ULID as its id and 32 random bytes in URL-safe base64 as its
/// secret token.
pub open spec fn is_granted_session(st: SessionState, p: PendingOpen, host_id: Seq<char>, connection_id: Seq<char>, now: u64) -> bool {
    &&& exists|v: u128| st.session_id@ == ulid_encode(v) && ulid_decode(st.session_id@) == Some(v)
    &&& exists|b: Seq<u8>| b.len() == 32 && st.session_token@ == b64_url_nopad(b)
    &&& st.host_id@ == host_id
    &&& st.machine_id@ == p.machine_id@
    &&& st.connection_id@ == connection_id
    &&& st.controller_tx == Some(p.controller_tx)
    &&& st.last_seen == now
}

/// The controller's answer to a granted open: the session's id and secret
/// token, the host and the machine.
pub open spec fn is_open_result(o: Outgoing, p: PendingOpen, request_id: Seq<char>, st: SessionState) -> bool {
    &&& o matches Outgoing::OpenResult { to, request_id: q, session_id, payload }
    &&& to == p.controller_tx
    &&& q@ == request_id
    &&& session_id@ == st.session_id@
    &&& payload.ok
    &&& payload.session_id@ == st.session_id@
    &&& payload.session_token@ == st.session_token@
    &&& payload.host_id@ == st.host_id@
    &&& payload.machine_id@ == p.machine_id@
}

/// The host's notice of a granted session, with the controller's label.
pub open spec fn is_session_opened(o: Outgoing, tx: u64, p: PendingOpen, request_id: Seq<char>, st: SessionState) -> bool {
    &&& o matches Outgoing::SessionOpened { to, request_id: q, session_id, payload }
    &&& to == tx
    &&& q@ == request_id
    &&& session_id@ == st.session_id@
    &&& payload.session_id@ == st.session_id@
    &&& payload.controller_label@ == p.controller_label@
}

/// The host connection's channel, when the host is registered on it.
pub open spec fn connection_tx(v: ServerView, host_id: Seq<char>, connection_id: Seq<char>) -> Option<u64> {
    match key_pos(v.hosts, host_id) {
        Some(h) => if v.hosts[h].value.connection_id@ == connection_id { Some(v.hosts[h].value.tx) } else { None },
        None => None,
    }
}

/// What a granted open sends last: the controller's answer, then the host's
/// notice when the host is still on that connection.
pub open spec fn grant_messages_end(sends: Seq<Outgoing>, tx: Option<u64>, p: PendingOpen, request_id: Seq<char>, st: SessionState) -> bool {
    let n = sends.len();
    match tx {
        Some(t) => n >= 2 && is_open_result(sends[n - 2], p, request_id, st) && is_session_opened(sends[n - 1], t, p, request_id, st),
        None => n >= 1 && is_open_result(sends[n - 1], p, request_id, st),
    }
}

impl ServerState {
    /// The host answered a pending open request. A result for an unknown
    /// request is ignored; one from another host connection is refused; a
    /// failed check is reported to the controller; otherwise (after closing
    /// the host's sessions when the controller forced a reconnect) a session
    /// with a fresh id and token is created and announced to both sides.
    pub fn host_auth_result(
        &mut self,
        host_id: &str,
        connection_id: &str,
        request_id: Option<String>,
        result: HostAuthResultPayload,
        now: &Clock,
    ) -> (r: RelayStep)
        requires
            old(self).wf(),
        ensures
            final(self).wf(),
            match request_id {
                None => r.sends@.len() == 0 && r.audits@.len() == 0 && final(self)@ == old(self)@,
                Some(rid) => match key_pos(old(self)@.pending, rid@) {
                    None => r.sends@.len() == 0 && r.audits@.len() == 0 && final(self)@ == old(self)@,
                    Some(i) => {
                        let p = old(self)@.pending[i].value;
                        let v1 = ServerView { pending: old(self)@.pending.remove(i), ..old(self)@ };
                        if p.host_id@ != host_id@ || p.connection_id@ != connection_id@ {
                            &&& r.sends@.len() == 1
                            &&& is_error(r.sends@[0], p.controller_tx, Some(rid), ErrorCode::InternalError, "auth result machine mismatch"@)
                            &&& r.audits@.len() == 0
                            &&& final(self)@ == v1
                        } else if !result.ok {
                            let code = match result.code {
                                Some(c) => c,
                                None => ErrorCode::InvalidTotp,
                            };
                            &&& r.sends@.len() == 1
                            &&& is_error(
                                r.sends@[0],
                                p.controller_tx,
                                Some(rid),
                                code,
                                match result.message {
                                    Some(m) => m@,
                                    None => error_code_message(code),
                                },
                            )
                            &&& r.audits@.len() == 1
                            &&& is_refused_auth_audit(r.audits@[0], p, host_id@, rid@, code)
                            &&& final(self)@ == v1
                        } else {
                            exists|st: SessionState, err: ErrorPayload|
                                #![trigger after_grant(old(self)@, i, p, host_id@, connection_id@, st, err, *now)]
                                {
                                    &&& is_granted_session(st, p, host_id@, connection_id@, now.ms)
                                    &&& p.force_reconnect ==> err.code == ErrorCode::Cancelled
                                        && err.message@ == "session replaced by force reconnect"@
                                    &&& final(self)@ == after_grant(old(self)@, i, p, host_id@, connection_id@, st, err, *now)
                                    &&& grant_messages_end(
                                        r.sends@,
                                        connection_tx(old(self)@, host_id@, connection_id@),
                                        p,
                                        rid@,
                                        st,
                                    )
                                    &&& {
                                        let tx = connection_tx(old(self)@, host_id@, connection_id@);
                                        let n = r.sends@.len() - (if tx is Some { 2int } else { 1int });
                                        if p.force_reconnect {
                                            replacement_sends(
                                                r.sends@.subrange(0, n),
                                                crate::server_state::session_values(
                                                    old(self)@.sessions.filter(session_of_host(host_id@, Some(connection_id@))),
                                                ),
                                                tx,
                                                rid@,
                                            )
                                        } else {
                                            n == 0
                                        }
                                    }
                                    &&& {
                                        let closed = crate::server_state::session_values(
                                            old(self)@.sessions.filter(session_of_host(host_id@, Some(connection_id@))),
                                        );
                                        let m = if p.force_reconnect { closed.len() as int } else { 0int };
                                        &&& r.audits@.len() == m + 1
                                        &&& forall|k: int|
                                            0 <= k < m ==> is_force_closed_audit(#[trigger] r.audits@[k], closed[k], host_id@, rid@)
                                        &&& is_session_created_audit(r.audits@[m], p, host_id@, rid@, st)
                                    }
                                }
                        }
                    },
                },
            },
    {
        let mut sends: Vec<Outgoing> = Vec::new();
        let mut audits: Vec<AuditEvent> = Vec::new();
        let rid = match request_id {
            Some(rid) => rid,
            None => return RelayStep { sends, audits },
        };
        let pending = match self.take_pending_open(rid.as_str()) {
            Some(p) => p,
            None => return RelayStep { sends, audits },
        };
        if !str_eq(pending.host_id.as_str(), host_id) || !str_eq(pending.connection_id.as_str(), connection_id) {
            sends.push(
                Outgoing::Error {
                    to: pending.controller_tx,
                    request_id: Some(rid),
                    session_id: None,
                    code: ErrorCode::InternalError,
                    message: owned("auth result machine mismatch"),
                },
            );
            return RelayStep { sends, audits };
        }
        let host = owned(host_id);
        if !result.ok {
            let code = match result.code {
                Some(c) => c,
                None => ErrorCode::InvalidTotp,
            };
            let message = match result.message {
                Some(m) => m,
                None => owned(code.message()),
            };
            sends.push(
                Outgoing::Error { to: pending.controller_tx, request_id: Some(rid.clone()), session_id: None, code, message },
            );
            let mut e = audit_event("session.auth", &pending.machine_id, &host);
            e.request_id = Some(rid);
            e.result = Some(owned("failed"));
            e.summary = Some(owned(code.message()));
            audits.push(e);
            return RelayStep { sends, audits };
        }
        let ghost v1 = self@;
        if pending.force_reconnect {
            self.close_sessions_for_force_reconnect(host_id, connection_id, rid.as_str(), &mut sends, &mut audits, now);
        }
        let ghost v2 = self@;
        let ghost err: ErrorPayload = if pending.force_reconnect {
            choose|err: ErrorPayload|
                err.code == ErrorCode::Cancelled && err.message@ == "session replaced by force reconnect"@
                    && #[trigger] crate::server_state::after_removing_sessions(
                    v1,
                    session_of_host(host_id@, Some(connection_id@)),
                    err,
                    *now,
                ) == v2
        } else {
            arbitrary()
        };
        let ghost s_mid = sends@;
        let session_id = new_session_id();
        let session_token = new_session_token();
        let conn = owned(connection_id);
        let ghost st = SessionState {
            session_id,
            session_token,
            host_id: host,
            machine_id: pending.machine_id,
            connection_id: conn,
            controller_tx: Some(pending.controller_tx),
            last_seen: now.ms,
        };
        self.create_session(
            session_id.clone(),
            session_token.clone(),
            host.clone(),
            pending.machine_id.clone(),
            conn,
            pending.controller_tx,
            now,
        );
        proof {
            crate::server_state::lemma_upsert_then_lookup(v2.sessions, Entry { key: session_id, value: st });
            assert(key_pos(self@.sessions, session_id@) matches Some(j) && self@.sessions[j].value == st);
        }
        sends.push(
            Outgoing::OpenResult {
                to: pending.controller_tx,
                request_id: rid.clone(),
                session_id: session_id.clone(),
                payload: ControlOpenResultPayload {
                    ok: true,
                    session_id: session_id.clone(),
                    session_token,
                    host_id: host.clone(),
                    machine_id: pending.machine_id.clone(),
                },
            },
        );
        match self.host_tx(host_id, connection_id) {
            Some(host_tx) => {
                sends.push(
                    Outgoing::SessionOpened {
                        to: host_tx,
                        request_id: rid.clone(),
                        session_id: session_id.clone(),
                        payload: HostSessionOpenedPayload {
                            session_id: session_id.clone(),
                            controller_label: pending.controller_label.clone(),
                        },
                    },
                );
            },
            None => {},
        }
        let mut e = audit_event("session.created", &pending.machine_id, &host);
        e.session_id = Some(session_id);
        e.request_id = Some(rid);
        e.result = Some(owned("ok"));
        let ghost a_mid = audits@;
        audits.push(e);
        proof {
            let closed = crate::server_state::session_values(
                old(self)@.sessions.filter(session_of_host(host_id@, Some(connection_id@))),
            );
            let m = if pending.force_reconnect { closed.len() as int } else { 0int };
            assert(v1.sessions == old(self)@.sessions);
            assert(a_mid.len() == m);
            assert forall|k: int| 0 <= k < m implies is_force_closed_audit(
                #[trigger] audits@[k],
                closed[k],
                host_id@,
                rid@,
            ) by {
                assert(audits@[k] == a_mid[k]);
                assert(a_mid[0 + k] == a_mid[k]);
            }
        }
        proof {
            let i = key_pos(old(self)@.pending, rid@)->0;
            assert(self@ == after_grant(old(self)@, i, pending, host_id@, connection_id@, st, err, *now));
            assert(grant_messages_end(sends@, connection_tx(old(self)@, host_id@, connection_id@), pending, rid@, st));
            let tx = connection_tx(old(self)@, host_id@, connection_id@);
            let n = sends@.len() - (if tx is Some { 2int } else { 1int });
            assert(sends@.subrange(0, n) =~= s_mid);
            assert(s_mid.subrange(0, s_mid.len() as int) =~= s_mid);
        }
        RelayStep { sends, audits }
    }
}


/// The audit of a session closed for a forced reconnect.
pub open spec fn is_force_closed_audit(e: AuditEvent, st: SessionState, host_id: Seq<char>, request_id: Seq<char>) -> bool {
    &&& e.side@ == "server"@ && e.event@ == "session.closed"@
    &&& e.machine_id == Some(st.machine_id)
    &&& e.host_id matches Some(h) && h@ == host_id
    &&& e.session_id == Some(st.session_id)
    &&& e.request_id matches Some(q) && q@ == request_id
    &&& e.result matches Some(x) && x@ == "closed"@
    &&& e.summary matches Some(x) && x@ == "force reconnect"@
}

/// The audit of an open request whose one-time code the host refused.
pub open spec fn is_refused_auth_audit(e: AuditEvent, p: PendingOpen, host_id: Seq<char>, request_id: Seq<char>, code: ErrorCode) -> bool {
    &&& e.side@ == "server"@ && e.event@ == "session.auth"@
    &&& e.machine_id matches Some(m) && m@ == p.machine_id@
    &&& e.host_id matches Some(h) && h@ == host_id
    &&& e.request_id matches Some(q) && q@ == request_id
    &&& e.session_id is None
    &&& e.result matches Some(x) && x@ == "failed"@
    &&& e.summary matches Some(x) && x@ == error_code_message(code)
}

/// The audit of a session created for a granted open request.
pub open spec fn is_session_created_audit(e: AuditEvent, p: PendingOpen, host_id: Seq<char>, request_id: Seq<char>, st: SessionState) -> bool {
    &&& e.side@ == "server"@ && e.event@ == "session.created"@
    &&& e.machine_id matches Some(m) && m@ == p.machine_id@
    &&& e.host_id matches Some(h) && h@ == host_id
    &&& e.request_id matches Some(q) && q@ == request_id
    &&& e.session_id matches Some(x) && x@ == st.session_id@
    &&& e.result matches Some(x) && x@ == "ok"@
    &&& e.summary is None
}

/// A controller's notice that its session was replaced by a forced reconnect.
pub open spec fn is_replaced_notice(o: Outgoing, to: u64, request_id: Seq<char>, session_id: Seq<char>) -> bool {
    &&& o matches Outgoing::Error { to: t, request_id: Some(q), session_id: Some(sid), code, message }
    &&& t == to && q@ == request_id && sid@ == session_id
    &&& code == ErrorCode::SessionExpired
    &&& message@ == "session replaced by force reconnect"@
}

/// A host's notice that a session was closed for a forced reconnect.
pub open spec fn is_force_closed_notice(o: Outgoing, to: u64, request_id: Seq<char>, session_id: Seq<char>) -> bool {
    &&& o matches Outgoing::SessionClosed { to: t, request_id: Some(q), session_id: sid, payload }
    &&& t == to && q@ == request_id && sid@ == session_id
    &&& payload.session_id@ == session_id
    &&& payload.reason@ == "force_reconnect"@
}

/// How many notices a session closed for a forced reconnect gets.
pub open spec fn replacement_count(st: SessionState, host_tx: Option<u64>) -> int {
    (if st.controller_tx is Some { 1int } else { 0int }) + (if host_tx is Some { 1int } else { 0int })
}

/// The notices of sessions closed for a forced reconnect, in order: for each,
/// its controller's (when it has one), then the host's (when the host is on
/// the connection).
pub open spec fn replacement_sends(sends: Seq<Outgoing>, removed: Seq<SessionState>, host_tx: Option<u64>, request_id: Seq<char>) -> bool
    decreases removed.len(),
{
    if removed.len() == 0 {
        sends.len() == 0
    } else {
        let st = removed.last();
        let k = replacement_count(st, host_tx);
        let n = sends.len() as int;
        &&& n >= k
        &&& replacement_sends(sends.subrange(0, n - k), removed.drop_last(), host_tx, request_id)
        &&& match st.controller_tx {
            Some(c) => is_replaced_notice(sends[n - k], c, request_id, st.session_id@),
            None => true,
        }
        &&& match host_tx {
            Some(h) => is_force_closed_notice(sends[n - 1], h, request_id, st.session_id@),
            None => true,
        }
    }
}

impl ServerState {
    /// A controller forced a reconnect: the host connection's sessions are
    /// closed, each controller told its session was replaced and the host told
    /// each session closed.
    fn close_sessions_for_force_reconnect(
        &mut self,
        host_id: &str,
        connection_id: &str,
        request_id: &str,
        sends: &mut Vec<Outgoing>,
        audits: &mut Vec<AuditEvent>,
        now: &Clock,
    )
        requires
            old(self).wf(),
        ensures
            final(self).wf(),
            final(self)@.hosts == old(self)@.hosts,
            final(self)@.pending == old(self)@.pending,
            final(sends)@.subrange(0, old(sends)@.len() as int) == old(sends)@,
            final(sends)@.len() >= old(sends)@.len(),
            replacement_sends(
                final(sends)@.subrange(old(sends)@.len() as int, final(sends)@.len() as int),
                crate::server_state::session_values(
                    old(self)@.sessions.filter(session_of_host(host_id@, Some(connection_id@))),
                ),
                connection_tx(old(self)@, host_id@, connection_id@),
                request_id@,
            ),
            final(audits)@.subrange(0, old(audits)@.len() as int) == old(audits)@,
            final(audits)@.len() == old(audits)@.len() + crate::server_state::session_values(
                old(self)@.sessions.filter(session_of_host(host_id@, Some(connection_id@))),
            ).len(),
            forall|k: int|
                0 <= k < final(audits)@.len() - old(audits)@.len() ==> is_force_closed_audit(
                    #[trigger] final(audits)@[old(audits)@.len() + k],
                    crate::server_state::session_values(
                        old(self)@.sessions.filter(session_of_host(host_id@, Some(connection_id@))),
                    )[k],
                    host_id@,
                    request_id@,
                ),
            exists|err: ErrorPayload|
                err.code == ErrorCode::Cancelled && err.message@ == "session replaced by force reconnect"@
                    && #[trigger] crate::server_state::after_removing_sessions(
                    old(self)@,
                    session_of_host(host_id@, Some(connection_id@)),
                    err,
                    *now,
                ) == final(self)@,
    {
        let err = ErrorPayload { code: ErrorCode::Cancelled, message: owned("session replaced by force reconnect") };
        let removed = self.remove_sessions_for_host(host_id, Some(connection_id), err.clone(), now);
        assert(crate::server_state::opt_text(Some(connection_id)) == Some(connection_id@));
        let ghost after = self@;
        let ghost s0 = sends@;
        let ghost a0 = audits@;
        if removed.len() == 0 {
            assert(sends@.subrange(s0.len() as int, sends@.len() as int) =~= Seq::<Outgoing>::empty());
            return;
        }
        let host_tx = self.host_tx(host_id, connection_id);
        let host = owned(host_id);
        let mut i: usize = 0;
        while i < removed.len()
            invariant
                i <= removed@.len(),
                sends@.len() >= s0.len(),
                sends@.subrange(0, s0.len() as int) == s0,
                replacement_sends(
                    sends@.subrange(s0.len() as int, sends@.len() as int),
                    removed@.take(i as int),
                    host_tx,
                    request_id@,
                ),
                audits@.len() == a0.len() + i,
                audits@.subrange(0, a0.len() as int) == a0,
                host@ == host_id@,
                forall|j: int| 0 <= j < i ==> is_force_closed_audit(#[trigger] audits@[a0.len() + j], removed@[j], host_id@, request_id@),
            decreases removed@.len() - i,
        {
            let session = &removed[i];
            let ghost before = sends@;
            match session.controller_tx {
                Some(tx) => {
                    sends.push(
                        Outgoing::Error {
                            to: tx,
                            request_id: Some(owned(request_id)),
                            session_id: Some(session.session_id.clone()),
                            code: ErrorCode::SessionExpired,
                            message: owned("session replaced by force reconnect"),
                        },
                    );
                },
                None => {},
            }
            match host_tx {
                Some(tx) => {
                    sends.push(
                        Outgoing::SessionClosed {
                            to: tx,
                            request_id: Some(owned(request_id)),
                            session_id: session.session_id.clone(),
                            payload: HostSessionClosedPayload {
                                session_id: session.session_id.clone(),
                                reason: owned("force_reconnect"),
                            },
                        },
                    );
                },
                None => {},
            }
            assert(sends@.subrange(0, s0.len() as int) =~= s0);
            proof {
                let tail = sends@.subrange(s0.len() as int, sends@.len() as int);
                let k = replacement_count(removed@[i as int], host_tx);
                assert(removed@.take(i + 1).drop_last() =~= removed@.take(i as int));
                assert(removed@.take(i + 1).last() == removed@[i as int]);
                assert(tail.subrange(0, tail.len() - k) =~= before.subrange(s0.len() as int, before.len() as int));
            }
            let mut e = audit_event("session.closed", &session.machine_id, &host);
            e.session_id = Some(session.session_id.clone());
            e.request_id = Some(owned(request_id));
            e.result = Some(owned("closed"));
            e.summary = Some(owned("force reconnect"));
            let ghost a_before = audits@;
            audits.push(e);
            assert(audits@.subrange(0, a0.len() as int) =~= a0);
            assert(is_force_closed_audit(audits@[a0.len() + i], removed@[i as int], host_id@, request_id@));
            assert forall|j: int| 0 <= j < i + 1 implies is_force_closed_audit(
                #[trigger] audits@[a0.len() + j],
                removed@[j],
                host_id@,
                request_id@,
            ) by {
                if j < i {
                    assert(audits@[a0.len() + j] == a_before[a0.len() + j]);
                }
            }
            i = i + 1;
        }
        assert(removed@.take(removed@.len() as int) =~= removed@);
    }
}


/// What closing a session at its host's request leaves behind.
/// The controller of a closed session, if it has one, is last told that the
/// host closed it.
pub open spec fn controller_told(controller_tx: Option<u64>, sends: Seq<Outgoing>) -> bool {
    match controller_tx {
        Some(c) => sends.len() >= 2 && match sends.last() {
            Outgoing::Error { to, code, message, .. } => to == c && code == ErrorCode::Cancelled && message@
                == "session closed by host"@,
            _ => false,
        },
        None => true,
    }
}

/// The session the host named was closed with `err` (a cancellation saying
/// the host closed it), leaving `new_v`.
pub open spec fn closed_by_host(old_v: ServerView, payload: HostSessionClosePayload, err: ErrorPayload, now: Clock, new_v: ServerView) -> bool {
    let i = key_pos(old_v.sessions, payload.session_id@)->Some_0;
    &&& err.code == ErrorCode::Cancelled
    &&& err.message@ == "session closed by host"@
    &&& crate::server_state::after_sessions_gone(
        crate::server_state::drop_session(old_v, i),
        seq![old_v.sessions[i].value.session_id@],
        err,
        now,
    ) == new_v
}

pub open spec fn host_close_outcome(
    old_v: ServerView,
    new_v: ServerView,
    host_id: Seq<char>,
    connection_id: Seq<char>,
    request_id: Option<String>,
    frame_session_id: Option<String>,
    payload: HostSessionClosePayload,
    now: Clock,
    sends: Seq<Outgoing>,
    audits: Seq<AuditEvent>,
) -> bool {
    let sid = match frame_session_id {
        Some(s) => s@,
        None => payload.session_id@,
    };
    if sid != payload.session_id@ {
        new_v == old_v && sends.len() <= 1
    } else {
        match key_pos(old_v.sessions, sid) {
            Some(i) => {
                let st = old_v.sessions[i].value;
                if st.host_id@ == host_id && st.connection_id@ == connection_id {
                    &&& exists|err: ErrorPayload| #[trigger] closed_by_host(old_v, payload, err, now, new_v)
                    &&& audits.len() == 1
                    &&& controller_told(st.controller_tx, sends)
                } else {
                    new_v == old_v && sends.len() <= 1
                }
            },
            None => new_v == old_v && sends.len() <= 1,
        }
    }
}

impl ServerState {
    /// The host asks to close one of its sessions. A payload that names
    /// another session than the frame, or a session that is not this host
    /// connection's, is refused to the host; otherwise the session is closed,
    /// both sides are told, and the controller learns it was closed by the host.
    #[verifier::spinoff_prover]
    #[verifier::rlimit(40)]
    pub fn host_session_close(
        &mut self,
        host_id: &str,
        connection_id: &str,
        request_id: Option<String>,
        frame_session_id: Option<String>,
        payload: HostSessionClosePayload,
        now: &Clock,
    ) -> (r: RelayStep)
        requires
            old(self).wf(),
        ensures
            final(self).wf(),
            host_close_outcome(
                old(self)@,
                final(self)@,
                host_id@,
                connection_id@,
                request_id,
                frame_session_id,
                payload,
                *now,
                r.sends@,
                r.audits@,
            ),
    {
        let ghost pl = payload;
        let ghost fs = frame_session_id;
        let ghost rq = request_id;
        let ghost v00 = self@;
        let mut sends: Vec<Outgoing> = Vec::new();
        let mut audits: Vec<AuditEvent> = Vec::new();
        let session_id = match &frame_session_id {
            Some(s) => s.clone(),
            None => payload.session_id.clone(),
        };
        if !str_eq(session_id.as_str(), payload.session_id.as_str()) {
            match self.host_tx(host_id, connection_id) {
                Some(tx) => sends.push(
                    Outgoing::Error {
                        to: tx,
                        request_id,
                        session_id: Some(session_id),
                        code: ErrorCode::SessionExpired,
                        message: owned("host.session_close session_id mismatch"),
                    },
                ),
                None => {},
            }
            assert(host_close_outcome(v00, self@, host_id@, connection_id@, rq, fs, pl, *now, sends@, audits@));
            return RelayStep { sends, audits };
        }
        let err = ErrorPayload { code: ErrorCode::Cancelled, message: owned("session closed by host") };
        let ghost v0 = self@;
        let session = match self.remove_session_for_host(session_id.as_str(), host_id, connection_id, err.clone(), now) {
            Some(s) => {
                proof {
                    let i = key_pos(v0.sessions, session_id@).unwrap();
                    assert(crate::server_state::after_sessions_gone(
                        crate::server_state::drop_session(v0, i),
                        seq![v0.sessions[i].value.session_id@],
                        err,
                        *now,
                    ) == self@);
                }
                s
            },
            None => {
                match self.host_tx(host_id, connection_id) {
                    Some(tx) => sends.push(
                        Outgoing::Error {
                            to: tx,
                            request_id,
                            session_id: Some(session_id),
                            code: ErrorCode::SessionExpired,
                            message: owned(ErrorCode::SessionExpired.message()),
                        },
                    ),
                    None => {},
                }
                assert(host_close_outcome(v00, self@, host_id@, connection_id@, rq, fs, pl, *now, sends@, audits@));
                return RelayStep { sends, audits };
            },
        };
        match self.host_tx(host_id, connection_id) {
            Some(tx) => {
                sends.push(
                    Outgoing::SessionClosed {
                        to: tx,
                        request_id: clone_text(&request_id),
                        session_id: session.session_id.clone(),
                        payload: HostSessionClosedPayload {
                            session_id: session.session_id.clone(),
                            reason: payload.reason.clone(),
                        },
                    },
                );
                sends.push(
                    Outgoing::SessionCloseResult {
                        to: tx,
                        request_id: clone_text(&request_id),
                        session_id: session.session_id.clone(),
                        ok: true,
                    },
                );
            },
            None => {},
        }
        match session.controller_tx {
            Some(tx) => {
                sends.push(
                    Outgoing::SessionClosed {
                        to: tx,
                        request_id: clone_text(&request_id),
                        session_id: session.session_id.clone(),
                        payload: HostSessionClosedPayload {
                            session_id: session.session_id.clone(),
                            reason: payload.reason.clone(),
                        },
                    },
                );
                sends.push(
                    Outgoing::Error {
                        to: tx,
                        request_id: clone_text(&request_id),
                        session_id: Some(session.session_id.clone()),
                        code: ErrorCode::Cancelled,
                        message: owned("session closed by host"),
                    },
                );
            },
            None => {},
        }
        let mut e = audit_event("session.closed", &session.machine_id, &session.host_id);
        e.session_id = Some(session.session_id);
        e.request_id = request_id;
        e.result = Some(owned("closed"));
        e.summary = Some(payload.reason);
        audits.push(e);
        proof {
            let i = key_pos(v0.sessions, session_id@).unwrap();
            assert(v0.sessions[i].value.host_id@ == host_id@);
            assert(exists|err: ErrorPayload|
                err.code == ErrorCode::Cancelled && err.message@ == "session closed by host"@
                    && #[trigger] crate::server_state::after_sessions_gone(
                    crate::server_state::drop_session(v0, i),
                    seq![v0.sessions[i].value.session_id@],
                    err,
                    *now,
                ) == self@);
            assert(audits@.len() == 1);
            let st = v0.sessions[i].value;
            let sid = match fs {
                Some(x) => x@,
                None => pl.session_id@,
            };
            assert(sid == pl.session_id@);
            assert(v0 == v00);
            assert(key_pos(v00.sessions, sid) == Some(i));
            assert(st.host_id@ == host_id@ && st.connection_id@ == connection_id@);
            assert(session == st);
            assert(closed_by_host(v00, pl, err, *now, self@));
            assert(audits@.len() == 1);
            assert(controller_told(st.controller_tx, sends@));
            if let Some(c) = st.controller_tx {
                assert(sends@.len() >= 2);
                assert(sends@.last() matches Outgoing::Error { to, code, message, .. } && to == c && code == ErrorCode::Cancelled && message@ == "session closed by host"@);
            }
            assert(host_close_outcome(v00, self@, host_id@, connection_id@, rq, fs, pl, *now, sends@, audits@));
        }
        RelayStep { sends, audits }
    }

    /// A host's first frame. Anything but a hello of the current protocol
    /// version, or a registration beyond the host's rate, is refused;
    /// otherwise the host is registered on this connection (closing what a
    /// previous connection of it had pending or open) and acknowledged.
    /// Returns whether the host was registered.
    pub fn host_hello(
        &mut self,
        is_hello: bool,
        request_id: Option<String>,
        hello: HostHelloPayload,
        connection_id: String,
        host_tx: u64,
        now: &Clock,
    ) -> (r: (bool, RelayStep))
        requires
            old(self).wf(),
        ensures
            final(self).wf(),
            !is_hello ==> !r.0 && final(self)@ == old(self)@ && r.1.sends@.len() == 1 && is_error(
                r.1.sends@[0],
                host_tx,
                request_id,
                ErrorCode::InternalError,
                "first host frame must be host.hello"@,
            ),
            is_hello && hello.protocol_version != PROTOCOL_VERSION ==> !r.0 && final(self)@ == old(self)@
                && r.1.sends@.len() == 1 && is_error(
                r.1.sends@[0],
                host_tx,
                request_id,
                ErrorCode::InternalError,
                "unsupported protocol version"@,
            ),
            is_hello && hello.protocol_version == PROTOCOL_VERSION ==> {
                let (allowed, events) = registration_decision(
                    old(self)@.registrations,
                    hello.host_id@,
                    crate::server_state::HOST_REGISTRATION_LIMIT as nat,
                    RATE_LIMIT_WINDOW_MS,
                    now.ms,
                );
                let counted = ServerView { registrations: final(self)@.registrations, ..old(self)@ };
                let entry = Entry {
                    key: hello.host_id,
                    value: HostConn {
                        host_id: hello.host_id,
                        machine_id: hello.machine_id,
                        connection_id,
                        tx: host_tx,
                        totp_period_seconds: hello.totp_period_seconds,
                    },
                };
                let registered = ServerView { hosts: upsert_spec(old(self)@.hosts, entry), ..counted };
                &&& r.0 == allowed
                &&& rate_view(final(self)@.registrations) == rate_table_after(old(self)@.registrations, hello.host_id@, events)
                &&& !allowed ==> r.1.sends@.len() == 1 && is_error(
                    r.1.sends@[0],
                    host_tx,
                    request_id,
                    ErrorCode::PermissionDenied,
                    "host registration rate limit exceeded"@,
                ) && final(self)@ == counted && r.1.audits@.len() == 0
                &&& allowed ==> (key_pos(final(self)@.hosts, hello.host_id@) matches Some(j)
                    && final(self)@.hosts[j].value == entry.value)
                &&& allowed ==> r.1.sends@.len() >= 1 && (r.1.sends@.last() matches Outgoing::HelloAck { to, heartbeat_interval_ms, .. }
                    && to == host_tx && heartbeat_interval_ms == HEARTBEAT_INTERVAL_MS)
                &&& allowed ==> r.1.audits@.len() >= 1 && r.1.audits@.last().event@ == "host.connected"@
                &&& allowed ==> match key_pos(old(self)@.hosts, hello.host_id@) {
                    None => final(self)@ == registered && r.1.sends@.len() == 1 && r.1.audits@.len() == 1,
                    Some(i) => {
                        let replaced = old(self)@.hosts[i].value;
                        let closed = replaced_sessions(old(self)@, replaced);
                        &&& exists|err: ErrorPayload|
                            err.code == ErrorCode::HostDisconnected && err.message@ == "host connection replaced"@
                                && #[trigger] after_replacing(registered, replaced, err, *now) == final(self)@
                        &&& replaced_connection_sends(
                            r.1.sends@.drop_last(),
                            replaced_pending(old(self)@, replaced),
                            closed,
                        )
                        &&& r.1.audits@.len() == closed.len() + 1
                        &&& forall|k: int|
                            0 <= k < closed.len() ==> is_replaced_session_audit(#[trigger] r.1.audits@[k], closed[k], replaced)
                    },
                }
            },
    {
        let mut sends: Vec<Outgoing> = Vec::new();
        let mut audits: Vec<AuditEvent> = Vec::new();
        if !is_hello {
            sends.push(
                Outgoing::Error {
                    to: host_tx,
                    request_id,
                    session_id: None,
                    code: ErrorCode::InternalError,
                    message: owned("first host frame must be host.hello"),
                },
            );
            return (false, RelayStep { sends, audits });
        }
        if hello.protocol_version != PROTOCOL_VERSION {
            sends.push(
                Outgoing::Error {
                    to: host_tx,
                    request_id,
                    session_id: None,
                    code: ErrorCode::InternalError,
                    message: owned("unsupported protocol version"),
                },
            );
            return (false, RelayStep { sends, audits });
        }
        if !self.allow_host_registration(hello.host_id.as_str(), now) {
            sends.push(
                Outgoing::Error {
                    to: host_tx,
                    request_id,
                    session_id: None,
                    code: ErrorCode::PermissionDenied,
                    message: owned("host registration rate limit exceeded"),
                },
            );
            return (false, RelayStep { sends, audits });
        }
        let mut summary = owned("host connected host_id=");
        summary.append(hello.host_id.as_str());
        summary.append(" connection_id=");
        summary.append(connection_id.as_str());
        summary.append(" version=");
        summary.append(hello.host_version.as_str());
        summary.append(" os=");
        summary.append(hello.os.as_str());
        let ghost entry = Entry {
            key: hello.host_id,
            value: HostConn {
                host_id: hello.host_id,
                machine_id: hello.machine_id,
                connection_id,
                tx: host_tx,
                totp_period_seconds: hello.totp_period_seconds,
            },
        };
        let ghost before = self@.hosts;
        let replaced = self.register_host(
            hello.host_id.clone(),
            hello.machine_id.clone(),
            connection_id,
            host_tx,
            hello.totp_period_seconds,
        );
        proof {
            crate::server_state::lemma_upsert_then_lookup(before, entry);
        }
        let ghost hosts_now = self@.hosts;
        let ghost registered = self@;
        match &replaced {
            Some(old_conn) => {
                self.close_replaced_host_connection(old_conn, &mut sends, &mut audits, now);
            },
            None => {},
        }
        assert(self@.hosts == hosts_now);
        let ghost s_mid = sends@;
        let ghost a_mid = audits@;
        let mut e = audit_event("host.connected", &hello.machine_id, &hello.host_id);
        e.summary = Some(summary);
        audits.push(e);
        sends.push(
            Outgoing::HelloAck {
                to: host_tx,
                request_id,
                server_time: now.text.clone(),
                heartbeat_interval_ms: HEARTBEAT_INTERVAL_MS,
            },
        );
        proof {
            assert(sends@.drop_last() =~= s_mid);
            assert(s_mid.subrange(0, 0) =~= Seq::<Outgoing>::empty());
            assert(s_mid.subrange(0, s_mid.len() as int) =~= s_mid);
            assert forall|k: int| 0 <= k < a_mid.len() implies audits@[k] == a_mid[k] by {}
            match replaced {
                Some(old_conn) => {
                    assert(replaced_pending(registered, old_conn) =~= replaced_pending(old(self)@, old_conn));
                    assert(replaced_sessions(registered, old_conn) =~= replaced_sessions(old(self)@, old_conn));
                    let closed = replaced_sessions(old(self)@, old_conn);
                    assert forall|k: int| 0 <= k < closed.len() implies is_replaced_session_audit(
                        #[trigger] audits@[k],
                        closed[k],
                        old_conn,
                    ) by {
                        assert(audits@[k] == a_mid[k]);
                        assert(a_mid[0 + k] == a_mid[k]);
                    }
                },
                None => {},
            }
        }
        (true, RelayStep { sends, audits })
    }

    /// A host reconnected: what its previous connection had pending is refused
    /// and its sessions are closed, each controller being told.
    fn close_replaced_host_connection(
        &mut self,
        replaced: &HostConn,
        sends: &mut Vec<Outgoing>,
        audits: &mut Vec<AuditEvent>,
        now: &Clock,
    )
        requires
            old(self).wf(),
        ensures
            final(self).wf(),
            final(self)@.hosts == old(self)@.hosts,
            exists|err: ErrorPayload|
                err.code == ErrorCode::HostDisconnected && err.message@ == "host connection replaced"@
                    && #[trigger] after_replacing(old(self)@, *replaced, err, *now) == final(self)@,
            final(sends)@.len() >= old(sends)@.len(),
            final(sends)@.subrange(0, old(sends)@.len() as int) == old(sends)@,
            replaced_connection_sends(
                final(sends)@.subrange(old(sends)@.len() as int, final(sends)@.len() as int),
                replaced_pending(old(self)@, *replaced),
                replaced_sessions(old(self)@, *replaced),
            ),
            final(audits)@.len() == old(audits)@.len() + replaced_sessions(old(self)@, *replaced).len(),
            final(audits)@.subrange(0, old(audits)@.len() as int) == old(audits)@,
            forall|k: int|
                0 <= k < replaced_sessions(old(self)@, *replaced).len() ==> is_replaced_session_audit(
                    #[trigger] final(audits)@[old(audits)@.len() + k],
                    replaced_sessions(old(self)@, *replaced)[k],
                    *replaced,
                ),
    {
        let ghost s0 = sends@;
        let ghost a0 = audits@;
        let ghost v0 = self@;
        let conn: &str = replaced.connection_id.as_str();
        let pending = self.remove_pending_open_for_host(replaced.host_id.as_str(), Some(conn));
        assert(crate::server_state::opt_text(Some(conn)) == Some(replaced.connection_id@));
        let mut i: usize = 0;
        while i < pending.len()
            invariant
                i <= pending@.len(),
                sends@.len() == s0.len() + i,
                sends@.subrange(0, s0.len() as int) == s0,
                forall|j: int| 0 <= j < i ==> is_pending_refusal(#[trigger] sends@[s0.len() + j], pending@[j]),
            decreases pending@.len() - i,
        {
            sends.push(
                Outgoing::Error {
                    to: pending[i].value.controller_tx,
                    request_id: Some(pending[i].key.clone()),
                    session_id: None,
                    code: ErrorCode::HostDisconnected,
                    message: owned("host connection replaced before authentication completed"),
                },
            );
            assert(sends@.subrange(0, s0.len() as int) =~= s0);
            i = i + 1;
        }
        let ghost s1 = sends@;
        let err = ErrorPayload { code: ErrorCode::HostDisconnected, message: owned("host connection replaced") };
        let ghost v1 = self@;
        let removed = self.remove_sessions_for_host(replaced.host_id.as_str(), Some(conn), err, now);
        assert(self@ == after_replacing(v0, *replaced, err, *now));
        let mut k: usize = 0;
        while k < removed.len()
            invariant
                k <= removed@.len(),
                sends@.len() >= s1.len(),
                sends@.subrange(0, s1.len() as int) == s1,
                session_notices(sends@.subrange(s1.len() as int, sends@.len() as int), removed@.take(k as int)),
                audits@.len() == a0.len() + k,
                audits@.subrange(0, a0.len() as int) == a0,
                forall|j: int| 0 <= j < k ==> is_replaced_session_audit(#[trigger] audits@[a0.len() + j], removed@[j], *replaced),
            decreases removed@.len() - k,
        {
            let session = &removed[k];
            let ghost before = sends@;
            match session.controller_tx {
                Some(tx) => sends.push(
                    Outgoing::Error {
                        to: tx,
                        request_id: None,
                        session_id: Some(session.session_id.clone()),
                        code: ErrorCode::HostDisconnected,
                        message: owned("host connection replaced"),
                    },
                ),
                None => {},
            }
            proof {
                assert(sends@.subrange(0, s1.len() as int) =~= s1);
                assert(removed@.take(k + 1).drop_last() =~= removed@.take(k as int));
                let tail = sends@.subrange(s1.len() as int, sends@.len() as int);
                if session.controller_tx is Some {
                    assert(tail.drop_last() =~= before.subrange(s1.len() as int, before.len() as int));
                } else {
                    assert(tail =~= before.subrange(s1.len() as int, before.len() as int));
                }
            }
            let mut e = audit_event("session.closed", &session.machine_id, &replaced.host_id);
            e.session_id = Some(session.session_id.clone());
            e.result = Some(owned("closed"));
            e.summary = Some(owned("host connection replaced"));
            audits.push(e);
            assert(audits@.subrange(0, a0.len() as int) =~= a0);
            k = k + 1;
        }
        proof {
            assert(removed@.take(removed@.len() as int) =~= removed@);
            let tail = sends@.subrange(s0.len() as int, sends@.len() as int);
            let np = pending@.len() as int;
            assert(tail.subrange(0, np) =~= s1.subrange(s0.len() as int, s1.len() as int));
            assert(tail.subrange(np, tail.len() as int) =~= sends@.subrange(s1.len() as int, sends@.len() as int));
            assert forall|j: int| 0 <= j < np implies is_pending_refusal(#[trigger] tail.subrange(0, np)[j], pending@[j]) by {
                assert(tail.subrange(0, np)[j] == s1[s0.len() + j]);
            }
            assert(v1.sessions == v0.sessions);
        }
    }
}

/// The relay's state once host connection `replaced` is replaced: its
/// pending open requests are dropped and its sessions closed with `err`.
pub open spec fn after_replacing(v: ServerView, replaced: HostConn, err: ErrorPayload, now: Clock) -> ServerView {
    let v1 = ServerView {
        pending: v.pending.filter(
            crate::server_state::not_pending_for_host(replaced.host_id@, Some(replaced.connection_id@)),
        ),
        ..v
    };
    crate::server_state::after_removing_sessions(
        v1,
        session_of_host(replaced.host_id@, Some(replaced.connection_id@)),
        err,
        now,
    )
}

/// The open requests pending on a replaced host connection, in table order.
pub open spec fn replaced_pending(v: ServerView, replaced: HostConn) -> Seq<Entry<PendingOpen>> {
    v.pending.filter(crate::server_state::pending_for_host(replaced.host_id@, Some(replaced.connection_id@)))
}

/// The sessions of a replaced host connection, in table order.
pub open spec fn replaced_sessions(v: ServerView, replaced: HostConn) -> Seq<SessionState> {
    session_values(v.sessions.filter(session_of_host(replaced.host_id@, Some(replaced.connection_id@))))
}

/// The refusal of an open request whose host connection was replaced.
pub open spec fn is_pending_refusal(o: Outgoing, e: Entry<PendingOpen>) -> bool {
    &&& o matches Outgoing::Error { to, request_id: Some(q), session_id: None, code, message }
    &&& to == e.value.controller_tx && q@ == e.key@
    &&& code == ErrorCode::HostDisconnected
    &&& message@ == "host connection replaced before authentication completed"@
}

/// A controller's notice that its session's host connection was replaced.
pub open spec fn is_connection_replaced_notice(o: Outgoing, to: u64, session_id: Seq<char>) -> bool {
    &&& o matches Outgoing::Error { to: t, request_id: None, session_id: Some(sid), code, message }
    &&& t == to && sid@ == session_id
    &&& code == ErrorCode::HostDisconnected
    &&& message@ == "host connection replaced"@
}

/// The notices of closed sessions, in order: one to each session's
/// controller, when it has one.
pub open spec fn session_notices(sends: Seq<Outgoing>, removed: Seq<SessionState>) -> bool
    decreases removed.len(),
{
    if removed.len() == 0 {
        sends.len() == 0
    } else {
        let st = removed.last();
        match st.controller_tx {
            Some(c) => sends.len() >= 1 && session_notices(sends.drop_last(), removed.drop_last())
                && is_connection_replaced_notice(sends.last(), c, st.session_id@),
            None => session_notices(sends, removed.drop_last()),
        }
    }
}

/// What replacing a host connection sends: a refusal to each pending open
/// request, then a notice to each closed session's controller.
pub open spec fn replaced_connection_sends(sends: Seq<Outgoing>, pending: Seq<Entry<PendingOpen>>, removed: Seq<SessionState>) -> bool {
    let n = pending.len() as int;
    &&& sends.len() >= n
    &&& forall|j: int| 0 <= j < n ==> is_pending_refusal(#[trigger] sends.subrange(0, n)[j], pending[j])
    &&& session_notices(sends.subrange(n, sends.len() as int), removed)
}

/// The audit of a session closed because its host connection was replaced.
pub open spec fn is_replaced_session_audit(e: AuditEvent, st: SessionState, replaced: HostConn) -> bool {
    &&& e.side@ == "server"@ && e.event@ == "session.closed"@
    &&& e.machine_id == Some(st.machine_id)
    &&& e.host_id == Some(replaced.host_id)
    &&& e.session_id == Some(st.session_id)
    &&& e.result matches Some(x) && x@ == "closed"@
    &&& e.summary matches Some(x) && x@ == "host connection replaced"@
}

/// A controller's request that may go on to its session's host.
pub struct Forward {
    pub request_id: String,
    pub session: SessionState,
    pub host_tx: u64,
}

/// An error to the controller about its session.
pub open spec fn is_session_error(o: Outgoing, to: u64, request_id: Option<String>, code: ErrorCode, message: Seq<char>) -> bool {
    o matches Outgoing::Error { to: t, request_id: r, code: c, message: m, .. } && t == to && r == request_id && c == code
        && m@ == message
}

/// Why a session-bound request cannot go on before its session is looked
/// up: it needs a request id and a session id.
pub open spec fn missing_ids(request_id: Option<String>, session_id: Option<String>) -> Option<(ErrorCode, Seq<char>)> {
    if request_id is None {
        Some((ErrorCode::InternalError, "requires request_id"@))
    } else if session_id is None {
        Some((ErrorCode::SessionExpired, "missing session_id"@))
    } else {
        None
    }
}

/// The session a controller's request names, when its token is right and
/// its host is still on the session's connection; else the error answered.
pub open spec fn request_session(v: ServerView, session_id: Seq<char>, session_token: Seq<char>) -> Result<
    SessionState,
    (ErrorCode, Seq<char>),
> {
    match valid_session(v, session_id, session_token) {
        None => Err((ErrorCode::SessionExpired, error_code_message(ErrorCode::SessionExpired))),
        Some(i) => {
            let st = v.sessions[i].value;
            match key_pos(v.hosts, st.host_id@) {
                Some(h) if v.hosts[h].value.connection_id@ == st.connection_id@ => Ok(st),
                _ => Err((ErrorCode::HostDisconnected, error_code_message(ErrorCode::HostDisconnected))),
            }
        },
    }
}

/// The relay's state after a controller's request named a session: when the
/// token is right, the session is marked as seen now and, when asked, bound
/// to the controller's channel.
pub open spec fn after_session_use(
    v: ServerView,
    session_id: Seq<char>,
    session_token: Seq<char>,
    controller_tx: u64,
    bind: bool,
    now: Clock,
) -> ServerView {
    match valid_session(v, session_id, session_token) {
        None => v,
        Some(i) => {
            let st = v.sessions[i].value;
            let updated = SessionState {
                controller_tx: if bind { Some(controller_tx) } else { st.controller_tx },
                last_seen: now.ms,
                ..st
            };
            ServerView { sessions: v.sessions.update(i, Entry { key: v.sessions[i].key, value: updated }), ..v }
        },
    }
}

impl ServerState {
    /// The session and its host's channel for a controller's request, binding
    /// the controller to the session when asked; or the error to answer.
    fn session_for_request(
        &mut self,
        kind: &str,
        request_id: Option<String>,
        session_id: Option<String>,
        session_token: &str,
        controller_tx: u64,
        bind: bool,
        now: &Clock,
    ) -> (r: Result<Forward, Outgoing>)
        requires
            old(self).wf(),
        ensures
            final(self).wf(),
            final(self)@.hosts == old(self)@.hosts,
            final(self)@.pending == old(self)@.pending,
            final(self)@.routes == old(self)@.routes,
            final(self)@.jobs == old(self)@.jobs,
            final(self)@.tunnels == old(self)@.tunnels,
            final(self)@.streams == old(self)@.streams,
            request_id is None ==> (r matches Err(o) && is_session_error(
                o,
                controller_tx,
                None,
                ErrorCode::InternalError,
                kind@ + " requires request_id"@,
            )) && final(self)@ == old(self)@,
            request_id is Some && session_id is None ==> (r matches Err(o) && is_session_error(
                o,
                controller_tx,
                request_id,
                ErrorCode::SessionExpired,
                "missing session_id"@,
            )) && final(self)@ == old(self)@,
            request_id is Some && session_id is Some ==> final(self)@ == after_session_use(
                old(self)@,
                session_id->Some_0@,
                session_token@,
                controller_tx,
                bind,
                *now,
            ),
            request_id is Some && session_id is Some ==> match valid_session(old(self)@, session_id->Some_0@, session_token@) {
                None => (r matches Err(o) && is_session_error(
                    o,
                    controller_tx,
                    request_id,
                    ErrorCode::SessionExpired,
                    error_code_message(ErrorCode::SessionExpired),
                )) && final(self)@ == old(self)@,
                Some(i) => {
                    let st = old(self)@.sessions[i].value;
                    match key_pos(old(self)@.hosts, st.host_id@) {
                        Some(h) if old(self)@.hosts[h].value.connection_id@ == st.connection_id@ => r matches Ok(f)
                            && f.request_id == request_id->Some_0 && f.host_tx == old(self)@.hosts[h].value.tx
                            && f.session.session_id == st.session_id && f.session.host_id == st.host_id
                            && f.session.connection_id == st.connection_id && f.session.machine_id == st.machine_id,
                        _ => r matches Err(o) && is_session_error(
                            o,
                            controller_tx,
                            request_id,
                            ErrorCode::HostDisconnected,
                            error_code_message(ErrorCode::HostDisconnected),
                        ),
                    }
                },
            },
    {
        let rid = match request_id {
            Some(r) => r,
            None => {
                let mut m = owned(kind);
                m.append(" requires request_id");
                return Err(
                    Outgoing::Error { to: controller_tx, request_id: None, session_id, code: ErrorCode::InternalError, message: m },
                );
            },
        };
        let sid = match session_id {
            Some(s) => s,
            None => {
                return Err(
                    Outgoing::Error {
                        to: controller_tx,
                        request_id: Some(rid),
                        session_id: None,
                        code: ErrorCode::SessionExpired,
                        message: owned("missing session_id"),
                    },
                );
            },
        };
        let found = if bind {
            self.bind_controller_to_session(sid.as_str(), session_token, controller_tx, now)
        } else {
            self.session_if_valid(sid.as_str(), session_token, now)
        };
        let session = match found {
            Some(s) => s,
            None => {
                return Err(
                    Outgoing::Error {
                        to: controller_tx,
                        request_id: Some(rid),
                        session_id: Some(sid),
                        code: ErrorCode::SessionExpired,
                        message: owned(ErrorCode::SessionExpired.message()),
                    },
                );
            },
        };
        match self.host_tx(session.host_id.as_str(), session.connection_id.as_str()) {
            Some(host_tx) => Ok(Forward { request_id: rid, session, host_tx }),
            None => Err(
                Outgoing::Error {
                    to: controller_tx,
                    request_id: Some(rid),
                    session_id: Some(session.session_id),
                    code: ErrorCode::HostDisconnected,
                    message: owned(ErrorCode::HostDisconnected.message()),
                },
            ),
        }
    }

    /// A controller's command request: the controller is bound to its
    /// session and the request routed to the session's host, which the
    /// caller then forwards it to.
    pub fn command_request(
        &mut self,
        request_id: Option<String>,
        session_id: Option<String>,
        session_token: &str,
        controller_tx: u64,
        now: &Clock,
    ) -> (r: Result<Forward, Outgoing>)
        requires
            old(self).wf(),
        ensures
            final(self).wf(),
            final(self)@.hosts == old(self)@.hosts,
            final(self)@.jobs == old(self)@.jobs,
            final(self)@.tunnels == old(self)@.tunnels,
            request_id is None ==> (r matches Err(o) && is_session_error(
                o,
                controller_tx,
                None,
                ErrorCode::InternalError,
                "command.request"@ + " requires request_id"@,
            )) && final(self)@ == old(self)@,
            request_id is Some && session_id is None ==> (r matches Err(o) && is_session_error(
                o,
                controller_tx,
                request_id,
                ErrorCode::SessionExpired,
                "missing session_id"@,
            )) && final(self)@ == old(self)@,
            request_id is Some && session_id is Some && valid_session(old(self)@, session_id->Some_0@, session_token@) is None
                ==> final(self)@ == old(self)@,
            request_id is Some && session_id is Some ==> match request_session(old(self)@, session_id->Some_0@, session_token@) {
                Err((code, message)) => r matches Err(o) && is_session_error(o, controller_tx, request_id, code, message),
                Ok(st) => r matches Ok(f) && f.session.session_id == st.session_id && f.session.host_id == st.host_id
                    && f.session.connection_id == st.connection_id && f.host_tx == old(self)@.hosts[key_pos(
                    old(self)@.hosts,
                    st.host_id@,
                )->Some_0].value.tx,
            },
            r matches Ok(f) ==> f.request_id == request_id->Some_0 && (key_pos(final(self)@.routes, f.request_id@) matches Some(j)
                && final(self)@.routes[j].value.session_id == f.session.session_id
                && final(self)@.routes[j].value.controller_tx == controller_tx && !final(self)@.routes[j].value.detached),
    {
        let found = self.session_for_request("command.request", request_id, session_id, session_token, controller_tx, true, now);
        match found {
            Ok(f) => {
                let ghost before = self@.routes;
                let ghost e = Entry { key: f.request_id, value: crate::server_state::new_route(f.session, controller_tx, false, now.ms) };
                self.track_request_route(f.request_id.clone(), &f.session, controller_tx, now);
                proof {
                    crate::server_state::lemma_upsert_then_lookup(before, e);
                }
                Ok(f)
            },
            Err(o) => Err(o),
        }
    }

    /// The request could not be handed to the host: its route is forgotten and
    /// the controller told the host is gone.
    pub fn request_not_delivered(&mut self, request_id: &str, session_id: String, controller_tx: u64) -> (r: Outgoing)
        requires
            old(self).wf(),
        ensures
            final(self).wf(),
            match key_pos(old(self)@.routes, request_id@) {
                Some(i) => final(self)@ == (ServerView { routes: old(self)@.routes.remove(i), ..old(self)@ }),
                None => final(self)@ == old(self)@,
            },
            r matches Outgoing::Error { to, code, message, .. } && to == controller_tx && code == ErrorCode::HostDisconnected
                && message@ == error_code_message(ErrorCode::HostDisconnected),
    {
        self.clear_request_route(request_id);
        Outgoing::Error {
            to: controller_tx,
            request_id: Some(owned(request_id)),
            session_id: Some(session_id),
            code: ErrorCode::HostDisconnected,
            message: owned(ErrorCode::HostDisconnected.message()),
        }
    }
}


/// A detached command the relay started: where to forward it and the job's
/// first snapshot for the controller.
pub struct StartedJob {
    pub forward: Forward,
    pub snapshot: CommandStatusResultPayload,
}

/// A tunnel the relay recorded: where to forward the request and the id it got.
pub struct OpenedTunnel {
    pub forward: Forward,
    pub tunnel_id: String,
}

impl ServerState {
    /// A controller starts a detached command: only `exec` may be detached;
    /// the session is checked, a running job recorded, and a detached route
    /// kept so the output outlives the controller's connection.
    pub fn command_start(
        &mut self,
        request_id: Option<String>,
        session_id: Option<String>,
        command: &str,
        session_token: String,
        controller_tx: u64,
        now: &Clock,
    ) -> (r: Result<StartedJob, Outgoing>)
        requires
            old(self).wf(),
        ensures
            final(self).wf(),
            final(self)@.hosts == old(self)@.hosts,
            final(self)@.tunnels == old(self)@.tunnels,
            request_id is None ==> (r matches Err(o) && is_session_error(
                o,
                controller_tx,
                None,
                ErrorCode::InternalError,
                "command.start requires request_id"@,
            )) && final(self)@ == old(self)@,
            request_id is Some && session_id is None ==> (r matches Err(o) && is_session_error(
                o,
                controller_tx,
                request_id,
                ErrorCode::SessionExpired,
                "missing session_id"@,
            )) && final(self)@ == old(self)@,
            request_id is Some && session_id is Some && command@ != "exec"@ ==> (r matches Err(o) && is_session_error(
                o,
                controller_tx,
                request_id,
                ErrorCode::UnsupportedCommand,
                "command.start only supports exec"@,
            )) && final(self)@ == old(self)@,
            request_id is Some && session_id is Some && command@ == "exec"@ ==> match request_session(
                old(self)@,
                session_id->Some_0@,
                session_token@,
            ) {
                Err((code, message)) => r matches Err(o) && is_session_error(o, controller_tx, request_id, code, message),
                Ok(st) => r matches Ok(j) && j.forward.session.session_id == st.session_id
                    && j.forward.session.host_id == st.host_id && j.forward.session.connection_id == st.connection_id
                    && j.forward.session.machine_id == st.machine_id
                    && j.forward.host_tx == old(self)@.hosts[key_pos(old(self)@.hosts, st.host_id@)->Some_0].value.tx,
            },
            r matches Ok(j) ==> {
                &&& command@ == "exec"@
                &&& j.forward.request_id == request_id->Some_0
                &&& crate::server_state::is_new_job_snapshot(j.snapshot, j.forward.request_id, j.snapshot.started_at)
                &&& key_pos(final(self)@.jobs, j.forward.request_id@) matches Some(k) && final(self)@.jobs[k].value.snapshot
                    == j.snapshot && final(self)@.jobs[k].value.session_token == session_token
                    && final(self)@.jobs[k].value.session_id == j.forward.session.session_id
                &&& key_pos(final(self)@.routes, j.forward.request_id@) matches Some(q) && final(self)@.routes[q].value
                    == crate::server_state::new_route(j.forward.session, controller_tx, true, now.ms)
                &&& {
                    let v1 = after_session_use(old(self)@, session_id->Some_0@, session_token@, controller_tx, false, *now);
                    final(self)@ == (ServerView {
                        jobs: upsert_spec(
                            v1.jobs,
                            Entry {
                                key: j.forward.request_id,
                                value: crate::server_state::CommandJob {
                                    snapshot: j.snapshot,
                                    host_id: j.forward.session.host_id,
                                    connection_id: j.forward.session.connection_id,
                                    session_id: j.forward.session.session_id,
                                    session_token,
                                    created_at: now.ms,
                                    finished_at: None,
                                },
                            },
                        ),
                        routes: upsert_spec(
                            v1.routes,
                            Entry {
                                key: j.forward.request_id,
                                value: crate::server_state::new_route(j.forward.session, controller_tx, true, now.ms),
                            },
                        ),
                        ..v1
                    })
                }
            },
    {
        let rid = match request_id {
            Some(r) => r,
            None => return Err(
                Outgoing::Error {
                    to: controller_tx,
                    request_id: None,
                    session_id,
                    code: ErrorCode::InternalError,
                    message: owned("command.start requires request_id"),
                },
            ),
        };
        let sid = match session_id {
            Some(s) => s,
            None => return Err(
                Outgoing::Error {
                    to: controller_tx,
                    request_id: Some(rid),
                    session_id: None,
                    code: ErrorCode::SessionExpired,
                    message: owned("missing session_id"),
                },
            ),
        };
        if !str_eq(command, "exec") {
            return Err(
                Outgoing::Error {
                    to: controller_tx,
                    request_id: Some(rid),
                    session_id: Some(sid),
                    code: ErrorCode::UnsupportedCommand,
                    message: owned("command.start only supports exec"),
                },
            );
        }
        let f = match self.session_for_request(
            "command.start",
            Some(rid),
            Some(sid),
            session_token.as_str(),
            controller_tx,
            false,
            now,
        ) {
            Ok(f) => f,
            Err(o) => return Err(o),
        };
        let job = crate::server_state::CreateExecJob {
            task_id: f.request_id.clone(),
            host_id: f.session.host_id.clone(),
            connection_id: f.session.connection_id.clone(),
            session_id: f.session.session_id.clone(),
            session_token: session_token,
            started_at: now.text.clone(),
        };
        let ghost jobs0 = self@.jobs;
        let ghost job_v = job;
        let snapshot = self.create_exec_job(job, now);
        proof {
            crate::server_state::lemma_upsert_then_lookup(
                jobs0,
                Entry {
                    key: job_v.task_id,
                    value: crate::server_state::CommandJob {
                        snapshot,
                        host_id: job_v.host_id,
                        connection_id: job_v.connection_id,
                        session_id: job_v.session_id,
                        session_token: job_v.session_token,
                        created_at: now.ms,
                        finished_at: None,
                    },
                },
            );
        }
        let ghost routes0 = self@.routes;
        let ghost e = Entry { key: f.request_id, value: crate::server_state::new_route(f.session, controller_tx, true, now.ms) };
        self.track_detached_request_route(f.request_id.clone(), &f.session, controller_tx, now);
        proof {
            crate::server_state::lemma_upsert_then_lookup(routes0, e);
        }
        Ok(StartedJob { forward: f, snapshot })
    }

    /// The detached command could not be handed to the host: the job fails
    /// (the host is gone), its route is forgotten and the controller told.
    pub fn command_start_not_delivered(&mut self, task_id: &str, session_id: String, controller_tx: u64, now: &Clock) -> (r: Outgoing)
        requires
            old(self).wf(),
        ensures
            final(self).wf(),
            r matches Outgoing::Error { to, code, message, .. } && to == controller_tx && code == ErrorCode::HostDisconnected
                && message@ == error_code_message(ErrorCode::HostDisconnected),
            match crate::server_state::running_job(old(self)@, task_id@) {
                Some(i) => final(self)@.jobs[i].value.snapshot.status == crate::protocol::CommandTaskStatus::Failed,
                None => true,
            },
    {
        let error = ErrorPayload { code: ErrorCode::HostDisconnected, message: owned(ErrorCode::HostDisconnected.message()) };
        self.fail_exec_job(task_id, error, now);
        let ghost jobs = self@.jobs;
        self.clear_request_route(task_id);
        assert(self@.jobs == jobs);
        Outgoing::Error {
            to: controller_tx,
            request_id: Some(owned(task_id)),
            session_id: Some(session_id),
            code: ErrorCode::HostDisconnected,
            message: owned(ErrorCode::HostDisconnected.message()),
        }
    }

    /// A controller asks for a tunnel: the request is validated, the
    /// controller bound to its session, and the tunnel recorded (opening)
    /// under a fresh id, within the session's tunnel limit.
    pub fn tunnel_open(
        &mut self,
        request_id: Option<String>,
        session_id: Option<String>,
        payload: &TunnelOpenPayload,
        controller_tx: u64,
        now: &Clock,
    ) -> (r: Result<OpenedTunnel, Outgoing>)
        requires
            old(self).wf(),
        ensures
            final(self).wf(),
            final(self)@.hosts == old(self)@.hosts,
            request_id is None ==> (r matches Err(o) && is_session_error(
                o,
                controller_tx,
                None,
                ErrorCode::InternalError,
                "tunnel.open requires request_id"@,
            )) && final(self)@ == old(self)@,
            request_id is Some && session_id is None ==> (r matches Err(o) && is_session_error(
                o,
                controller_tx,
                request_id,
                ErrorCode::SessionExpired,
                "missing session_id"@,
            )) && final(self)@ == old(self)@,
            request_id is Some && session_id is Some && tunnel_open_refusal(*payload) is None ==> match request_session(
                old(self)@,
                session_id->Some_0@,
                payload.session_token@,
            ) {
                Err((code, message)) => r matches Err(o) && is_session_error(o, controller_tx, request_id, code, message),
                Ok(st) => if crate::server_state::tunnels_of_session(old(self)@.tunnels, st.session_id@)
                    >= crate::server_state::MAX_TUNNELS_PER_SESSION {
                    r matches Err(o) && is_session_error(
                        o,
                        controller_tx,
                        request_id,
                        ErrorCode::PermissionDenied,
                        "per-session tunnel limit exceeded"@,
                    )
                } else {
                    r matches Ok(t) && t.forward.session.session_id == st.session_id
                        && t.forward.session.host_id == st.host_id && t.forward.session.connection_id == st.connection_id
                        && t.forward.session.machine_id == st.machine_id
                        && t.forward.host_tx == old(self)@.hosts[key_pos(old(self)@.hosts, st.host_id@)->Some_0].value.tx
                },
            },
            request_id is Some && session_id is Some && tunnel_open_refusal(*payload) is Some ==> final(self)@ == old(self)@
                && (r matches Err(o) && is_session_error(
                o,
                controller_tx,
                request_id,
                tunnel_open_refusal(*payload)->Some_0.0,
                tunnel_open_refusal(*payload)->Some_0.1,
            )),
            r matches Ok(t) ==> {
                &&& tunnel_open_refusal(*payload) is None
                &&& t.forward.request_id == request_id->Some_0
                &&& key_pos(final(self)@.tunnels, t.tunnel_id@) matches Some(k) && final(self)@.tunnels[k].value.info.status
                    == crate::protocol::TunnelStatus::Opening && final(self)@.tunnels[k].value.info.session_id
                    == t.forward.session.session_id && final(self)@.tunnels[k].value.info.target_host == payload.target_host
                    && final(self)@.tunnels[k].value.info.listen_addr == payload.listen_addr
                    && final(self)@.tunnels[k].value.info.listen_port == payload.listen_port
                    && final(self)@.tunnels[k].value.info.target_port == payload.target_port
                    && final(self)@.tunnels[k].value.info.direction == payload.direction
                    && final(self)@.tunnels[k].value.info.idle_timeout_ms == payload.idle_timeout_ms
                    && final(self)@.tunnels[k].value.host_id == t.forward.session.host_id
                    && final(self)@.tunnels[k].value.connection_id == t.forward.session.connection_id
                &&& exists|v: u128| t.tunnel_id@ == ulid_encode(v) && ulid_decode(t.tunnel_id@) == Some(v)
                &&& {
                    let v1 = after_session_use(
                        old(self)@,
                        session_id->Some_0@,
                        payload.session_token@,
                        controller_tx,
                        true,
                        *now,
                    );
                    let create = crate::server_state::CreateTunnel {
                        tunnel_id: t.tunnel_id,
                        session: t.forward.session,
                        direction: payload.direction,
                        listen_addr: payload.listen_addr,
                        listen_port: payload.listen_port,
                        target_host: payload.target_host,
                        target_port: payload.target_port,
                        idle_timeout_ms: payload.idle_timeout_ms,
                    };
                    final(self)@ == (ServerView {
                        tunnels: upsert_spec(
                            v1.tunnels,
                            Entry { key: t.tunnel_id, value: crate::server_state::opening_tunnel(create, *now) },
                        ),
                        ..v1
                    })
                }
            },
    {
        let rid = match request_id {
            Some(r) => r,
            None => return Err(
                Outgoing::Error {
                    to: controller_tx,
                    request_id: None,
                    session_id,
                    code: ErrorCode::InternalError,
                    message: owned("tunnel.open requires request_id"),
                },
            ),
        };
        let sid = match session_id {
            Some(s) => s,
            None => return Err(
                Outgoing::Error {
                    to: controller_tx,
                    request_id: Some(rid),
                    session_id: None,
                    code: ErrorCode::SessionExpired,
                    message: owned("missing session_id"),
                },
            ),
        };
        match validate_tunnel_open_payload(payload) {
            Ok(()) => {},
            Err(e) => return Err(
                Outgoing::Error { to: controller_tx, request_id: Some(rid), session_id: Some(sid), code: e.code, message: e.message },
            ),
        }
        let f = match self.session_for_request(
            "tunnel.open",
            Some(rid),
            Some(sid),
            payload.session_token.as_str(),
            controller_tx,
            true,
            now,
        ) {
            Ok(f) => f,
            Err(o) => return Err(o),
        };
        let tunnel_id = crate::ids::new_tunnel_id();
        let create = crate::server_state::CreateTunnel {
            tunnel_id: tunnel_id.clone(),
            session: f.session.clone(),
            direction: payload.direction,
            listen_addr: payload.listen_addr.clone(),
            listen_port: payload.listen_port,
            target_host: payload.target_host.clone(),
            target_port: payload.target_port,
            idle_timeout_ms: payload.idle_timeout_ms,
        };
        let ghost c = create;
        let ghost tunnels0 = self@.tunnels;
        match self.create_tunnel(create, now) {
            Ok(_) => {
                proof {
                    crate::server_state::lemma_upsert_then_lookup(
                        tunnels0,
                        Entry { key: c.tunnel_id, value: crate::server_state::opening_tunnel(c, *now) },
                    );
                }
                Ok(OpenedTunnel { forward: f, tunnel_id })
            },
            Err(e) => Err(
                Outgoing::Error {
                    to: controller_tx,
                    request_id: Some(f.request_id),
                    session_id: Some(f.session.session_id),
                    code: e.code,
                    message: e.message,
                },
            ),
        }
    }
}

} // verus!

