use vstd::prelude::*;
use crate::audit::now_rfc3339;
use crate::protocol::{
    error_code_message,
    CommandCompletePayload, CommandStatusResultPayload, CommandTaskStatus, ErrorCode, ErrorPayload,
    TunnelDirection, TunnelEndpointSide, TunnelInfo, TunnelStatus, MAX_CAPTURED_OUTPUT_BYTES,
};
use crate::table::{
    find_key, key_pos, lemma_key_pos, lemma_unique_filter, lemma_unique_push, lemma_unique_remove,
    lemma_unique_same_keys, remove_at, unique_keys, upsert, upsert_spec, Entry,
};
use crate::text::{owned, str_eq};

verus! {

/// Milliseconds a session may stay idle before it is dropped.
pub const SESSION_IDLE_TTL_MS: u64 = 1800000;
/// Milliseconds a controller waits for the host to answer an open request.
pub const PENDING_OPEN_TTL_MS: u64 = 60000;
/// Milliseconds a request route is kept.
pub const REQUEST_ROUTE_TTL_MS: u64 = 7200000;
/// Milliseconds a finished command job is kept.
pub const COMMAND_JOB_TTL_MS: u64 = 1800000;
/// Milliseconds a rate-limit entry is kept.
pub const RATE_LIMIT_KEY_TTL_MS: u64 = 300000;
/// Grace added to a tunnel's idle timeout before it is swept.
pub const TUNNEL_IDLE_SWEEP_GRACE_MS: u64 = 5000;
pub const MAX_TUNNELS_PER_SESSION: usize = 16;
pub const MAX_STREAMS_PER_TUNNEL: usize = 64;
/// Host registrations allowed per host id within the window.
pub const HOST_REGISTRATION_LIMIT: usize = 20;
/// Session open attempts allowed per machine id within the window.
pub const AUTH_ATTEMPT_LIMIT: usize = 12;
pub const RATE_LIMIT_WINDOW_MS: u64 = 60000;

/// Milliseconds from `since` to `now`, zero when `since` is later.
pub open spec fn elapsed(now: u64, since: u64) -> int {
    if now >= since { now - since } else { 0 }
}

pub(crate) fn elapsed_ms(now: u64, since: u64) -> (r: u64)
    ensures
        r == elapsed(now, since),
{
    if now >= since { now - since } else { 0 }
}

fn clone_text_opt(o: &Option<String>) -> (r: Option<String>)
    ensures
        r == *o,
{
    match o {
        Some(s) => Some(s.clone()),
        None => None,
    }
}

/// A connected host. `tx` names the channel that reaches it.
pub struct HostConn {
    pub host_id: String,
    pub machine_id: String,
    pub connection_id: String,
    pub tx: u64,
    pub totp_period_seconds: u64,
}

impl Clone for HostConn {
    fn clone(&self) -> (r: Self)
        ensures
            r == *self,
    {
        HostConn {
            host_id: self.host_id.clone(),
            machine_id: self.machine_id.clone(),
            connection_id: self.connection_id.clone(),
            tx: self.tx,
            totp_period_seconds: self.totp_period_seconds,
        }
    }
}

/// An open session between a controller and a host connection.
pub struct SessionState {
    pub session_id: String,
    pub session_token: String,
    pub host_id: String,
    pub machine_id: String,
    pub connection_id: String,
    pub controller_tx: Option<u64>,
    pub last_seen: u64,
}

impl Clone for SessionState {
    fn clone(&self) -> (r: Self)
        ensures
            r == *self,
    {
        SessionState {
            session_id: self.session_id.clone(),
            session_token: self.session_token.clone(),
            host_id: self.host_id.clone(),
            machine_id: self.machine_id.clone(),
            connection_id: self.connection_id.clone(),
            controller_tx: self.controller_tx,
            last_seen: self.last_seen,
        }
    }
}

/// A controller's open request waiting for the host's answer.
pub struct PendingOpen {
    pub host_id: String,
    pub machine_id: String,
    pub connection_id: String,
    pub controller_tx: u64,
    pub controller_label: String,
    pub force_reconnect: bool,
    pub created_at: u64,
}

/// Where the host's answers to a request go.
pub struct RequestRoute {
    pub session_id: String,
    pub host_id: String,
    pub connection_id: String,
    pub controller_tx: u64,
    pub detached: bool,
    pub created_at: u64,
}

impl Clone for RequestRoute {
    fn clone(&self) -> (r: Self)
        ensures
            r == *self,
    {
        RequestRoute {
            session_id: self.session_id.clone(),
            host_id: self.host_id.clone(),
            connection_id: self.connection_id.clone(),
            controller_tx: self.controller_tx,
            detached: self.detached,
            created_at: self.created_at,
        }
    }
}

/// A detached command whose output the relay keeps for later polling.
pub struct CommandJob {
    pub snapshot: CommandStatusResultPayload,
    pub host_id: String,
    pub connection_id: String,
    pub session_id: String,
    pub session_token: String,
    pub created_at: u64,
    pub finished_at: Option<u64>,
}

/// A tunnel the relay carries for a session.
pub struct TunnelState {
    pub info: TunnelInfo,
    pub host_id: String,
    pub connection_id: String,
    pub target_side: TunnelEndpointSide,
    pub last_activity: u64,
}

impl Clone for TunnelState {
    fn clone(&self) -> (r: Self)
        ensures
            r == *self,
    {
        TunnelState {
            info: self.info.clone(),
            host_id: self.host_id.clone(),
            connection_id: self.connection_id.clone(),
            target_side: self.target_side,
            last_activity: self.last_activity,
        }
    }
}

/// One connection carried through a tunnel.
pub struct TunnelStreamRoute {
    pub tunnel_id: String,
    pub session_id: String,
    pub host_id: String,
    pub connection_id: String,
    pub last_activity: u64,
    pub controller_eof: bool,
    pub host_eof: bool,
}

impl Clone for TunnelStreamRoute {
    fn clone(&self) -> (r: Self)
        ensures
            r == *self,
    {
        TunnelStreamRoute {
            tunnel_id: self.tunnel_id.clone(),
            session_id: self.session_id.clone(),
            host_id: self.host_id.clone(),
            connection_id: self.connection_id.clone(),
            last_activity: self.last_activity,
            controller_eof: self.controller_eof,
            host_eof: self.host_eof,
        }
    }
}

/// What a controller asked for when opening a tunnel.
pub struct CreateTunnel {
    pub tunnel_id: String,
    pub session: SessionState,
    pub direction: TunnelDirection,
    pub listen_addr: String,
    pub listen_port: u16,
    pub target_host: String,
    pub target_port: u16,
    pub idle_timeout_ms: u64,
}

/// What starting a detached command records.
pub struct CreateExecJob {
    pub task_id: String,
    pub host_id: String,
    pub connection_id: String,
    pub session_id: String,
    pub session_token: String,
    pub started_at: String,
}

/// The hosts registered under a machine id.
pub enum HostLookup {
    NotFound,
    Found(HostConn),
    Ambiguous(Vec<HostConn>),
}

/// The relay's registry of hosts, sessions, pending requests, routes,
/// detached jobs, tunnels and rate limits. Each table is keyed by text and
/// never holds a key twice.
pub struct ServerState {
    hosts: Vec<Entry<HostConn>>,
    sessions: Vec<Entry<SessionState>>,
    pending_open: Vec<Entry<PendingOpen>>,
    request_routes: Vec<Entry<RequestRoute>>,
    command_jobs: Vec<Entry<CommandJob>>,
    tunnels: Vec<Entry<TunnelState>>,
    tunnel_streams: Vec<Entry<TunnelStreamRoute>>,
    host_registrations: Vec<Entry<Vec<u64>>>,
    auth_attempts: Vec<Entry<Vec<u64>>>,
}

/// The texts of a list of strings.
pub open spec fn texts(v: Seq<String>) -> Seq<Seq<char>> {
    v.map_values(|s: String| s@)
}

/// Whether `x` is among `ids`.
pub fn contains_text(ids: &Vec<String>, x: &str) -> (r: bool)
    ensures
        r == texts(ids@).contains(x@),
{
    let mut i: usize = 0;
    while i < ids.len()
        invariant
            i <= ids@.len(),
            forall|j: int| 0 <= j < i ==> #[trigger] ids@[j]@ != x@,
        decreases ids@.len() - i,
    {
        if str_eq(ids[i].as_str(), x) {
            assert(texts(ids@)[i as int] == x@);
            return true;
        }
        i = i + 1;
    }
    assert forall|j: int| 0 <= j < texts(ids@).len() implies #[trigger] texts(ids@)[j] != x@ by {
        assert(texts(ids@)[j] == ids@[j]@);
    }
    false
}

/// The registry's tables as plain values.
pub struct ServerView {
    pub hosts: Seq<Entry<HostConn>>,
    pub sessions: Seq<Entry<SessionState>>,
    pub pending: Seq<Entry<PendingOpen>>,
    pub routes: Seq<Entry<RequestRoute>>,
    pub jobs: Seq<Entry<CommandJob>>,
    pub tunnels: Seq<Entry<TunnelState>>,
    pub streams: Seq<Entry<TunnelStreamRoute>>,
    pub registrations: Seq<Entry<Vec<u64>>>,
    pub auth_attempts: Seq<Entry<Vec<u64>>>,
}

impl View for ServerState {
    type V = ServerView;

    closed spec fn view(&self) -> ServerView {
        ServerView {
            hosts: self.hosts@,
            sessions: self.sessions@,
            pending: self.pending_open@,
            routes: self.request_routes@,
            jobs: self.command_jobs@,
            tunnels: self.tunnels@,
            streams: self.tunnel_streams@,
            registrations: self.host_registrations@,
            auth_attempts: self.auth_attempts@,
        }
    }
}

/// No table holds a key twice.
pub open spec fn wf_server(v: ServerView) -> bool {
    &&& unique_keys(v.hosts)
    &&& unique_keys(v.sessions)
    &&& unique_keys(v.pending)
    &&& unique_keys(v.routes)
    &&& unique_keys(v.jobs)
    &&& unique_keys(v.tunnels)
    &&& forall|i: int| 0 <= i < v.tunnels.len() ==> #[trigger] v.tunnels[i].key@ == v.tunnels[i].value.info.tunnel_id@
    &&& unique_keys(v.streams)
    &&& unique_keys(v.registrations)
    &&& unique_keys(v.auth_attempts)
}

impl ServerState {
    pub open spec fn wf(&self) -> bool {
        wf_server(self@)
    }

    /// An empty registry.
    pub fn new() -> (r: Self)
        ensures
            r.wf(),
            r@.hosts.len() == 0,
            r@.sessions.len() == 0,
            r@.pending.len() == 0,
            r@.routes.len() == 0,
            r@.jobs.len() == 0,
            r@.tunnels.len() == 0,
            r@.streams.len() == 0,
            r@.registrations.len() == 0,
            r@.auth_attempts.len() == 0,
    {
        ServerState {
            hosts: Vec::new(),
            sessions: Vec::new(),
            pending_open: Vec::new(),
            request_routes: Vec::new(),
            command_jobs: Vec::new(),
            tunnels: Vec::new(),
            tunnel_streams: Vec::new(),
            host_registrations: Vec::new(),
            auth_attempts: Vec::new(),
        }
    }

    /// Registers (or re-registers) a host connection, returning the connection
    /// it replaces.
    pub fn register_host(
        &mut self,
        host_id: String,
        machine_id: String,
        connection_id: String,
        tx: u64,
        totp_period_seconds: u64,
    ) -> (r: Option<HostConn>)
        requires
            old(self).wf(),
        ensures
            final(self).wf(),
            final(self)@ == (ServerView {
                hosts: upsert_spec(
                    old(self)@.hosts,
                    Entry {
                        key: host_id,
                        value: HostConn { host_id, machine_id, connection_id, tx, totp_period_seconds },
                    },
                ),
                ..old(self)@
            }),
            match key_pos(old(self)@.hosts, host_id@) {
                Some(i) => r == Some(old(self)@.hosts[i].value),
                None => r is None,
            },
    {
        let key = host_id.clone();
        upsert(&mut self.hosts, key, HostConn { host_id, machine_id, connection_id, tx, totp_period_seconds })
    }

    /// The host registered under this id.
    pub fn host(&self, host_id: &str) -> (r: Option<HostConn>)
        requires
            self.wf(),
        ensures
            match key_pos(self@.hosts, host_id@) {
                Some(i) => r == Some(self@.hosts[i].value),
                None => r is None,
            },
    {
        match find_key(&self.hosts, host_id) {
            Some(i) => Some(self.hosts[i].value.clone()),
            None => None,
        }
    }

    /// The hosts registered with this machine id: none, exactly one, or several.
    pub fn host_for_machine_id(&self, machine_id: &str) -> (r: HostLookup)
        ensures
            ({
                let m = hosts_with_machine(self@.hosts, machine_id@);
                match r {
                    HostLookup::NotFound => m.len() == 0,
                    HostLookup::Found(h) => m.len() == 1 && h == m[0],
                    HostLookup::Ambiguous(v) => m.len() > 1 && v@ == m,
                }
            }),
    {
        let mut found: Vec<HostConn> = Vec::new();
        let mut i: usize = 0;
        while i < self.hosts.len()
            invariant
                i <= self.hosts@.len(),
                found@ == hosts_with_machine(self.hosts@.subrange(0, i as int), machine_id@),
            decreases self.hosts@.len() - i,
        {
            let ghost prefix = self.hosts@.subrange(0, i as int);
            assert(self.hosts@.subrange(0, i + 1 as int).drop_last() =~= prefix);
            if str_eq(self.hosts[i].value.machine_id.as_str(), machine_id) {
                found.push(self.hosts[i].value.clone());
            }
            i = i + 1;
        }
        assert(self.hosts@.subrange(0, self.hosts@.len() as int) =~= self.hosts@);
        if found.len() == 0 {
            HostLookup::NotFound
        } else if found.len() == 1 {
            HostLookup::Found(found[0].clone())
        } else {
            HostLookup::Ambiguous(found)
        }
    }

    /// The channel of the host, if `connection_id` is its current connection.
    pub fn host_tx(&self, host_id: &str, connection_id: &str) -> (r: Option<u64>)
        requires
            self.wf(),
        ensures
            match key_pos(self@.hosts, host_id@) {
                Some(i) => if self@.hosts[i].value.connection_id@ == connection_id@ {
                    r == Some(self@.hosts[i].value.tx)
                } else {
                    r is None
                },
                None => r is None,
            },
    {
        match find_key(&self.hosts, host_id) {
            Some(i) => if str_eq(self.hosts[i].value.connection_id.as_str(), connection_id) {
                Some(self.hosts[i].value.tx)
            } else {
                None
            },
            None => None,
        }
    }

    /// Whether any session is open on this host.
    pub fn host_has_active_session(&self, host_id: &str) -> (r: bool)
        ensures
            r == exists|i: int|
                0 <= i < self@.sessions.len() && #[trigger] self@.sessions[i].value.host_id@ == host_id@,
    {
        let mut i: usize = 0;
        while i < self.sessions.len()
            invariant
                i <= self.sessions@.len(),
                forall|j: int| 0 <= j < i ==> #[trigger] self.sessions@[j].value.host_id@ != host_id@,
            decreases self.sessions@.len() - i,
        {
            if str_eq(self.sessions[i].value.host_id.as_str(), host_id) {
                assert(self@.sessions[i as int].value.host_id@ == host_id@);
                return true;
            }
            i = i + 1;
        }
        false
    }

    /// Records a controller's open request until the host answers.
    pub fn insert_pending_open(&mut self, request_id: String, pending: PendingOpen)
        requires
            old(self).wf(),
        ensures
            final(self).wf(),
            final(self)@ == (ServerView {
                pending: upsert_spec(old(self)@.pending, Entry { key: request_id, value: pending }),
                ..old(self)@
            }),
    {
        upsert(&mut self.pending_open, request_id, pending);
    }

    /// Removes and returns the open request with this id.
    pub fn take_pending_open(&mut self, request_id: &str) -> (r: Option<PendingOpen>)
        requires
            old(self).wf(),
        ensures
            final(self).wf(),
            match key_pos(old(self)@.pending, request_id@) {
                Some(i) => r == Some(old(self)@.pending[i].value) && final(self)@ == (ServerView {
                    pending: old(self)@.pending.remove(i),
                    ..old(self)@
                }),
                None => r is None && final(self)@ == old(self)@,
            },
    {
        match find_key(&self.pending_open, request_id) {
            Some(i) => {
                let e = remove_at(&mut self.pending_open, i);
                Some(e.value)
            },
            None => None,
        }
    }

    /// Drops the open request with this id.
    pub fn remove_pending_open(&mut self, request_id: &str)
        requires
            old(self).wf(),
        ensures
            final(self).wf(),
            match key_pos(old(self)@.pending, request_id@) {
                Some(i) => final(self)@ == (ServerView { pending: old(self)@.pending.remove(i), ..old(self)@ }),
                None => final(self)@ == old(self)@,
            },
    {
        let _ = self.take_pending_open(request_id);
    }

    /// Removes and returns the open requests addressed to this host (to this
    /// connection of it, when one is given), in table order.
    pub fn remove_pending_open_for_host(&mut self, host_id: &str, connection_id: Option<&str>) -> (r: Vec<
        Entry<PendingOpen>,
    >)
        requires
            old(self).wf(),
        ensures
            final(self).wf(),
            r@ == old(self)@.pending.filter(pending_for_host(host_id@, opt_text(connection_id))),
            final(self)@ == (ServerView {
                pending: old(self)@.pending.filter(not_pending_for_host(host_id@, opt_text(connection_id))),
                ..old(self)@
            }),
    {
        let ghost s = self.pending_open@;
        let ghost p = pending_for_host(host_id@, opt_text(connection_id));
        let ghost q = not_pending_for_host(host_id@, opt_text(connection_id));
        let mut old_entries: Vec<Entry<PendingOpen>> = Vec::new();
        std::mem::swap(&mut old_entries, &mut self.pending_open);
        let mut removed: Vec<Entry<PendingOpen>> = Vec::new();
        let mut kept: Vec<Entry<PendingOpen>> = Vec::new();
        let mut i: usize = 0;
        while i < old_entries.len()
            invariant
                old_entries@ == s,
                i <= s.len(),
                removed@ == s.subrange(0, i as int).filter(p),
                kept@ == s.subrange(0, i as int).filter(q),
                p == pending_for_host(host_id@, opt_text(connection_id)),
                q == not_pending_for_host(host_id@, opt_text(connection_id)),
            decreases s.len() - i,
        {
            proof {
                reveal(Seq::filter);
                assert(s.subrange(0, i + 1 as int).drop_last() =~= s.subrange(0, i as int));
            }
            let e = &old_entries[i];
            let matches = str_eq(e.value.host_id.as_str(), host_id) && match connection_id {
                Some(c) => str_eq(e.value.connection_id.as_str(), c),
                None => true,
            };
            let copy = Entry { key: e.key.clone(), value: clone_pending(&e.value) };
            if matches {
                removed.push(copy);
            } else {
                kept.push(copy);
            }
            i = i + 1;
        }
        assert(s.subrange(0, s.len() as int) =~= s);
        proof {
            lemma_unique_filter(s, q);
        }
        self.pending_open = kept;
        removed
    }
}

pub open spec fn opt_text(o: Option<&str>) -> Option<Seq<char>> {
    match o {
        Some(s) => Some(s@),
        None => None,
    }
}

/// The hosts with this machine id, in table order.
pub open spec fn hosts_with_machine(s: Seq<Entry<HostConn>>, machine_id: Seq<char>) -> Seq<HostConn>
    decreases s.len(),
{
    if s.len() == 0 {
        seq![]
    } else if s.last().value.machine_id@ == machine_id {
        hosts_with_machine(s.drop_last(), machine_id).push(s.last().value)
    } else {
        hosts_with_machine(s.drop_last(), machine_id)
    }
}

/// An open request addressed to this host (and connection, when given).
pub open spec fn pending_for_host(host_id: Seq<char>, connection_id: Option<Seq<char>>) -> spec_fn(
    Entry<PendingOpen>,
) -> bool {
    |e: Entry<PendingOpen>|
        e.value.host_id@ == host_id && match connection_id {
            Some(c) => e.value.connection_id@ == c,
            None => true,
        }
}

pub open spec fn not_pending_for_host(host_id: Seq<char>, connection_id: Option<Seq<char>>) -> spec_fn(
    Entry<PendingOpen>,
) -> bool {
    |e: Entry<PendingOpen>| !pending_for_host(host_id, connection_id)(e)
}

fn clone_pending(p: &PendingOpen) -> (r: PendingOpen)
    ensures
        r == *p,
{
    PendingOpen {
        host_id: p.host_id.clone(),
        machine_id: p.machine_id.clone(),
        connection_id: p.connection_id.clone(),
        controller_tx: p.controller_tx,
        controller_label: p.controller_label.clone(),
        force_reconnect: p.force_reconnect,
        created_at: p.created_at,
    }
}


/// A reading of the clock: milliseconds on the relay's monotonic clock (since
/// the relay started) and the wall-clock time as RFC 3339 text.
pub struct Clock {
    pub ms: u64,
    pub text: String,
}

#[verifier::external_type_specification]
#[verifier::external_body]
pub struct ExInstant(std::time::Instant);

/// `std::time::Instant::elapsed` in whole milliseconds
/// (`Duration::as_millis`). Nothing is stated of the value, which is the
/// clock's.
#[verifier::external_body]
fn millis_since(start: &std::time::Instant) -> u128 {
    start.elapsed().as_millis()
}

impl Clock {
    /// The current time: milliseconds since `start` on the monotonic clock
    /// (saturating at `u64::MAX`), and the wall-clock text. Nothing is stated
    /// of either value, which are the clocks'.
    pub fn now(start: &std::time::Instant) -> Clock {
        let elapsed = millis_since(start);
        let ms: u64 = if elapsed > 18446744073709551615u128 {
            u64::MAX
        } else {
            elapsed as u64
        };
        Clock { ms, text: now_rfc3339() }
    }
}

/// Which tunnels to close.
pub enum TunnelSelector {
    /// The tunnels of these sessions.
    OfSessions(Vec<String>),
    /// The tunnels idle for longer than their timeout plus the sweep grace at this time.
    IdleAt(u64),
    /// The tunnel with this id.
    Id(String),
}

/// Whether a tunnel has been idle too long at `now`.
pub open spec fn tunnel_idle(t: TunnelState, now: u64) -> bool {
    t.info.idle_timeout_ms + TUNNEL_IDLE_SWEEP_GRACE_MS <= u64::MAX
        && elapsed(now, t.last_activity) > t.info.idle_timeout_ms + TUNNEL_IDLE_SWEEP_GRACE_MS
}

pub open spec fn negate<T>(p: spec_fn(T) -> bool) -> spec_fn(T) -> bool {
    |e: T| !p(e)
}

/// The tunnels of these sessions.
pub open spec fn of_sessions(ids: Seq<Seq<char>>) -> spec_fn(Entry<TunnelState>) -> bool {
    |e: Entry<TunnelState>| ids.contains(e.value.info.session_id@)
}

pub open spec fn selects(sel: TunnelSelector) -> spec_fn(Entry<TunnelState>) -> bool {
    match sel {
        TunnelSelector::OfSessions(ids) => of_sessions(texts(ids@)),
        TunnelSelector::IdleAt(now) => |e: Entry<TunnelState>| tunnel_idle(e.value, now),
        TunnelSelector::Id(id) => |e: Entry<TunnelState>| e.key@ == id@,
    }
}

/// The report of a tunnel closed at `now` for `reason`.
pub open spec fn close_info(info: TunnelInfo, reason: String, now: Clock) -> TunnelInfo {
    TunnelInfo {
        status: TunnelStatus::Closed,
        active_streams: 0,
        last_activity_at: now.text,
        close_reason: Some(reason),
        ..info
    }
}

pub open spec fn tunnel_keys(s: Seq<Entry<TunnelState>>) -> Seq<Seq<char>> {
    s.map_values(|e: Entry<TunnelState>| e.key@)
}

/// Streams of tunnels other than these.
pub open spec fn stream_outside(ids: Seq<Seq<char>>) -> spec_fn(Entry<TunnelStreamRoute>) -> bool {
    |e: Entry<TunnelStreamRoute>| !ids.contains(e.value.tunnel_id@)
}

/// The registry after closing the tunnels `p` picks and their streams.
pub open spec fn after_close_tunnels(v: ServerView, p: spec_fn(Entry<TunnelState>) -> bool) -> ServerView {
    ServerView {
        tunnels: v.tunnels.filter(negate(p)),
        streams: v.streams.filter(stream_outside(tunnel_keys(v.tunnels.filter(p)))),
        ..v
    }
}

/// The reports of the tunnels closed, in table order.
pub open spec fn closed_reports(v: ServerView, p: spec_fn(Entry<TunnelState>) -> bool, reason: String, now: Clock) -> Seq<TunnelInfo> {
    v.tunnels.filter(p).map_values(|e: Entry<TunnelState>| close_info(e.value.info, reason, now))
}

/// A running job stopped by `error` at `now`: cancelled when the error is a
/// cancellation, failed otherwise.
pub open spec fn fail_job(j: CommandJob, error: ErrorPayload, now: Clock) -> CommandJob {
    CommandJob {
        snapshot: CommandStatusResultPayload {
            status: if error.code == ErrorCode::Cancelled {
                CommandTaskStatus::Cancelled
            } else {
                CommandTaskStatus::Failed
            },
            finished_at: Some(now.text),
            error: Some(error),
            ..j.snapshot
        },
        finished_at: Some(now.ms),
        ..j
    }
}

/// Each running job of these sessions is stopped by `error`.
pub open spec fn fail_jobs_of(s: Seq<Entry<CommandJob>>, ids: Seq<Seq<char>>, error: ErrorPayload, now: Clock) -> Seq<
    Entry<CommandJob>,
> {
    Seq::new(
        s.len(),
        |i: int|
            if ids.contains(s[i].value.session_id@) && s[i].value.snapshot.status == CommandTaskStatus::Running {
                Entry { key: s[i].key, value: fail_job(s[i].value, error, now) }
            } else {
                s[i]
            },
    )
}

/// Routes that do not belong to these sessions.
pub open spec fn route_outside(ids: Seq<Seq<char>>) -> spec_fn(Entry<RequestRoute>) -> bool {
    |e: Entry<RequestRoute>| !ids.contains(e.value.session_id@)
}

/// What removing sessions entails: their routes go, their tunnels are closed
/// for `reason`, and their running jobs are stopped by `error`.
pub open spec fn after_sessions_gone(v: ServerView, ids: Seq<Seq<char>>, error: ErrorPayload, now: Clock) -> ServerView {
    let v1 = ServerView { routes: v.routes.filter(route_outside(ids)), ..v };
    let v2 = after_close_tunnels(v1, of_sessions(ids));
    ServerView { jobs: fail_jobs_of(v2.jobs, ids, error, now), ..v2 }
}

fn clone_texts(v: &Vec<String>) -> (r: Vec<String>)
    ensures
        r@ == v@,
{
    let mut r: Vec<String> = Vec::new();
    let mut i: usize = 0;
    while i < v.len()
        invariant
            i <= v@.len(),
            r@ == v@.subrange(0, i as int),
        decreases v@.len() - i,
    {
        r.push(v[i].clone());
        i = i + 1;
        assert(r@ =~= v@.subrange(0, i as int));
    }
    assert(v@.subrange(0, v@.len() as int) =~= v@);
    r
}

fn tunnel_selected(sel: &TunnelSelector, e: &Entry<TunnelState>) -> (r: bool)
    ensures
        r == selects(*sel)(*e),
{
    match sel {
        TunnelSelector::OfSessions(ids) => contains_text(ids, e.value.info.session_id.as_str()),
        TunnelSelector::IdleAt(now) => match e.value.info.idle_timeout_ms.checked_add(TUNNEL_IDLE_SWEEP_GRACE_MS) {
            Some(limit) => elapsed_ms(*now, e.value.last_activity) > limit,
            None => false,
        },
        TunnelSelector::Id(id) => str_eq(e.key.as_str(), id.as_str()),
    }
}

fn clone_tunnel_entry(e: &Entry<TunnelState>) -> (r: Entry<TunnelState>)
    ensures
        r == *e,
{
    Entry { key: e.key.clone(), value: e.value.clone() }
}

fn clone_stream_entry(e: &Entry<TunnelStreamRoute>) -> (r: Entry<TunnelStreamRoute>)
    ensures
        r == *e,
{
    Entry { key: e.key.clone(), value: e.value.clone() }
}

fn clone_route_entry(e: &Entry<RequestRoute>) -> (r: Entry<RequestRoute>)
    ensures
        r == *e,
{
    Entry { key: e.key.clone(), value: e.value.clone() }
}

impl ServerState {
    /// Closes the selected tunnels for `reason`, dropping their streams, and
    /// returns their final reports.
    fn close_tunnels(&mut self, sel: &TunnelSelector, reason: &String, now: &Clock) -> (r: Vec<TunnelInfo>)
        requires
            old(self).wf(),
        ensures
            final(self).wf(),
            final(self)@ == after_close_tunnels(old(self)@, selects(*sel)),
            r@ == closed_reports(old(self)@, selects(*sel), *reason, *now),
    {
        let ghost s = self.tunnels@;
        let ghost p = selects(*sel);
        let ghost q = negate(selects(*sel));
        let mut removed: Vec<Entry<TunnelState>> = Vec::new();
        let mut kept: Vec<Entry<TunnelState>> = Vec::new();
        let mut i: usize = 0;
        while i < self.tunnels.len()
            invariant
                self.tunnels@ == s,
                i <= s.len(),
                removed@ == s.subrange(0, i as int).filter(p),
                kept@ == s.subrange(0, i as int).filter(q),
                p == selects(*sel),
                q == negate(selects(*sel)),
            decreases s.len() - i,
        {
            proof {
                reveal(Seq::filter);
                assert(s.subrange(0, i + 1 as int).drop_last() =~= s.subrange(0, i as int));
            }
            let e = clone_tunnel_entry(&self.tunnels[i]);
            if tunnel_selected(sel, &e) {
                removed.push(e);
            } else {
                kept.push(e);
            }
            i = i + 1;
        }
        assert(s.subrange(0, s.len() as int) =~= s);
        proof {
            lemma_unique_filter(s, q);
            let f = s.filter(q);
            assert forall|k: int| 0 <= k < f.len() implies #[trigger] f[k].key@ == f[k].value.info.tunnel_id@ by {
                lemma_filter_member(s, q, k);
            }
        }
        self.tunnels = kept;
        let mut ids: Vec<String> = Vec::new();
        let mut infos: Vec<TunnelInfo> = Vec::new();
        let mut j: usize = 0;
        while j < removed.len()
            invariant
                removed@ == s.filter(p),
                j <= removed@.len(),
                ids@.len() == j,
                forall|m: int| 0 <= m < j ==> #[trigger] ids@[m]@ == removed@[m].key@,
                infos@ == removed@.subrange(0, j as int).map_values(
                    |e: Entry<TunnelState>| close_info(e.value.info, *reason, *now),
                ),
            decreases removed@.len() - j,
        {
            ids.push(removed[j].key.clone());
            let mut info = removed[j].value.info.clone();
            info.status = TunnelStatus::Closed;
            info.active_streams = 0;
            info.last_activity_at = now.text.clone();
            info.close_reason = Some(reason.clone());
            infos.push(info);
            j = j + 1;
            assert(infos@ =~= removed@.subrange(0, j as int).map_values(
                |e: Entry<TunnelState>| close_info(e.value.info, *reason, *now),
            ));
        }
        assert(removed@.subrange(0, removed@.len() as int) =~= removed@);
        assert(texts(ids@) =~= tunnel_keys(removed@));
        let ghost st = self.tunnel_streams@;
        let ghost sp = stream_outside(texts(ids@));
        let mut streams_kept: Vec<Entry<TunnelStreamRoute>> = Vec::new();
        let mut k: usize = 0;
        while k < self.tunnel_streams.len()
            invariant
                self.tunnel_streams@ == st,
                k <= st.len(),
                streams_kept@ == st.subrange(0, k as int).filter(sp),
                sp == stream_outside(texts(ids@)),
            decreases st.len() - k,
        {
            proof {
                reveal(Seq::filter);
                assert(st.subrange(0, k + 1 as int).drop_last() =~= st.subrange(0, k as int));
            }
            if !contains_text(&ids, self.tunnel_streams[k].value.tunnel_id.as_str()) {
                streams_kept.push(clone_stream_entry(&self.tunnel_streams[k]));
            }
            k = k + 1;
        }
        assert(st.subrange(0, st.len() as int) =~= st);
        proof {
            lemma_unique_filter(st, sp);
        }
        self.tunnel_streams = streams_kept;
        infos
    }

    /// Drops the routes of these sessions.
    fn remove_routes_for_sessions(&mut self, ids: &Vec<String>)
        requires
            old(self).wf(),
        ensures
            final(self).wf(),
            final(self)@ == (ServerView { routes: old(self)@.routes.filter(route_outside(texts(ids@))), ..old(self)@ }),
    {
        let ghost s = self.request_routes@;
        let ghost p = route_outside(texts(ids@));
        let mut kept: Vec<Entry<RequestRoute>> = Vec::new();
        let mut i: usize = 0;
        while i < self.request_routes.len()
            invariant
                self.request_routes@ == s,
                i <= s.len(),
                kept@ == s.subrange(0, i as int).filter(p),
                p == route_outside(texts(ids@)),
            decreases s.len() - i,
        {
            proof {
                reveal(Seq::filter);
                assert(s.subrange(0, i + 1 as int).drop_last() =~= s.subrange(0, i as int));
            }
            if !contains_text(ids, self.request_routes[i].value.session_id.as_str()) {
                kept.push(clone_route_entry(&self.request_routes[i]));
            }
            i = i + 1;
        }
        assert(s.subrange(0, s.len() as int) =~= s);
        proof {
            lemma_unique_filter(s, p);
        }
        self.request_routes = kept;
    }

    /// Stops the running jobs of these sessions with `error`.
    fn fail_running_exec_jobs_for_sessions(&mut self, ids: &Vec<String>, error: &ErrorPayload, now: &Clock)
        requires
            old(self).wf(),
        ensures
            final(self).wf(),
            final(self)@ == (ServerView { jobs: fail_jobs_of(old(self)@.jobs, texts(ids@), *error, *now), ..old(self)@ }),
    {
        let ghost s = self.command_jobs@;
        let mut i: usize = 0;
        while i < self.command_jobs.len()
            invariant
                self.command_jobs@.len() == s.len(),
                i <= s.len(),
                forall|j: int| 0 <= j < i ==> #[trigger] self.command_jobs@[j] == fail_jobs_of(s, texts(ids@), *error, *now)[j],
                forall|j: int| i <= j < s.len() ==> #[trigger] self.command_jobs@[j] == s[j],
                self.hosts@ == old(self).hosts@,
                self.sessions@ == old(self).sessions@,
                self.pending_open@ == old(self).pending_open@,
                self.request_routes@ == old(self).request_routes@,
                self.tunnels@ == old(self).tunnels@,
                self.tunnel_streams@ == old(self).tunnel_streams@,
                self.host_registrations@ == old(self).host_registrations@,
                self.auth_attempts@ == old(self).auth_attempts@,
                s == old(self).command_jobs@,
            decreases s.len() - i,
        {
            let running = self.command_jobs[i].value.snapshot.status == CommandTaskStatus::Running;
            if running && contains_text(ids, self.command_jobs[i].value.session_id.as_str()) {
                let status = if error.code == ErrorCode::Cancelled {
                    CommandTaskStatus::Cancelled
                } else {
                    CommandTaskStatus::Failed
                };
                let ghost before = self.command_jobs@;
                self.command_jobs[i].value.snapshot.status = status;
                self.command_jobs[i].value.snapshot.finished_at = Some(now.text.clone());
                self.command_jobs[i].value.snapshot.error = Some(error.clone());
                self.command_jobs[i].value.finished_at = Some(now.ms);
                assert(self.command_jobs@[i as int] == fail_jobs_of(s, texts(ids@), *error, *now)[i as int]);
                assert forall|j: int| 0 <= j < s.len() && j != i implies #[trigger] self.command_jobs@[j] == before[j] by {}
            }
            i = i + 1;
        }
        assert(self.command_jobs@ =~= fail_jobs_of(s, texts(ids@), *error, *now));
        proof {
            lemma_unique_same_keys(s, self.command_jobs@);
        }
    }

    /// Removing sessions: their routes go, their tunnels close for `reason` and
    /// their running jobs stop with `error`.
    fn sessions_gone(&mut self, ids: &Vec<String>, reason: &String, error: &ErrorPayload, now: &Clock)
        requires
            old(self).wf(),
        ensures
            final(self).wf(),
            final(self)@ == after_sessions_gone(old(self)@, texts(ids@), *error, *now),
    {
        self.remove_routes_for_sessions(ids);
        let sel = TunnelSelector::OfSessions(clone_texts(ids));
        let _ = self.close_tunnels(&sel, reason, now);
        self.fail_running_exec_jobs_for_sessions(ids, error, now);
    }
}

/// A member of a filtered sequence is a member of the original.
pub proof fn lemma_filter_member<A>(s: Seq<A>, p: spec_fn(A) -> bool, k: int)
    requires
        0 <= k < s.filter(p).len(),
    ensures
        s.contains(s.filter(p)[k]),
        p(s.filter(p)[k]),
{
    s.lemma_filter_pred(p, k);
    let x = s.filter(p)[k];
    assert(s.filter(p).contains(x));
    s.lemma_filter_contains_rev(p, x);
}


/// The session with this id (if any) marked as seen at `now`.
pub open spec fn touched(v: ServerView, session_id: Seq<char>, now: u64) -> ServerView {
    match key_pos(v.sessions, session_id) {
        Some(i) => ServerView {
            sessions: v.sessions.update(
                i,
                Entry { key: v.sessions[i].key, value: SessionState { last_seen: now, ..v.sessions[i].value } },
            ),
            ..v
        },
        None => v,
    }
}

pub open spec fn drop_session(v: ServerView, i: int) -> ServerView {
    ServerView { sessions: v.sessions.remove(i), ..v }
}

/// The session under this id, if its token matches.
pub open spec fn valid_session(v: ServerView, session_id: Seq<char>, token: Seq<char>) -> Option<int> {
    match key_pos(v.sessions, session_id) {
        Some(i) => if v.sessions[i].value.session_token@ == token { Some(i) } else { None },
        None => None,
    }
}

/// A session of this host (and connection, when given).
pub open spec fn session_of_host(host_id: Seq<char>, connection_id: Option<Seq<char>>) -> spec_fn(Entry<SessionState>) -> bool {
    |e: Entry<SessionState>|
        e.value.host_id@ == host_id && match connection_id {
            Some(c) => e.value.connection_id@ == c,
            None => true,
        }
}

pub open spec fn session_ids_of(s: Seq<Entry<SessionState>>) -> Seq<Seq<char>> {
    s.map_values(|e: Entry<SessionState>| e.value.session_id@)
}

pub open spec fn session_values(s: Seq<Entry<SessionState>>) -> Seq<SessionState> {
    s.map_values(|e: Entry<SessionState>| e.value)
}

fn clone_session_entry(e: &Entry<SessionState>) -> (r: Entry<SessionState>)
    ensures
        r == *e,
{
    Entry { key: e.key.clone(), value: e.value.clone() }
}

impl ServerState {
    /// Opens a session for a controller on a host connection.
    pub fn create_session(
        &mut self,
        session_id: String,
        session_token: String,
        host_id: String,
        machine_id: String,
        connection_id: String,
        controller_tx: u64,
        now: &Clock,
    )
        requires
            old(self).wf(),
        ensures
            final(self).wf(),
            final(self)@ == (ServerView {
                sessions: upsert_spec(
                    old(self)@.sessions,
                    Entry {
                        key: session_id,
                        value: SessionState {
                            session_id,
                            session_token,
                            host_id,
                            machine_id,
                            connection_id,
                            controller_tx: Some(controller_tx),
                            last_seen: now.ms,
                        },
                    },
                ),
                ..old(self)@
            }),
    {
        let key = session_id.clone();
        upsert(
            &mut self.sessions,
            key,
            SessionState {
                session_id,
                session_token,
                host_id,
                machine_id,
                connection_id,
                controller_tx: Some(controller_tx),
                last_seen: now.ms,
            },
        );
    }

    /// The session, if the token matches; it is marked as seen now.
    pub fn session_if_valid(&mut self, session_id: &str, session_token: &str, now: &Clock) -> (r: Option<SessionState>)
        requires
            old(self).wf(),
        ensures
            final(self).wf(),
            match valid_session(old(self)@, session_id@, session_token@) {
                Some(i) => {
                    let updated = SessionState { last_seen: now.ms, ..old(self)@.sessions[i].value };
                    &&& r == Some(updated)
                    &&& final(self)@ == (ServerView {
                        sessions: old(self)@.sessions.update(i, Entry { key: old(self)@.sessions[i].key, value: updated }),
                        ..old(self)@
                    })
                },
                None => r is None && final(self)@ == old(self)@,
            },
    {
        match find_key(&self.sessions, session_id) {
            Some(i) => {
                if str_eq(self.sessions[i].value.session_token.as_str(), session_token) {
                    self.sessions[i].value.last_seen = now.ms;
                    proof {
                        lemma_unique_same_keys(old(self)@.sessions, self@.sessions);
                    }
                    assert(self@.sessions =~= old(self)@.sessions.update(
                        i as int,
                        Entry {
                            key: old(self)@.sessions[i as int].key,
                            value: SessionState { last_seen: now.ms, ..old(self)@.sessions[i as int].value },
                        },
                    ));
                    Some(self.sessions[i].value.clone())
                } else {
                    None
                }
            },
            None => None,
        }
    }

    /// Marks the session as seen now.
    pub fn touch_session(&mut self, session_id: &str, now: &Clock)
        requires
            old(self).wf(),
        ensures
            final(self).wf(),
            final(self)@ == touched(old(self)@, session_id@, now.ms),
    {
        match find_key(&self.sessions, session_id) {
            Some(i) => {
                self.sessions[i].value.last_seen = now.ms;
                proof {
                    lemma_unique_same_keys(old(self)@.sessions, self@.sessions);
                }
                assert(self@.sessions =~= old(self)@.sessions.update(
                    i as int,
                    Entry {
                        key: old(self)@.sessions[i as int].key,
                        value: SessionState { last_seen: now.ms, ..old(self)@.sessions[i as int].value },
                    },
                ));
            },
            None => {},
        }
    }

    /// Points the session at a (re)connected controller, if the token matches.
    pub fn bind_controller_to_session(
        &mut self,
        session_id: &str,
        session_token: &str,
        controller_tx: u64,
        now: &Clock,
    ) -> (r: Option<SessionState>)
        requires
            old(self).wf(),
        ensures
            final(self).wf(),
            match valid_session(old(self)@, session_id@, session_token@) {
                Some(i) => {
                    let updated = SessionState {
                        controller_tx: Some(controller_tx),
                        last_seen: now.ms,
                        ..old(self)@.sessions[i].value
                    };
                    &&& r == Some(updated)
                    &&& final(self)@ == (ServerView {
                        sessions: old(self)@.sessions.update(i, Entry { key: old(self)@.sessions[i].key, value: updated }),
                        ..old(self)@
                    })
                },
                None => r is None && final(self)@ == old(self)@,
            },
    {
        match find_key(&self.sessions, session_id) {
            Some(i) => {
                if str_eq(self.sessions[i].value.session_token.as_str(), session_token) {
                    self.sessions[i].value.controller_tx = Some(controller_tx);
                    self.sessions[i].value.last_seen = now.ms;
                    proof {
                        lemma_unique_same_keys(old(self)@.sessions, self@.sessions);
                    }
                    assert(self@.sessions =~= old(self)@.sessions.update(
                        i as int,
                        Entry {
                            key: old(self)@.sessions[i as int].key,
                            value: SessionState {
                                controller_tx: Some(controller_tx),
                                last_seen: now.ms,
                                ..old(self)@.sessions[i as int].value
                            },
                        },
                    ));
                    Some(self.sessions[i].value.clone())
                } else {
                    None
                }
            },
            None => None,
        }
    }

    /// The session under this id, whatever its token.
    pub fn command_route(&self, session_id: &str) -> (r: Option<SessionState>)
        requires
            self.wf(),
        ensures
            match key_pos(self@.sessions, session_id@) {
                Some(i) => r == Some(self@.sessions[i].value),
                None => r is None,
            },
    {
        match find_key(&self.sessions, session_id) {
            Some(i) => Some(self.sessions[i].value.clone()),
            None => None,
        }
    }

    /// The controller channel of the session, if it belongs to this host connection.
    pub fn session_controller_for_machine(&self, session_id: &str, host_id: &str, connection_id: &str) -> (r: Option<u64>)
        requires
            self.wf(),
        ensures
            match key_pos(self@.sessions, session_id@) {
                Some(i) => {
                    let st = self@.sessions[i].value;
                    if st.host_id@ == host_id@ && st.connection_id@ == connection_id@ {
                        r == st.controller_tx
                    } else {
                        r is None
                    }
                },
                None => r is None,
            },
    {
        match find_key(&self.sessions, session_id) {
            Some(i) => {
                let st = &self.sessions[i].value;
                if str_eq(st.host_id.as_str(), host_id) && str_eq(st.connection_id.as_str(), connection_id) {
                    st.controller_tx
                } else {
                    None
                }
            },
            None => None,
        }
    }

    /// Closes the session at the controller's request, if the token matches:
    /// its routes go, its tunnels close and its running jobs are cancelled.
    pub fn remove_session_if_valid(&mut self, session_id: &str, session_token: &str, now: &Clock) -> (r: Option<
        SessionState,
    >)
        requires
            old(self).wf(),
        ensures
            final(self).wf(),
            match valid_session(old(self)@, session_id@, session_token@) {
                Some(i) => {
                    let st = old(self)@.sessions[i].value;
                    &&& r == Some(st)
                    &&& exists|err: ErrorPayload|
                        err.code == ErrorCode::Cancelled && err.message@ == "session closed by controller"@
                            && #[trigger] after_sessions_gone(
                            drop_session(old(self)@, i),
                            seq![st.session_id@],
                            err,
                            *now,
                        ) == final(self)@
                },
                None => r is None && final(self)@ == old(self)@,
            },
    {
        match find_key(&self.sessions, session_id) {
            Some(i) => {
                if str_eq(self.sessions[i].value.session_token.as_str(), session_token) {
                    let e = remove_at(&mut self.sessions, i);
                    let mut ids: Vec<String> = Vec::new();
                    ids.push(e.value.session_id.clone());
                    assert(texts(ids@) =~= seq![e.value.session_id@]);
                    let error = ErrorPayload { code: ErrorCode::Cancelled, message: owned("session closed by controller") };
                    let ghost mid = self@;
                    assert(mid == drop_session(old(self)@, i as int));
                    assert(error.message@ == "session closed by controller"@);
                    self.sessions_gone(&ids, &owned("session_closed"), &error, now);
                    assert(after_sessions_gone(mid, seq![e.value.session_id@], error, *now) == self@);
                    Some(e.value)
                } else {
                    None
                }
            },
            None => None,
        }
    }
}


/// Removing the sessions `p` picks (when there are any) and what that entails.
pub open spec fn after_removing_sessions(v: ServerView, p: spec_fn(Entry<SessionState>) -> bool, error: ErrorPayload, now: Clock) -> ServerView {
    let removed = v.sessions.filter(p);
    if removed.len() > 0 {
        after_sessions_gone(
            ServerView { sessions: v.sessions.filter(negate(p)), ..v },
            session_ids_of(removed),
            error,
            now,
        )
    } else {
        v
    }
}

pub open spec fn drop_host(v: ServerView, i: int) -> ServerView {
    ServerView { hosts: v.hosts.remove(i), ..v }
}

impl ServerState {
    /// Closes the session at its host's request, if it belongs to this host
    /// connection: its routes go, its tunnels close and its running jobs stop
    /// with `error`.
    pub fn remove_session_for_host(
        &mut self,
        session_id: &str,
        host_id: &str,
        connection_id: &str,
        error: ErrorPayload,
        now: &Clock,
    ) -> (r: Option<SessionState>)
        requires
            old(self).wf(),
        ensures
            final(self).wf(),
            match key_pos(old(self)@.sessions, session_id@) {
                Some(i) => {
                    let st = old(self)@.sessions[i].value;
                    if st.host_id@ == host_id@ && st.connection_id@ == connection_id@ {
                        &&& r == Some(st)
                        &&& final(self)@ == after_sessions_gone(drop_session(old(self)@, i), seq![st.session_id@], error, *now)
                    } else {
                        r is None && final(self)@ == old(self)@
                    }
                },
                None => r is None && final(self)@ == old(self)@,
            },
    {
        match find_key(&self.sessions, session_id) {
            Some(i) => {
                if str_eq(self.sessions[i].value.host_id.as_str(), host_id) && str_eq(
                    self.sessions[i].value.connection_id.as_str(),
                    connection_id,
                ) {
                    let e = remove_at(&mut self.sessions, i);
                    let mut ids: Vec<String> = Vec::new();
                    ids.push(e.value.session_id.clone());
                    assert(texts(ids@) =~= seq![e.value.session_id@]);
                    assert(self@ == drop_session(old(self)@, i as int));
                    self.sessions_gone(&ids, &owned("session_closed"), &error, now);
                    Some(e.value)
                } else {
                    None
                }
            },
            None => None,
        }
    }

    /// Removes the sessions of this host (of this connection of it, when one
    /// is given) and what they entail, returning them in table order.
    pub fn remove_sessions_for_host(
        &mut self,
        host_id: &str,
        connection_id: Option<&str>,
        error: ErrorPayload,
        now: &Clock,
    ) -> (r: Vec<SessionState>)
        requires
            old(self).wf(),
        ensures
            final(self).wf(),
            r@ == session_values(old(self)@.sessions.filter(session_of_host(host_id@, opt_text(connection_id)))),
            final(self)@ == after_removing_sessions(
                old(self)@,
                session_of_host(host_id@, opt_text(connection_id)),
                error,
                *now,
            ),
    {
        let ghost s = self.sessions@;
        let ghost p = session_of_host(host_id@, opt_text(connection_id));
        let ghost q = negate(p);
        let mut removed: Vec<SessionState> = Vec::new();
        let mut ids: Vec<String> = Vec::new();
        let mut kept: Vec<Entry<SessionState>> = Vec::new();
        let mut i: usize = 0;
        while i < self.sessions.len()
            invariant
                self.sessions@ == s,
                i <= s.len(),
                removed@ == session_values(s.subrange(0, i as int).filter(p)),
                texts(ids@) == session_ids_of(s.subrange(0, i as int).filter(p)),
                kept@ == s.subrange(0, i as int).filter(q),
                p == session_of_host(host_id@, opt_text(connection_id)),
                q == negate(p),
            decreases s.len() - i,
        {
            proof {
                reveal(Seq::filter);
                assert(s.subrange(0, i + 1 as int).drop_last() =~= s.subrange(0, i as int));
            }
            let e = clone_session_entry(&self.sessions[i]);
            let matches = str_eq(e.value.host_id.as_str(), host_id) && match connection_id {
                Some(c) => str_eq(e.value.connection_id.as_str(), c),
                None => true,
            };
            let ghost f0 = s.subrange(0, i as int).filter(p);
            if matches {
                let ghost ids0 = ids@;
                let ghost rem0 = removed@;
                ids.push(e.value.session_id.clone());
                removed.push(e.value.clone());
                assert(session_values(f0.push(e)) =~= session_values(f0).push(e.value));
                assert(session_ids_of(f0.push(e)) =~= session_ids_of(f0).push(e.value.session_id@));
                assert(texts(ids@) =~= texts(ids0).push(e.value.session_id@));
                assert(removed@ =~= rem0.push(e.value));
            } else {
                kept.push(e);
            }
            i = i + 1;
        }
        assert(s.subrange(0, s.len() as int) =~= s);
        if removed.len() > 0 {
            proof {
                lemma_unique_filter(s, q);
            }
            self.sessions = kept;
            self.sessions_gone(&ids, &owned("host_disconnected"), &error, now);
        }
        removed
    }
}


/// Bytes of a character's UTF-8 encoding.
pub open spec fn utf8_width(c: char) -> nat {
    vstd::utf8::encode_scalar(c as u32).len()
}

/// Bytes of the UTF-8 encoding of a text.
pub open spec fn utf8_len(s: Seq<char>) -> nat {
    vstd::utf8::encode_utf8(s).len()
}

/// The longest prefix of `c`, in characters, whose encoding fits in `limit` bytes.
pub open spec fn fit_prefix(c: Seq<char>, limit: int) -> nat
    decreases c.len(),
{
    if c.len() == 0 || utf8_width(c[0]) > limit {
        0
    } else {
        1 + fit_prefix(c.drop_first(), limit - utf8_width(c[0]))
    }
}

pub proof fn lemma_utf8_len_concat(a: Seq<char>, b: Seq<char>)
    ensures
        utf8_len(a + b) == utf8_len(a) + utf8_len(b),
    decreases a.len(),
{
    if a.len() > 0 {
        assert((a + b).drop_first() =~= a.drop_first() + b);
        assert((a + b)[0] == a[0]);
        lemma_utf8_len_concat(a.drop_first(), b);
    } else {
        assert(a + b =~= b);
    }
}

pub proof fn lemma_utf8_len_single(c: char)
    ensures
        utf8_len(seq![c]) == utf8_width(c),
{
    assert(seq![c].drop_first() =~= Seq::<char>::empty());
    assert(utf8_len(Seq::<char>::empty()) == 0);
}

pub proof fn lemma_utf8_len_first(c: Seq<char>)
    requires
        c.len() > 0,
    ensures
        utf8_len(c) == utf8_width(c[0]) + utf8_len(c.drop_first()),
{
}

/// The fitting prefix does fit.
pub proof fn lemma_fit_prefix_fits(c: Seq<char>, limit: int)
    requires
        limit >= 0,
    ensures
        fit_prefix(c, limit) <= c.len(),
        utf8_len(c.take(fit_prefix(c, limit) as int)) <= limit,
    decreases c.len(),
{
    if c.len() == 0 || utf8_width(c[0]) > limit {
        assert(c.take(0) =~= Seq::<char>::empty());
    } else {
        let w = utf8_width(c[0]);
        lemma_fit_prefix_fits(c.drop_first(), limit - w);
        let k = fit_prefix(c.drop_first(), limit - w);
        assert(c.take(k + 1 as int) =~= seq![c[0]] + c.drop_first().take(k as int));
        lemma_utf8_len_concat(seq![c[0]], c.drop_first().take(k as int));
        lemma_utf8_len_single(c[0]);
    }
}

/// Captured output never grows past `MAX_CAPTURED_OUTPUT_BYTES`: what fits of
/// the chunk is appended (whole characters only) and the capture is marked
/// truncated once something did not fit.
/// What capturing `chunk` does to a capture `t` (truncated or not): whole
/// characters are appended while they fit in `MAX_CAPTURED_OUTPUT_BYTES`, and
/// the capture becomes truncated once something does not fit.
pub open spec fn appended_output(t: Seq<char>, truncated: bool, chunk: Seq<char>) -> (Seq<char>, bool) {
    if truncated {
        (t, true)
    } else {
        let used = utf8_len(t);
        let rem: int = if used >= MAX_CAPTURED_OUTPUT_BYTES { 0 } else { MAX_CAPTURED_OUTPUT_BYTES - used };
        if rem == 0 {
            (t, true)
        } else if utf8_len(chunk) <= rem {
            (t + chunk, false)
        } else {
            (t + chunk.take(fit_prefix(chunk, rem) as int), true)
        }
    }
}

/// Captured output never grows past `MAX_CAPTURED_OUTPUT_BYTES`.
pub proof fn lemma_output_stays_within_limit(t: Seq<char>, truncated: bool, chunk: Seq<char>)
    requires
        utf8_len(t) <= MAX_CAPTURED_OUTPUT_BYTES,
    ensures
        utf8_len(appended_output(t, truncated, chunk).0) <= MAX_CAPTURED_OUTPUT_BYTES,
        appended_output(t, truncated, chunk).0.take(t.len() as int) == t,
{
    let r = appended_output(t, truncated, chunk).0;
    if !truncated {
        let rem: int = MAX_CAPTURED_OUTPUT_BYTES - utf8_len(t);
        if rem > 0 {
            if utf8_len(chunk) <= rem {
                lemma_utf8_len_concat(t, chunk);
            } else {
                lemma_fit_prefix_fits(chunk, rem);
                lemma_utf8_len_concat(t, chunk.take(fit_prefix(chunk, rem) as int));
            }
        }
    }
    assert(r.take(t.len() as int) =~= t);
}

pub fn append_limited_output(target: &mut String, truncated: &mut bool, chunk: &str)
    ensures
        (final(target)@, *final(truncated)) == appended_output(old(target)@, *old(truncated), chunk@),
{
    if *truncated {
        return;
    }
    let used = capped_utf8_len(target.as_str(), MAX_CAPTURED_OUTPUT_BYTES);
    let remaining = MAX_CAPTURED_OUTPUT_BYTES - used;
    if remaining == 0 {
        *truncated = true;
        return;
    }
    let chars = crate::text::to_chars(chunk);
    let mut k: usize = 0;
    let mut taken: usize = 0;
    assert(chars@.skip(0) =~= chars@);
    assert(chars@.take(0) =~= Seq::<char>::empty());
    while k < chars.len() && taken + char_width(chars[k]) <= remaining
        invariant
            chars@ == chunk@,
            k <= chars@.len(),
            remaining <= MAX_CAPTURED_OUTPUT_BYTES,
            taken <= remaining,
            taken == utf8_len(chars@.take(k as int)),
            fit_prefix(chars@, remaining as int) == k + fit_prefix(chars@.skip(k as int), remaining - taken),
        decreases chars@.len() - k,
    {
        let w = char_width(chars[k]);
        proof {
            let rest = chars@.skip(k as int);
            assert(rest[0] == chars@[k as int]);
            assert(rest.drop_first() =~= chars@.skip(k + 1));
            assert(chars@.take(k + 1) =~= chars@.take(k as int) + seq![chars@[k as int]]);
            lemma_utf8_len_concat(chars@.take(k as int), seq![chars@[k as int]]);
            lemma_utf8_len_single(chars@[k as int]);
        }
        taken = taken + w;
        k = k + 1;
    }
    proof {
        if k < chars@.len() {
            let rest = chars@.skip(k as int);
            assert(rest[0] == chars@[k as int]);
        } else {
            assert(chars@.skip(k as int).len() == 0);
        }
        lemma_fit_prefix_all(chunk@, remaining as int);
    }
    if k == chars.len() {
        assert(chars@.take(k as int) =~= chars@);
        target.append(chunk);
        return;
    }
    let prefix = crate::text::from_chars(crate::text::slice_chars(&chars, 0, k).as_slice());
    assert(prefix@ =~= chunk@.take(k as int));
    target.append(prefix.as_str());
    *truncated = true;
}

/// The whole text fits exactly when its encoding does.
pub proof fn lemma_fit_prefix_all(c: Seq<char>, limit: int)
    requires
        limit >= 0,
    ensures
        (fit_prefix(c, limit) == c.len()) == (utf8_len(c) <= limit),
    decreases c.len(),
{
    if c.len() == 0 {
        assert(utf8_len(c) == 0);
    } else {
        lemma_utf8_len_first(c);
        if utf8_width(c[0]) <= limit {
            lemma_fit_prefix_all(c.drop_first(), limit - utf8_width(c[0]));
        }
    }
}

pub proof fn lemma_fit_prefix_le(c: Seq<char>, limit: int)
    ensures
        fit_prefix(c, limit) <= c.len(),
    decreases c.len(),
{
    if c.len() > 0 && utf8_width(c[0]) <= limit {
        lemma_fit_prefix_le(c.drop_first(), limit - utf8_width(c[0]));
    }
}

/// The UTF-8 length of `s`, or `cap` when it is at least that.
fn capped_utf8_len(s: &str, cap: usize) -> (r: usize)
    ensures
        r == (if utf8_len(s@) >= cap { cap as int } else { utf8_len(s@) as int }),
{
    if cap == 0 {
        return 0;
    }
    let chars = crate::text::to_chars(s);
    let mut k: usize = 0;
    let mut total: usize = 0;
    assert(chars@.take(0) =~= Seq::<char>::empty());
    while k < chars.len()
        invariant
            chars@ == s@,
            k <= chars@.len(),
            total < cap,
            total == utf8_len(chars@.take(k as int)),
        decreases chars@.len() - k,
    {
        let w = char_width(chars[k]);
        proof {
            assert(chars@.take(k + 1) =~= chars@.take(k as int) + seq![chars@[k as int]]);
            lemma_utf8_len_concat(chars@.take(k as int), seq![chars@[k as int]]);
            lemma_utf8_len_single(chars@[k as int]);
            lemma_utf8_len_concat(chars@.take(k + 1), chars@.skip(k + 1));
            assert(chars@.take(k + 1) + chars@.skip(k + 1) =~= chars@);
        }
        if w >= cap - total {
            return cap;
        }
        total = total + w;
        k = k + 1;
    }
    assert(chars@.take(k as int) =~= chars@);
    total
}

fn char_width(c: char) -> (r: usize)
    ensures
        r == utf8_width(c),
        1 <= r <= 4,
{
    let v = c as u32;
    if v <= 0x7F {
        1
    } else if v <= 0x7FF {
        2
    } else if v <= 0xFFFF {
        proof {
            vstd::utf8::char_is_scalar(c);
        }
        3
    } else {
        proof {
            vstd::utf8::char_is_scalar(c);
        }
        4
    }
}


/// The route a request gets on a session.
pub open spec fn new_route(session: SessionState, tx: u64, detached: bool, now: u64) -> RequestRoute {
    RequestRoute {
        session_id: session.session_id,
        host_id: session.host_id,
        connection_id: session.connection_id,
        controller_tx: tx,
        detached,
        created_at: now,
    }
}

/// Routes to other controllers, and detached routes, are kept.
pub open spec fn route_not_of_controller(tx: u64) -> spec_fn(Entry<RequestRoute>) -> bool {
    |e: Entry<RequestRoute>| e.value.detached || e.value.controller_tx != tx
}

/// A fresh job snapshot: running, with nothing captured yet.
pub open spec fn is_new_job_snapshot(s: CommandStatusResultPayload, task_id: String, started_at: String) -> bool {
    &&& s.task_id == task_id
    &&& s.status == CommandTaskStatus::Running
    &&& s.request_id == task_id
    &&& s.started_at == started_at
    &&& s.finished_at is None
    &&& s.stdout@.len() == 0
    &&& s.stderr@.len() == 0
    &&& !s.stdout_truncated
    &&& !s.stderr_truncated
    &&& s.complete is None
    &&& s.error is None
}

impl ServerState {
    /// Drops the host's registration if `connection_id` is its current
    /// connection, with its sessions (and what they entail); a stale
    /// connection changes nothing.
    pub fn unregister_host(&mut self, host_id: &str, connection_id: &str, now: &Clock) -> (r: Vec<SessionState>)
        requires
            old(self).wf(),
        ensures
            final(self).wf(),
            match key_pos(old(self)@.hosts, host_id@) {
                Some(i) => if old(self)@.hosts[i].value.connection_id@ == connection_id@ {
                    &&& r@ == session_values(
                        old(self)@.sessions.filter(session_of_host(host_id@, Some(connection_id@))),
                    )
                    &&& exists|err: ErrorPayload|
                        err.code == ErrorCode::HostDisconnected && err.message@ == error_code_message(
                            ErrorCode::HostDisconnected,
                        ) && #[trigger] after_removing_sessions(
                            drop_host(old(self)@, i),
                            session_of_host(host_id@, Some(connection_id@)),
                            err,
                            *now,
                        ) == final(self)@
                } else {
                    r@.len() == 0 && final(self)@ == old(self)@
                },
                None => r@.len() == 0 && final(self)@ == old(self)@,
            },
    {
        match find_key(&self.hosts, host_id) {
            Some(i) => {
                if str_eq(self.hosts[i].value.connection_id.as_str(), connection_id) {
                    let _ = remove_at(&mut self.hosts, i);
                    assert(self@ == drop_host(old(self)@, i as int));
                    let ghost mid = self@;
                    let error = ErrorPayload {
                        code: ErrorCode::HostDisconnected,
                        message: owned(ErrorCode::HostDisconnected.message()),
                    };
                    let r = self.remove_sessions_for_host(host_id, Some(connection_id), error.clone(), now);
                    assert(opt_text(Some(connection_id)) == Some(connection_id@));
                    assert(after_removing_sessions(mid, session_of_host(host_id@, Some(connection_id@)), error, *now) == self@);
                    r
                } else {
                    Vec::new()
                }
            },
            None => Vec::new(),
        }
    }

    fn track_request_route_with_mode(
        &mut self,
        request_id: String,
        session: &SessionState,
        tx: u64,
        detached: bool,
        now: &Clock,
    )
        requires
            old(self).wf(),
        ensures
            final(self).wf(),
            final(self)@ == (ServerView {
                routes: upsert_spec(old(self)@.routes, Entry { key: request_id, value: new_route(*session, tx, detached, now.ms) }),
                ..old(self)@
            }),
    {
        upsert(
            &mut self.request_routes,
            request_id,
            RequestRoute {
                session_id: session.session_id.clone(),
                host_id: session.host_id.clone(),
                connection_id: session.connection_id.clone(),
                controller_tx: tx,
                detached,
                created_at: now.ms,
            },
        );
    }

    /// Routes the host's answers to this request to the controller's channel.
    pub fn track_request_route(&mut self, request_id: String, session: &SessionState, tx: u64, now: &Clock)
        requires
            old(self).wf(),
        ensures
            final(self).wf(),
            final(self)@ == (ServerView {
                routes: upsert_spec(old(self)@.routes, Entry { key: request_id, value: new_route(*session, tx, false, now.ms) }),
                ..old(self)@
            }),
    {
        self.track_request_route_with_mode(request_id, session, tx, false, now);
    }

    /// Routes the host's answers to a detached request; such a route outlives
    /// the controller's connection.
    pub fn track_detached_request_route(&mut self, request_id: String, session: &SessionState, tx: u64, now: &Clock)
        requires
            old(self).wf(),
        ensures
            final(self).wf(),
            final(self)@ == (ServerView {
                routes: upsert_spec(old(self)@.routes, Entry { key: request_id, value: new_route(*session, tx, true, now.ms) }),
                ..old(self)@
            }),
    {
        self.track_request_route_with_mode(request_id, session, tx, true, now);
    }

    /// Forgets the route of this request.
    pub fn clear_request_route(&mut self, request_id: &str)
        requires
            old(self).wf(),
        ensures
            final(self).wf(),
            match key_pos(old(self)@.routes, request_id@) {
                Some(i) => final(self)@ == (ServerView { routes: old(self)@.routes.remove(i), ..old(self)@ }),
                None => final(self)@ == old(self)@,
            },
    {
        match find_key(&self.request_routes, request_id) {
            Some(i) => {
                let _ = remove_at(&mut self.request_routes, i);
            },
            None => {},
        }
    }

    /// Forgets the attached routes of a controller that went away.
    pub fn clear_request_routes_for_controller(&mut self, tx: u64)
        requires
            old(self).wf(),
        ensures
            final(self).wf(),
            final(self)@ == (ServerView { routes: old(self)@.routes.filter(route_not_of_controller(tx)), ..old(self)@ }),
    {
        let ghost s = self.request_routes@;
        let ghost p = route_not_of_controller(tx);
        let mut kept: Vec<Entry<RequestRoute>> = Vec::new();
        let mut i: usize = 0;
        while i < self.request_routes.len()
            invariant
                self.request_routes@ == s,
                i <= s.len(),
                kept@ == s.subrange(0, i as int).filter(p),
                p == route_not_of_controller(tx),
            decreases s.len() - i,
        {
            proof {
                reveal(Seq::filter);
                assert(s.subrange(0, i + 1 as int).drop_last() =~= s.subrange(0, i as int));
            }
            if self.request_routes[i].value.detached || self.request_routes[i].value.controller_tx != tx {
                kept.push(clone_route_entry(&self.request_routes[i]));
            }
            i = i + 1;
        }
        assert(s.subrange(0, s.len() as int) =~= s);
        proof {
            lemma_unique_filter(s, p);
        }
        self.request_routes = kept;
    }

    /// The route of this request.
    pub fn request_route(&self, request_id: &str) -> (r: Option<RequestRoute>)
        requires
            self.wf(),
        ensures
            match key_pos(self@.routes, request_id@) {
                Some(i) => r == Some(self@.routes[i].value),
                None => r is None,
            },
    {
        match find_key(&self.request_routes, request_id) {
            Some(i) => Some(self.request_routes[i].value.clone()),
            None => None,
        }
    }

    /// The route of this request, if it leads to this host connection (and
    /// session, when one is given).
    pub fn request_route_for_host(
        &self,
        request_id: &str,
        host_id: &str,
        connection_id: &str,
        session_id: Option<&str>,
    ) -> (r: Option<RequestRoute>)
        requires
            self.wf(),
        ensures
            match key_pos(self@.routes, request_id@) {
                Some(i) => {
                    let rt = self@.routes[i].value;
                    if rt.host_id@ == host_id@ && rt.connection_id@ == connection_id@ && match session_id {
                        Some(sid) => rt.session_id@ == sid@,
                        None => true,
                    } {
                        r == Some(rt)
                    } else {
                        r is None
                    }
                },
                None => r is None,
            },
    {
        match find_key(&self.request_routes, request_id) {
            Some(i) => {
                let rt = &self.request_routes[i].value;
                let session_ok = match session_id {
                    Some(sid) => str_eq(rt.session_id.as_str(), sid),
                    None => true,
                };
                if str_eq(rt.host_id.as_str(), host_id) && str_eq(rt.connection_id.as_str(), connection_id)
                    && session_ok {
                    Some(rt.clone())
                } else {
                    None
                }
            },
            None => None,
        }
    }

    /// The session a request belongs to.
    pub fn request_session_id(&self, request_id: &str) -> (r: Option<String>)
        requires
            self.wf(),
        ensures
            match key_pos(self@.routes, request_id@) {
                Some(i) => r == Some(self@.routes[i].value.session_id),
                None => r is None,
            },
    {
        match self.request_route(request_id) {
            Some(rt) => Some(rt.session_id),
            None => None,
        }
    }

    /// Records a detached command job, running and with nothing captured yet,
    /// and returns its first snapshot.
    pub fn create_exec_job(&mut self, job: CreateExecJob, now: &Clock) -> (r: CommandStatusResultPayload)
        requires
            old(self).wf(),
        ensures
            final(self).wf(),
            is_new_job_snapshot(r, job.task_id, job.started_at),
            final(self)@ == (ServerView {
                jobs: upsert_spec(
                    old(self)@.jobs,
                    Entry {
                        key: job.task_id,
                        value: CommandJob {
                            snapshot: r,
                            host_id: job.host_id,
                            connection_id: job.connection_id,
                            session_id: job.session_id,
                            session_token: job.session_token,
                            created_at: now.ms,
                            finished_at: None,
                        },
                    },
                ),
                ..old(self)@
            }),
    {
        let snapshot = CommandStatusResultPayload {
            task_id: job.task_id.clone(),
            status: CommandTaskStatus::Running,
            request_id: job.task_id.clone(),
            started_at: job.started_at,
            finished_at: None,
            stdout: String::new(),
            stderr: String::new(),
            stdout_truncated: false,
            stderr_truncated: false,
            complete: None,
            error: None,
        };
        let key = job.task_id;
        let r = snapshot.clone();
        upsert(
            &mut self.command_jobs,
            key,
            CommandJob {
                snapshot,
                host_id: job.host_id,
                connection_id: job.connection_id,
                session_id: job.session_id,
                session_token: job.session_token,
                created_at: now.ms,
                finished_at: None,
            },
        );
        r
    }

    /// The job's snapshot, if the token is the session's that started it.
    pub fn exec_job_if_valid(&self, task_id: &str, session_token: &str) -> (r: Option<CommandStatusResultPayload>)
        requires
            self.wf(),
        ensures
            match key_pos(self@.jobs, task_id@) {
                Some(i) => if self@.jobs[i].value.session_token@ == session_token@ {
                    r == Some(self@.jobs[i].value.snapshot)
                } else {
                    r is None
                },
                None => r is None,
            },
    {
        match find_key(&self.command_jobs, task_id) {
            Some(i) => if str_eq(self.command_jobs[i].value.session_token.as_str(), session_token) {
                Some(self.command_jobs[i].value.snapshot.clone())
            } else {
                None
            },
            None => None,
        }
    }

    /// Where a running job lives (host, connection, session), if the token matches.
    pub fn exec_job_route_if_valid(&self, task_id: &str, session_token: &str) -> (r: Option<(String, String, String)>)
        requires
            self.wf(),
        ensures
            match key_pos(self@.jobs, task_id@) {
                Some(i) => {
                    let j = self@.jobs[i].value;
                    if j.session_token@ == session_token@ && j.snapshot.status == CommandTaskStatus::Running {
                        r == Some((j.host_id, j.connection_id, j.session_id))
                    } else {
                        r is None
                    }
                },
                None => r is None,
            },
    {
        match find_key(&self.command_jobs, task_id) {
            Some(i) => {
                let j = &self.command_jobs[i].value;
                if str_eq(j.session_token.as_str(), session_token) && j.snapshot.status == CommandTaskStatus::Running {
                    Some((j.host_id.clone(), j.connection_id.clone(), j.session_id.clone()))
                } else {
                    None
                }
            },
            None => None,
        }
    }
}


/// The job with this id, if it is still running.
pub open spec fn running_job(v: ServerView, task_id: Seq<char>) -> Option<int> {
    match key_pos(v.jobs, task_id) {
        Some(i) => if v.jobs[i].value.snapshot.status == CommandTaskStatus::Running { Some(i) } else { None },
        None => None,
    }
}

pub open spec fn with_job(v: ServerView, i: int, j: CommandJob) -> ServerView {
    ServerView { jobs: v.jobs.update(i, Entry { key: v.jobs[i].key, value: j }), ..v }
}

/// A running job that completed at `now`.
pub open spec fn finish_job(j: CommandJob, complete: CommandCompletePayload, now: Clock) -> CommandJob {
    CommandJob {
        snapshot: CommandStatusResultPayload {
            status: CommandTaskStatus::Completed,
            finished_at: Some(now.text),
            complete: Some(complete),
            ..j.snapshot
        },
        finished_at: Some(now.ms),
        ..j
    }
}

pub open spec fn with_tunnel(v: ServerView, i: int, t: TunnelState) -> ServerView {
    ServerView { tunnels: v.tunnels.update(i, Entry { key: v.tunnels[i].key, value: t }), ..v }
}

/// How many tunnels this session has.
pub open spec fn tunnels_of_session(s: Seq<Entry<TunnelState>>, session_id: Seq<char>) -> nat {
    s.filter(|e: Entry<TunnelState>| e.value.info.session_id@ == session_id).len()
}

/// The tunnel a controller opens: opening, idle since now, with no traffic yet.
pub open spec fn opening_tunnel(create: CreateTunnel, now: Clock) -> TunnelState {
    TunnelState {
        info: TunnelInfo {
            tunnel_id: create.tunnel_id,
            session_id: create.session.session_id,
            direction: create.direction,
            listen_addr: create.listen_addr,
            listen_port: create.listen_port,
            target_host: create.target_host,
            target_port: create.target_port,
            status: TunnelStatus::Opening,
            opened_at: now.text,
            last_activity_at: now.text,
            idle_timeout_ms: create.idle_timeout_ms,
            bytes_from_listener: 0,
            bytes_from_target: 0,
            active_streams: 0,
            total_streams: 0,
            close_reason: None,
        },
        host_id: create.session.host_id,
        connection_id: create.session.connection_id,
        target_side: create.direction.spec_target_side(),
        last_activity: now.ms,
    }
}

fn count_session_tunnels(s: &Vec<Entry<TunnelState>>, session_id: &str) -> (r: usize)
    ensures
        r == tunnels_of_session(s@, session_id@),
{
    let ghost p = |e: Entry<TunnelState>| e.value.info.session_id@ == session_id@;
    let mut n: usize = 0;
    let mut i: usize = 0;
    while i < s.len()
        invariant
            i <= s@.len(),
            n == s@.subrange(0, i as int).filter(p).len(),
            n <= i,
            p == (|e: Entry<TunnelState>| e.value.info.session_id@ == session_id@),
        decreases s@.len() - i,
    {
        proof {
            reveal(Seq::filter);
            assert(s@.subrange(0, i + 1 as int).drop_last() =~= s@.subrange(0, i as int));
        }
        if str_eq(s[i].value.info.session_id.as_str(), session_id) {
            n = n + 1;
        }
        i = i + 1;
    }
    assert(s@.subrange(0, s@.len() as int) =~= s@);
    n
}

/// `v1` is `v0` after appending `data` to the `stream` capture of the running
/// job `task_id`, within the capture limit (other streams and finished jobs
/// are left alone).
pub open spec fn output_appended(v0: ServerView, v1: ServerView, task_id: Seq<char>, stream: Seq<char>, data: Seq<char>) -> bool {
    match running_job(v0, task_id) {
        Some(i) => {
            let j = v0.jobs[i].value;
            let n = v1.jobs[i].value;
            if stream == "stdout"@ {
                &&& (n.snapshot.stdout@, n.snapshot.stdout_truncated) == appended_output(j.snapshot.stdout@, j.snapshot.stdout_truncated, data)
                &&& v1 == with_job(v0, i, CommandJob {
                    snapshot: CommandStatusResultPayload {
                        stdout: n.snapshot.stdout,
                        stdout_truncated: n.snapshot.stdout_truncated,
                        ..j.snapshot
                    },
                    ..j
                })
            } else if stream == "stderr"@ {
                &&& (n.snapshot.stderr@, n.snapshot.stderr_truncated) == appended_output(j.snapshot.stderr@, j.snapshot.stderr_truncated, data)
                &&& v1 == with_job(v0, i, CommandJob {
                    snapshot: CommandStatusResultPayload {
                        stderr: n.snapshot.stderr,
                        stderr_truncated: n.snapshot.stderr_truncated,
                        ..j.snapshot
                    },
                    ..j
                })
            } else {
                v1 == v0
            }
        },
        None => v1 == v0,
    }
}

impl ServerState {
    /// Appends output to a running job's `stdout` or `stderr` capture, within
    /// the capture limit; other streams and finished jobs are left alone.
    pub fn append_exec_job_output(&mut self, task_id: &str, stream: &str, data: &str)
        requires
            old(self).wf(),
        ensures
            final(self).wf(),
            output_appended(old(self)@, final(self)@, task_id@, stream@, data@),
    {
        match find_key(&self.command_jobs, task_id) {
            Some(i) => {
                if self.command_jobs[i].value.snapshot.status != CommandTaskStatus::Running {
                    return;
                }
                if str_eq(stream, "stdout") {
                    let mut out = self.command_jobs[i].value.snapshot.stdout.clone();
                    let mut tr = self.command_jobs[i].value.snapshot.stdout_truncated;
                    append_limited_output(&mut out, &mut tr, data);
                    self.command_jobs[i].value.snapshot.stdout = out;
                    self.command_jobs[i].value.snapshot.stdout_truncated = tr;
                } else if str_eq(stream, "stderr") {
                    let mut out = self.command_jobs[i].value.snapshot.stderr.clone();
                    let mut tr = self.command_jobs[i].value.snapshot.stderr_truncated;
                    append_limited_output(&mut out, &mut tr, data);
                    self.command_jobs[i].value.snapshot.stderr = out;
                    self.command_jobs[i].value.snapshot.stderr_truncated = tr;
                } else {
                    return;
                }
                assert(self@.jobs =~= old(self)@.jobs.update(
                    i as int,
                    Entry { key: old(self)@.jobs[i as int].key, value: self@.jobs[i as int].value },
                ));
                proof {
                    lemma_unique_same_keys(old(self)@.jobs, self@.jobs);
                }
            },
            None => {},
        }
    }

    /// Marks a running job completed at `now`.
    pub fn finish_exec_job(&mut self, task_id: &str, complete: CommandCompletePayload, now: &Clock)
        requires
            old(self).wf(),
        ensures
            final(self).wf(),
            match running_job(old(self)@, task_id@) {
                Some(i) => final(self)@ == with_job(old(self)@, i, finish_job(old(self)@.jobs[i].value, complete, *now)),
                None => final(self)@ == old(self)@,
            },
    {
        match find_key(&self.command_jobs, task_id) {
            Some(i) => {
                if self.command_jobs[i].value.snapshot.status != CommandTaskStatus::Running {
                    return;
                }
                self.command_jobs[i].value.snapshot.status = CommandTaskStatus::Completed;
                self.command_jobs[i].value.snapshot.finished_at = Some(now.text.clone());
                self.command_jobs[i].value.snapshot.complete = Some(complete);
                self.command_jobs[i].value.finished_at = Some(now.ms);
                assert(self@.jobs =~= old(self)@.jobs.update(
                    i as int,
                    Entry { key: old(self)@.jobs[i as int].key, value: self@.jobs[i as int].value },
                ));
                proof {
                    lemma_unique_same_keys(old(self)@.jobs, self@.jobs);
                }
            },
            None => {},
        }
    }

    /// Stops a running job with `error`: cancelled for a cancellation, failed otherwise.
    pub fn fail_exec_job(&mut self, task_id: &str, error: ErrorPayload, now: &Clock)
        requires
            old(self).wf(),
        ensures
            final(self).wf(),
            match running_job(old(self)@, task_id@) {
                Some(i) => final(self)@ == with_job(old(self)@, i, fail_job(old(self)@.jobs[i].value, error, *now)),
                None => final(self)@ == old(self)@,
            },
    {
        match find_key(&self.command_jobs, task_id) {
            Some(i) => {
                if self.command_jobs[i].value.snapshot.status != CommandTaskStatus::Running {
                    return;
                }
                let status = if error.code == ErrorCode::Cancelled {
                    CommandTaskStatus::Cancelled
                } else {
                    CommandTaskStatus::Failed
                };
                self.command_jobs[i].value.snapshot.status = status;
                self.command_jobs[i].value.snapshot.finished_at = Some(now.text.clone());
                self.command_jobs[i].value.snapshot.error = Some(error);
                self.command_jobs[i].value.finished_at = Some(now.ms);
                assert(self@.jobs =~= old(self)@.jobs.update(
                    i as int,
                    Entry { key: old(self)@.jobs[i as int].key, value: self@.jobs[i as int].value },
                ));
                proof {
                    lemma_unique_same_keys(old(self)@.jobs, self@.jobs);
                }
            },
            None => {},
        }
    }

    /// Records a tunnel a controller asked for, unless its session already has
    /// the most tunnels allowed.
    pub fn create_tunnel(&mut self, create: CreateTunnel, now: &Clock) -> (r: Result<TunnelInfo, ErrorPayload>)
        requires
            old(self).wf(),
        ensures
            final(self).wf(),
            if tunnels_of_session(old(self)@.tunnels, create.session.session_id@) >= MAX_TUNNELS_PER_SESSION {
                &&& r matches Err(e) && e.code == ErrorCode::PermissionDenied && e.message@
                    == "per-session tunnel limit exceeded"@
                &&& final(self)@ == old(self)@
            } else {
                &&& r == Ok::<TunnelInfo, ErrorPayload>(opening_tunnel(create, *now).info)
                &&& final(self)@ == (ServerView {
                    tunnels: upsert_spec(old(self)@.tunnels, Entry { key: create.tunnel_id, value: opening_tunnel(create, *now) }),
                    ..old(self)@
                })
            },
    {
        let count = count_session_tunnels(&self.tunnels, create.session.session_id.as_str());
        if count >= MAX_TUNNELS_PER_SESSION {
            return Err(ErrorPayload { code: ErrorCode::PermissionDenied, message: owned("per-session tunnel limit exceeded") });
        }
        let target_side = create.direction.target_endpoint_side();
        let key = create.tunnel_id.clone();
        let info = TunnelInfo {
            tunnel_id: create.tunnel_id,
            session_id: create.session.session_id,
            direction: create.direction,
            listen_addr: create.listen_addr,
            listen_port: create.listen_port,
            target_host: create.target_host,
            target_port: create.target_port,
            status: TunnelStatus::Opening,
            opened_at: now.text.clone(),
            last_activity_at: now.text.clone(),
            idle_timeout_ms: create.idle_timeout_ms,
            bytes_from_listener: 0,
            bytes_from_target: 0,
            active_streams: 0,
            total_streams: 0,
            close_reason: None,
        };
        let r = info.clone();
        let state = TunnelState {
            info,
            host_id: create.session.host_id,
            connection_id: create.session.connection_id,
            target_side,
            last_activity: now.ms,
        };
        let ghost before = self.tunnels@;
        upsert(&mut self.tunnels, key, state);
        proof {
            let s2 = self.tunnels@;
            assert forall|k: int| 0 <= k < s2.len() implies #[trigger] s2[k].key@ == s2[k].value.info.tunnel_id@ by {
                match key_pos(before, create.tunnel_id@) {
                    Some(i) => {
                        if k != i {
                            assert(s2[k] == before[k]);
                        }
                    },
                    None => {
                        if k < before.len() {
                            assert(s2[k] == before[k]);
                        }
                    },
                }
            }
        }
        Ok(r)
    }
}


/// A tunnel that the host reported listening: active since now, with the
/// listening address and port it reported, if any.
pub open spec fn activated(t: TunnelState, listen_addr: Option<String>, listen_port: Option<u16>, now: Clock) -> TunnelState {
    TunnelState {
        info: TunnelInfo {
            listen_addr: match listen_addr {
                Some(a) => a,
                None => t.info.listen_addr,
            },
            listen_port: match listen_port {
                Some(p) => p,
                None => t.info.listen_port,
            },
            status: TunnelStatus::Active,
            last_activity_at: now.text,
            ..t.info
        },
        last_activity: now.ms,
        ..t
    }
}

/// Streams of other tunnels.
pub open spec fn stream_not_of(tunnel_id: Seq<char>) -> spec_fn(Entry<TunnelStreamRoute>) -> bool {
    |e: Entry<TunnelStreamRoute>| e.value.tunnel_id@ != tunnel_id
}

/// The stream with this id, if it belongs to this tunnel.
pub open spec fn stream_of(v: ServerView, tunnel_id: Seq<char>, stream_id: Seq<char>) -> Option<int> {
    match key_pos(v.streams, stream_id) {
        Some(i) => if v.streams[i].value.tunnel_id@ == tunnel_id { Some(i) } else { None },
        None => None,
    }
}

/// The tunnel (if any) marked active at `now`, with one stream fewer.
pub open spec fn stream_closed_in_tunnel(v: ServerView, tunnel_id: Seq<char>, now: Clock) -> ServerView {
    match key_pos(v.tunnels, tunnel_id) {
        Some(i) => {
            let t = v.tunnels[i].value;
            with_tunnel(
                v,
                i,
                TunnelState {
                    info: TunnelInfo {
                        active_streams: if t.info.active_streams > 0 { (t.info.active_streams - 1) as usize } else { 0 },
                        last_activity_at: now.text,
                        ..t.info
                    },
                    last_activity: now.ms,
                    ..t
                },
            )
        },
        None => v,
    }
}

/// The tunnel (if any) marked active at `now`.
pub open spec fn tunnel_touched(v: ServerView, tunnel_id: Seq<char>, now: Clock) -> ServerView {
    match key_pos(v.tunnels, tunnel_id) {
        Some(i) => {
            let t = v.tunnels[i].value;
            with_tunnel(v, i, TunnelState { info: TunnelInfo { last_activity_at: now.text, ..t.info }, last_activity: now.ms, ..t })
        },
        None => v,
    }
}

pub open spec fn with_stream(v: ServerView, i: int, r: TunnelStreamRoute) -> ServerView {
    ServerView { streams: v.streams.update(i, Entry { key: v.streams[i].key, value: r }), ..v }
}

pub open spec fn drop_stream(v: ServerView, i: int) -> ServerView {
    ServerView { streams: v.streams.remove(i), ..v }
}

/// Closing a stream: it is dropped, its tunnel has one stream fewer, and its
/// session is marked as seen.
pub open spec fn after_stream_closed(v: ServerView, i: int, tunnel_id: Seq<char>, now: Clock) -> ServerView {
    let route = v.streams[i].value;
    touched(stream_closed_in_tunnel(drop_stream(v, i), tunnel_id, now), route.session_id@, now.ms)
}

proof fn lemma_tunnel_keys_kept(a: Seq<Entry<TunnelState>>, b: Seq<Entry<TunnelState>>)
    requires
        unique_keys(a),
        forall|i: int| 0 <= i < a.len() ==> #[trigger] a[i].key@ == a[i].value.info.tunnel_id@,
        b.len() == a.len(),
        forall|i: int| 0 <= i < a.len() ==> #[trigger] b[i].key == a[i].key && b[i].value.info.tunnel_id == a[i].value.info.tunnel_id,
    ensures
        unique_keys(b),
        forall|i: int| 0 <= i < b.len() ==> #[trigger] b[i].key@ == b[i].value.info.tunnel_id@,
{
    lemma_unique_same_keys(a, b);
    assert forall|i: int| 0 <= i < b.len() implies #[trigger] b[i].key@ == b[i].value.info.tunnel_id@ by {
        assert(b[i].key == a[i].key);
        assert(a[i].key@ == a[i].value.info.tunnel_id@);
    }
}

impl ServerState {
    /// The host reported the tunnel listening: it becomes active.
    pub fn activate_tunnel(
        &mut self,
        tunnel_id: &str,
        listen_addr: Option<String>,
        listen_port: Option<u16>,
        now: &Clock,
    ) -> (r: Option<TunnelInfo>)
        requires
            old(self).wf(),
        ensures
            final(self).wf(),
            match key_pos(old(self)@.tunnels, tunnel_id@) {
                Some(i) => {
                    let t = activated(old(self)@.tunnels[i].value, listen_addr, listen_port, *now);
                    r == Some(t.info) && final(self)@ == with_tunnel(old(self)@, i, t)
                },
                None => r is None && final(self)@ == old(self)@,
            },
    {
        match find_key(&self.tunnels, tunnel_id) {
            Some(i) => {
                let mut t = self.tunnels[i].value.clone();
                if let Some(a) = listen_addr {
                    t.info.listen_addr = a;
                }
                if let Some(p) = listen_port {
                    t.info.listen_port = p;
                }
                t.info.status = TunnelStatus::Active;
                t.info.last_activity_at = now.text.clone();
                t.last_activity = now.ms;
                let info = t.info.clone();
                self.tunnels[i].value = t;
                assert(self@.tunnels =~= old(self)@.tunnels.update(
                    i as int,
                    Entry { key: old(self)@.tunnels[i as int].key, value: self@.tunnels[i as int].value },
                ));
                proof {
                    lemma_tunnel_keys_kept(old(self)@.tunnels, self@.tunnels);
                }
                Some(info)
            },
            None => None,
        }
    }

    /// The tunnel could not be opened: it is dropped with its streams and its
    /// final report (failed, for `reason`) returned.
    pub fn fail_tunnel(&mut self, tunnel_id: &str, reason: &str, now: &Clock) -> (r: Option<TunnelInfo>)
        requires
            old(self).wf(),
        ensures
            final(self).wf(),
            match key_pos(old(self)@.tunnels, tunnel_id@) {
                Some(i) => {
                    let t = old(self)@.tunnels[i].value;
                    &&& r matches Some(info) && info == (TunnelInfo {
                        status: TunnelStatus::Failed,
                        last_activity_at: now.text,
                        close_reason: info.close_reason,
                        ..t.info
                    }) && (info.close_reason matches Some(c) && c@ == reason@)
                    &&& final(self)@ == (ServerView {
                        tunnels: old(self)@.tunnels.remove(i),
                        streams: old(self)@.streams.filter(stream_not_of(tunnel_id@)),
                        ..old(self)@
                    })
                },
                None => r is None && final(self)@ == old(self)@,
            },
    {
        match find_key(&self.tunnels, tunnel_id) {
            Some(i) => {
                let e = remove_at(&mut self.tunnels, i);
                proof {
                    let s2 = self.tunnels@;
                    let s0 = old(self)@.tunnels;
                    assert forall|k: int| 0 <= k < s2.len() implies #[trigger] s2[k].key@ == s2[k].value.info.tunnel_id@ by {
                        let k0 = if k < i { k } else { k + 1 };
                        assert(s2[k] == s0[k0]);
                    }
                }
                let mut info = e.value.info;
                info.status = TunnelStatus::Failed;
                info.last_activity_at = now.text.clone();
                info.close_reason = Some(owned(reason));
                let ghost st = self.tunnel_streams@;
                let ghost p = stream_not_of(tunnel_id@);
                let mut kept: Vec<Entry<TunnelStreamRoute>> = Vec::new();
                let mut k: usize = 0;
                while k < self.tunnel_streams.len()
                    invariant
                        self.tunnel_streams@ == st,
                        k <= st.len(),
                        kept@ == st.subrange(0, k as int).filter(p),
                        p == stream_not_of(tunnel_id@),
                    decreases st.len() - k,
                {
                    proof {
                        reveal(Seq::filter);
                        assert(st.subrange(0, k + 1 as int).drop_last() =~= st.subrange(0, k as int));
                    }
                    if !str_eq(self.tunnel_streams[k].value.tunnel_id.as_str(), tunnel_id) {
                        kept.push(clone_stream_entry(&self.tunnel_streams[k]));
                    }
                    k = k + 1;
                }
                assert(st.subrange(0, st.len() as int) =~= st);
                proof {
                    lemma_unique_filter(st, p);
                }
                self.tunnel_streams = kept;
                Some(info)
            },
            None => None,
        }
    }
}


/// The reports of a session's tunnels (only the named one, when given), in table order.
pub open spec fn session_tunnel_reports(s: Seq<Entry<TunnelState>>, session_id: Seq<char>, tunnel_id: Option<Seq<char>>) -> Seq<TunnelInfo> {
    s.filter(picks_session_tunnel(session_id, tunnel_id)).map_values(|e: Entry<TunnelState>| e.value.info)
}

pub open spec fn picks_session_tunnel(session_id: Seq<char>, tunnel_id: Option<Seq<char>>) -> spec_fn(Entry<TunnelState>) -> bool {
    |e: Entry<TunnelState>|
        e.value.info.session_id@ == session_id && match tunnel_id {
            Some(t) => e.value.info.tunnel_id@ == t,
            None => true,
        }
}

/// A stream opened at `now` through the tunnel.
pub open spec fn opened_stream(t: TunnelState, now: u64) -> TunnelStreamRoute {
    TunnelStreamRoute {
        tunnel_id: t.info.tunnel_id,
        session_id: t.info.session_id,
        host_id: t.host_id,
        connection_id: t.connection_id,
        last_activity: now,
        controller_eof: false,
        host_eof: false,
    }
}

/// The tunnel with one stream more, active since `now`.
pub open spec fn with_new_stream(t: TunnelState, now: Clock) -> TunnelState {
    TunnelState {
        info: TunnelInfo {
            active_streams: (t.info.active_streams + 1) as usize,
            total_streams: (t.info.total_streams + 1) as u64,
            last_activity_at: now.text,
            ..t.info
        },
        last_activity: now.ms,
        ..t
    }
}

impl ServerState {
    /// The tunnel, if the token is its session's; the session is marked as seen.
    pub fn tunnel_if_valid(&mut self, tunnel_id: &str, session_token: &str, now: &Clock) -> (r: Option<TunnelState>)
        requires
            old(self).wf(),
        ensures
            final(self).wf(),
            match key_pos(old(self)@.tunnels, tunnel_id@) {
                Some(i) => {
                    let sid = old(self)@.tunnels[i].value.info.session_id@;
                    match valid_session(old(self)@, sid, session_token@) {
                        Some(_) => r == Some(old(self)@.tunnels[i].value) && final(self)@ == touched(old(self)@, sid, now.ms),
                        None => r is None && final(self)@ == old(self)@,
                    }
                },
                None => r is None && final(self)@ == old(self)@,
            },
    {
        let i = match find_key(&self.tunnels, tunnel_id) {
            Some(i) => i,
            None => return None,
        };
        let sid = self.tunnels[i].value.info.session_id.clone();
        match self.session_if_valid(sid.as_str(), session_token, now) {
            Some(_) => {},
            None => return None,
        }
        Some(self.tunnels[i].value.clone())
    }

    /// The session's tunnels (only the named one, when given), if the token
    /// matches; the session is marked as seen.
    pub fn tunnels_for_session_if_valid(
        &mut self,
        session_id: &str,
        session_token: &str,
        tunnel_id: Option<&str>,
        now: &Clock,
    ) -> (r: Option<Vec<TunnelInfo>>)
        requires
            old(self).wf(),
        ensures
            final(self).wf(),
            match valid_session(old(self)@, session_id@, session_token@) {
                Some(_) => (r matches Some(v) && v@ == session_tunnel_reports(old(self)@.tunnels, session_id@, opt_text(tunnel_id)))
                    && final(self)@ == touched(old(self)@, session_id@, now.ms),
                None => r is None && final(self)@ == old(self)@,
            },
    {
        match self.session_if_valid(session_id, session_token, now) {
            Some(_) => {},
            None => return None,
        }
        let ghost s = self.tunnels@;
        let ghost p = picks_session_tunnel(session_id@, opt_text(tunnel_id));
        let ghost after = self@;
        let mut list: Vec<TunnelInfo> = Vec::new();
        let mut i: usize = 0;
        while i < self.tunnels.len()
            invariant
                self@ == after,
                self.tunnels@ == s,
                i <= s.len(),
                list@ == s.subrange(0, i as int).filter(p).map_values(|e: Entry<TunnelState>| e.value.info),
                p == picks_session_tunnel(session_id@, opt_text(tunnel_id)),
            decreases s.len() - i,
        {
            proof {
                reveal(Seq::filter);
                assert(s.subrange(0, i + 1 as int).drop_last() =~= s.subrange(0, i as int));
            }
            let info = &self.tunnels[i].value.info;
            let picked = str_eq(info.session_id.as_str(), session_id) && match tunnel_id {
                Some(t) => str_eq(info.tunnel_id.as_str(), t),
                None => true,
            };
            let ghost f0 = s.subrange(0, i as int).filter(p);
            if picked {
                let ghost l0 = list@;
                list.push(info.clone());
                assert(f0.push(s[i as int]).map_values(|e: Entry<TunnelState>| e.value.info) =~= l0.push(s[i as int].value.info));
            }
            i = i + 1;
        }
        assert(s.subrange(0, s.len() as int) =~= s);
        Some(list)
    }

    /// Closes the tunnel for `reason`, if the token is its session's, and
    /// returns its final report.
    pub fn close_tunnel_if_valid(&mut self, tunnel_id: &str, session_token: &str, reason: &String, now: &Clock) -> (r: Option<
        TunnelInfo,
    >)
        requires
            old(self).wf(),
        ensures
            final(self).wf(),
            match key_pos(old(self)@.tunnels, tunnel_id@) {
                Some(i) => {
                    let t = old(self)@.tunnels[i].value;
                    match valid_session(old(self)@, t.info.session_id@, session_token@) {
                        Some(_) => {
                            &&& r == Some(close_info(t.info, *reason, *now))
                            &&& final(self)@ == (ServerView {
                                tunnels: old(self)@.tunnels.remove(i),
                                streams: old(self)@.streams.filter(stream_outside(seq![t.info.tunnel_id@])),
                                ..touched(old(self)@, t.info.session_id@, now.ms)
                            })
                        },
                        None => r is None && final(self)@ == old(self)@,
                    }
                },
                None => r is None && final(self)@ == old(self)@,
            },
    {
        let tunnel = match self.tunnel_if_valid(tunnel_id, session_token, now) {
            Some(t) => t,
            None => return None,
        };
        let ghost mid = self@;
        let ghost i = key_pos(old(self)@.tunnels, tunnel_id@).unwrap();
        assert(mid.tunnels == old(self)@.tunnels);
        let sel = TunnelSelector::Id(tunnel.info.tunnel_id.clone());
        let infos = self.close_tunnels(&sel, reason, now);
        proof {
            let s = mid.tunnels;
            let p = selects(sel);
            assert(p(s[i]));
            assert forall|k: int| 0 <= k < s.len() && k != i implies !p(#[trigger] s[k]) by {
                assert(s[k].key@ != s[i].key@);
            }
            lemma_filter_single(s, p, i);
            assert(tunnel_keys(s.filter(p)) =~= seq![tunnel.info.tunnel_id@]);
        }
        if infos.len() > 0 {
            Some(infos[0].clone())
        } else {
            None
        }
    }
}

/// Filtering keeps exactly the one element that passes.
pub proof fn lemma_filter_single<A>(s: Seq<A>, p: spec_fn(A) -> bool, i: int)
    requires
        0 <= i < s.len(),
        p(s[i]),
        forall|k: int| 0 <= k < s.len() && k != i ==> !p(#[trigger] s[k]),
    ensures
        s.filter(p) == seq![s[i]],
        s.filter(negate(p)) == s.remove(i),
    decreases s.len(),
{
    reveal(Seq::filter);
    let d = s.drop_last();
    if i == s.len() - 1 {
        lemma_filter_none(d, p);
        lemma_filter_all(d, negate(p));
        assert(d =~= s.remove(i));
    } else {
        lemma_filter_single(d, p, i);
        assert(d.remove(i).push(s.last()) =~= s.remove(i));
    }
}

pub proof fn lemma_filter_none<A>(s: Seq<A>, p: spec_fn(A) -> bool)
    requires
        forall|k: int| 0 <= k < s.len() ==> !p(#[trigger] s[k]),
    ensures
        s.filter(p) == Seq::<A>::empty(),
    decreases s.len(),
{
    reveal(Seq::filter);
    if s.len() > 0 {
        lemma_filter_none(s.drop_last(), p);
    }
}

pub proof fn lemma_filter_all<A>(s: Seq<A>, p: spec_fn(A) -> bool)
    requires
        forall|k: int| 0 <= k < s.len() ==> p(#[trigger] s[k]),
    ensures
        s.filter(p) == s,
    decreases s.len(),
{
    reveal(Seq::filter);
    if s.len() > 0 {
        lemma_filter_all(s.drop_last(), p);
        assert(s.drop_last().push(s.last()) =~= s);
    }
}


/// Why a stream cannot be opened through the tunnel right now, if it cannot.
/// The stream with `side`'s end finished at `now`.
pub open spec fn eof_marked(s0: TunnelStreamRoute, side: TunnelEndpointSide, now: u64) -> TunnelStreamRoute {
    TunnelStreamRoute {
        controller_eof: s0.controller_eof || side == TunnelEndpointSide::Controller,
        host_eof: s0.host_eof || side == TunnelEndpointSide::Host,
        last_activity: now,
        ..s0
    }
}

/// The state after `side` finished its end of stream `i`: once both ends
/// are finished the stream is closed, otherwise its tunnel is marked active.
pub open spec fn after_stream_eof(v: ServerView, i: int, tunnel_id: Seq<char>, side: TunnelEndpointSide, now: Clock) -> ServerView {
    let s1 = eof_marked(v.streams[i].value, side, now.ms);
    if s1.controller_eof && s1.host_eof {
        after_stream_closed(with_stream(v, i, s1), i, tunnel_id, now)
    } else {
        tunnel_touched(with_stream(v, i, s1), tunnel_id, now)
    }
}

/// Whether every tunnel can still count one more stream.
pub open spec fn stream_counters_have_room(v: ServerView) -> bool {
    forall|i: int| 0 <= i < v.tunnels.len() ==> #[trigger] v.tunnels[i].value.info.total_streams < u64::MAX
}

impl ServerState {
    /// Whether every tunnel can still count one more stream (as opening a
    /// stream needs).
    pub fn stream_counters_ok(&self) -> (r: bool)
        requires
            self.wf(),
        ensures
            r == stream_counters_have_room(self@),
    {
        let mut i: usize = 0;
        while i < self.tunnels.len()
            invariant
                i <= self@.tunnels.len(),
                forall|j: int| 0 <= j < i ==> #[trigger] self@.tunnels[j].value.info.total_streams < u64::MAX,
            decreases self@.tunnels.len() - i,
        {
            if self.tunnels[i].value.info.total_streams == u64::MAX {
                return false;
            }
            i = i + 1;
        }
        true
    }
}

pub open spec fn stream_refusal(v: ServerView, tunnel_id: Seq<char>, source_side: TunnelEndpointSide) -> Option<(ErrorCode, Seq<char>)> {
    match key_pos(v.tunnels, tunnel_id) {
        None => Some((ErrorCode::SessionExpired, "tunnel is not active"@)),
        Some(i) => {
            let t = v.tunnels[i].value;
            if t.info.status != TunnelStatus::Active {
                Some((ErrorCode::SessionExpired, "tunnel is not active"@))
            } else if t.info.active_streams >= MAX_STREAMS_PER_TUNNEL {
                Some((ErrorCode::PermissionDenied, "per-tunnel stream limit exceeded"@))
            } else if source_side == t.target_side {
                Some((ErrorCode::PermissionDenied, "tunnel stream opened from invalid side"@))
            } else {
                None
            }
        },
    }
}

/// Traffic from `from_side` counted against the tunnel (saturating), which is active since `now`.
pub open spec fn with_traffic(t: TunnelState, from_side: TunnelEndpointSide, bytes: usize, now: Clock) -> TunnelState {
    let from_listener = from_side == t.info.direction.spec_local_side();
    TunnelState {
        info: TunnelInfo {
            bytes_from_listener: if from_listener {
                if t.info.bytes_from_listener + bytes > u64::MAX { u64::MAX } else { (t.info.bytes_from_listener + bytes) as u64 }
            } else {
                t.info.bytes_from_listener
            },
            bytes_from_target: if from_listener {
                t.info.bytes_from_target
            } else {
                if t.info.bytes_from_target + bytes > u64::MAX { u64::MAX } else { (t.info.bytes_from_target + bytes) as u64 }
            },
            last_activity_at: now.text,
            ..t.info
        },
        last_activity: now.ms,
        ..t
    }
}

pub open spec fn traffic_in_tunnel(v: ServerView, tunnel_id: Seq<char>, from_side: TunnelEndpointSide, bytes: usize, now: Clock) -> ServerView {
    match key_pos(v.tunnels, tunnel_id) {
        Some(i) => with_tunnel(v, i, with_traffic(v.tunnels[i].value, from_side, bytes, now)),
        None => v,
    }
}

impl ServerState {
    /// Opens a stream through an active tunnel from the side that listens.
    pub fn add_tunnel_stream(
        &mut self,
        tunnel_id: &str,
        stream_id: String,
        source_side: TunnelEndpointSide,
        now: &Clock,
    ) -> (r: Result<TunnelStreamRoute, ErrorPayload>)
        requires
            old(self).wf(),
            forall|i: int| 0 <= i < old(self)@.tunnels.len() ==> #[trigger] old(self)@.tunnels[i].value.info.total_streams < u64::MAX,
        ensures
            final(self).wf(),
            match stream_refusal(old(self)@, tunnel_id@, source_side) {
                Some((code, message)) => (r matches Err(e) && e.code == code && e.message@ == message)
                    && final(self)@ == old(self)@,
                None => {
                    let i = key_pos(old(self)@.tunnels, tunnel_id@).unwrap();
                    let t = old(self)@.tunnels[i].value;
                    let route = opened_stream(t, now.ms);
                    &&& r == Ok::<TunnelStreamRoute, ErrorPayload>(route)
                    &&& final(self)@ == (ServerView {
                        streams: upsert_spec(old(self)@.streams, Entry { key: stream_id, value: route }),
                        ..with_tunnel(old(self)@, i, with_new_stream(t, *now))
                    })
                },
            },
    {
        let i = match find_key(&self.tunnels, tunnel_id) {
            Some(i) => i,
            None => return Err(ErrorPayload { code: ErrorCode::SessionExpired, message: owned("tunnel is not active") }),
        };
        if self.tunnels[i].value.info.status != TunnelStatus::Active {
            return Err(ErrorPayload { code: ErrorCode::SessionExpired, message: owned("tunnel is not active") });
        }
        if self.tunnels[i].value.info.active_streams >= MAX_STREAMS_PER_TUNNEL {
            return Err(
                ErrorPayload { code: ErrorCode::PermissionDenied, message: owned("per-tunnel stream limit exceeded") },
            );
        }
        if source_side == self.tunnels[i].value.target_side {
            return Err(
                ErrorPayload { code: ErrorCode::PermissionDenied, message: owned("tunnel stream opened from invalid side") },
            );
        }
        assert(self@.tunnels[i as int].value.info.total_streams < u64::MAX);
        let mut t = self.tunnels[i].value.clone();
        t.info.active_streams = t.info.active_streams + 1;
        t.info.total_streams = t.info.total_streams + 1;
        t.info.last_activity_at = now.text.clone();
        t.last_activity = now.ms;
        let route = TunnelStreamRoute {
            tunnel_id: t.info.tunnel_id.clone(),
            session_id: t.info.session_id.clone(),
            host_id: t.host_id.clone(),
            connection_id: t.connection_id.clone(),
            last_activity: now.ms,
            controller_eof: false,
            host_eof: false,
        };
        self.tunnels[i].value = t;
        assert(self@.tunnels =~= old(self)@.tunnels.update(
            i as int,
            Entry { key: old(self)@.tunnels[i as int].key, value: self@.tunnels[i as int].value },
        ));
        proof {
            lemma_tunnel_keys_kept(old(self)@.tunnels, self@.tunnels);
        }
        let r = route.clone();
        upsert(&mut self.tunnel_streams, stream_id, route);
        Ok(r)
    }

    /// The stream, if it belongs to this tunnel.
    pub fn tunnel_stream(&self, tunnel_id: &str, stream_id: &str) -> (r: Option<TunnelStreamRoute>)
        requires
            self.wf(),
        ensures
            match stream_of(self@, tunnel_id@, stream_id@) {
                Some(i) => r == Some(self@.streams[i].value),
                None => r is None,
            },
    {
        match find_key(&self.tunnel_streams, stream_id) {
            Some(i) => if str_eq(self.tunnel_streams[i].value.tunnel_id.as_str(), tunnel_id) {
                Some(self.tunnel_streams[i].value.clone())
            } else {
                None
            },
            None => None,
        }
    }

    /// Closes the stream, if it belongs to this tunnel: the tunnel has one
    /// stream fewer and the session is marked as seen.
    pub fn close_tunnel_stream(&mut self, tunnel_id: &str, stream_id: &str, now: &Clock) -> (r: Option<TunnelStreamRoute>)
        requires
            old(self).wf(),
        ensures
            final(self).wf(),
            match stream_of(old(self)@, tunnel_id@, stream_id@) {
                Some(i) => r == Some(old(self)@.streams[i].value) && final(self)@ == after_stream_closed(old(self)@, i, tunnel_id@, *now),
                None => r is None && final(self)@ == old(self)@,
            },
    {
        let i = match find_key(&self.tunnel_streams, stream_id) {
            Some(i) => i,
            None => return None,
        };
        if !str_eq(self.tunnel_streams[i].value.tunnel_id.as_str(), tunnel_id) {
            return None;
        }
        let e = remove_at(&mut self.tunnel_streams, i);
        match find_key(&self.tunnels, tunnel_id) {
            Some(k) => {
                let mut t = self.tunnels[k].value.clone();
                t.info.active_streams = if t.info.active_streams > 0 { t.info.active_streams - 1 } else { 0 };
                t.info.last_activity_at = now.text.clone();
                t.last_activity = now.ms;
                let ghost before = self@.tunnels;
                self.tunnels[k].value = t;
                assert(self@.tunnels =~= before.update(
                    k as int,
                    Entry { key: before[k as int].key, value: self@.tunnels[k as int].value },
                ));
                proof {
                    lemma_tunnel_keys_kept(before, self@.tunnels);
                }
            },
            None => {},
        }
        self.touch_session(e.value.session_id.as_str(), now);
        Some(e.value)
    }

    /// One side finished sending on the stream; once both have, the stream is
    /// closed. Returns the stream and whether it was closed.
    pub fn mark_tunnel_stream_eof(
        &mut self,
        tunnel_id: &str,
        stream_id: &str,
        side: TunnelEndpointSide,
        now: &Clock,
    ) -> (r: Option<(TunnelStreamRoute, bool)>)
        requires
            old(self).wf(),
        ensures
            final(self).wf(),
            match stream_of(old(self)@, tunnel_id@, stream_id@) {
                Some(i) => {
                    let s1 = eof_marked(old(self)@.streams[i].value, side, now.ms);
                    let done = s1.controller_eof && s1.host_eof;
                    &&& r == Some((s1, done))
                    &&& final(self)@ == after_stream_eof(old(self)@, i, tunnel_id@, side, *now)
                },
                None => r is None && final(self)@ == old(self)@,
            },
    {
        let i = match find_key(&self.tunnel_streams, stream_id) {
            Some(i) => i,
            None => return None,
        };
        if !str_eq(self.tunnel_streams[i].value.tunnel_id.as_str(), tunnel_id) {
            return None;
        }
        match side {
            TunnelEndpointSide::Controller => self.tunnel_streams[i].value.controller_eof = true,
            TunnelEndpointSide::Host => self.tunnel_streams[i].value.host_eof = true,
        }
        self.tunnel_streams[i].value.last_activity = now.ms;
        assert(self@.streams =~= old(self)@.streams.update(
            i as int,
            Entry { key: old(self)@.streams[i as int].key, value: self@.streams[i as int].value },
        ));
        proof {
            lemma_unique_same_keys(old(self)@.streams, self@.streams);
        }
        let route = self.tunnel_streams[i].value.clone();
        let done = route.controller_eof && route.host_eof;
        if done {
            proof {
                lemma_key_pos(self@.streams, i as int);
            }
            let _ = self.close_tunnel_stream(tunnel_id, stream_id, now);
        } else {
            match find_key(&self.tunnels, tunnel_id) {
                Some(k) => {
                    let mut t = self.tunnels[k].value.clone();
                    t.info.last_activity_at = now.text.clone();
                    t.last_activity = now.ms;
                    let ghost before = self@.tunnels;
                    self.tunnels[k].value = t;
                    assert(self@.tunnels =~= before.update(
                        k as int,
                        Entry { key: before[k as int].key, value: self@.tunnels[k as int].value },
                    ));
                    proof {
                        lemma_tunnel_keys_kept(before, self@.tunnels);
                    }
                },
                None => {},
            }
        }
        Some((route, done))
    }

    /// Counts traffic on the stream against its tunnel, if the stream belongs
    /// to this tunnel; the stream, tunnel and session are marked active.
    pub fn record_tunnel_bytes(
        &mut self,
        tunnel_id: &str,
        stream_id: &str,
        from_side: TunnelEndpointSide,
        bytes: usize,
        now: &Clock,
    ) -> (r: Option<TunnelStreamRoute>)
        requires
            old(self).wf(),
        ensures
            final(self).wf(),
            match stream_of(old(self)@, tunnel_id@, stream_id@) {
                Some(i) => {
                    let s1 = TunnelStreamRoute { last_activity: now.ms, ..old(self)@.streams[i].value };
                    &&& r == Some(s1)
                    &&& final(self)@ == touched(
                        traffic_in_tunnel(with_stream(old(self)@, i, s1), tunnel_id@, from_side, bytes, *now),
                        s1.session_id@,
                        now.ms,
                    )
                },
                None => r is None && final(self)@ == old(self)@,
            },
    {
        let i = match find_key(&self.tunnel_streams, stream_id) {
            Some(i) => i,
            None => return None,
        };
        if !str_eq(self.tunnel_streams[i].value.tunnel_id.as_str(), tunnel_id) {
            return None;
        }
        self.tunnel_streams[i].value.last_activity = now.ms;
        assert(self@.streams =~= old(self)@.streams.update(
            i as int,
            Entry { key: old(self)@.streams[i as int].key, value: self@.streams[i as int].value },
        ));
        proof {
            lemma_unique_same_keys(old(self)@.streams, self@.streams);
        }
        let route = self.tunnel_streams[i].value.clone();
        match find_key(&self.tunnels, tunnel_id) {
            Some(k) => {
                let mut t = self.tunnels[k].value.clone();
                let amount = bytes as u64;
                if from_side == t.info.direction.local_endpoint_side() {
                    t.info.bytes_from_listener = t.info.bytes_from_listener.saturating_add(amount);
                } else {
                    t.info.bytes_from_target = t.info.bytes_from_target.saturating_add(amount);
                }
                t.info.last_activity_at = now.text.clone();
                t.last_activity = now.ms;
                let ghost before = self@.tunnels;
                self.tunnels[k].value = t;
                assert(self@.tunnels =~= before.update(
                    k as int,
                    Entry { key: before[k as int].key, value: self@.tunnels[k as int].value },
                ));
                proof {
                    lemma_tunnel_keys_kept(before, self@.tunnels);
                }
            },
            None => {},
        }
        self.touch_session(route.session_id.as_str(), now);
        Some(route)
    }
}


/// Each rate-limit entry as its key and event times.
pub open spec fn rate_view(s: Seq<Entry<Vec<u64>>>) -> Seq<(Seq<char>, Seq<u64>)> {
    s.map_values(|e: Entry<Vec<u64>>| (e.key@, e.value@))
}

/// Events older than the window are dropped from the front.
pub open spec fn drop_expired(events: Seq<u64>, now: u64, window: u64) -> Seq<u64>
    decreases events.len(),
{
    if events.len() > 0 && elapsed(now, events[0]) > window {
        drop_expired(events.drop_first(), now, window)
    } else {
        events
    }
}

/// The events recorded under a key (none when the key is new).
pub open spec fn events_for(s: Seq<Entry<Vec<u64>>>, key: Seq<char>) -> Seq<u64> {
    match key_pos(s, key) {
        Some(i) => s[i].value@,
        None => Seq::empty(),
    }
}

/// Whether another event is allowed under `key` at `now`, and the key's events afterwards.
pub open spec fn rate_decision(s: Seq<Entry<Vec<u64>>>, key: Seq<char>, max_events: nat, window: u64, now: u64) -> (bool, Seq<u64>) {
    let pruned = drop_expired(events_for(s, key), now, window);
    if pruned.len() >= max_events {
        (false, pruned)
    } else {
        (true, pruned.push(now))
    }
}

/// The rate-limit table after recording the decision for `key`.
pub open spec fn rate_table_after(s: Seq<Entry<Vec<u64>>>, key: Seq<char>, events: Seq<u64>) -> Seq<(Seq<char>, Seq<u64>)> {
    match key_pos(s, key) {
        Some(i) => rate_view(s).update(i, (key, events)),
        None => rate_view(s).push((key, events)),
    }
}

/// Every entry keeps only its events within the window; emptied entries go.
pub open spec fn pruned_rates(v: Seq<(Seq<char>, Seq<u64>)>, now: u64, window: u64) -> Seq<(Seq<char>, Seq<u64>)> {
    v.map_values(|p: (Seq<char>, Seq<u64>)| (p.0, drop_expired(p.1, now, window))).filter(
        |p: (Seq<char>, Seq<u64>)| p.1.len() > 0,
    )
}

/// Drops expired events from the front of `events`.
fn drop_expired_events(events: &mut Vec<u64>, now: u64, window: u64)
    ensures
        final(events)@ == drop_expired(old(events)@, now, window),
{
    let ghost target = drop_expired(old(events)@, now, window);
    let mut k: usize = 0;
    assert(events@.skip(0) =~= events@);
    while k < events.len() && elapsed_ms(now, events[k]) > window
        invariant
            k <= events@.len(),
            events@ == old(events)@,
            drop_expired(events@.skip(k as int), now, window) == target,
        decreases events@.len() - k,
    {
        proof {
            let rest = events@.skip(k as int);
            assert(rest[0] == events@[k as int]);
            assert(rest.drop_first() =~= events@.skip(k + 1));
        }
        k = k + 1;
    }
    proof {
        if k < events@.len() {
            assert(events@.skip(k as int)[0] == events@[k as int]);
        }
    }
    let mut rest: Vec<u64> = Vec::new();
    let mut j: usize = k;
    while j < events.len()
        invariant
            k <= j <= events@.len(),
            events@ == old(events)@,
            rest@ == events@.subrange(k as int, j as int),
        decreases events@.len() - j,
    {
        rest.push(events[j]);
        j = j + 1;
        assert(rest@ =~= events@.subrange(k as int, j as int));
    }
    assert(rest@ =~= events@.skip(k as int));
    *events = rest;
}

fn clone_events(v: &Vec<u64>) -> (r: Vec<u64>)
    ensures
        r@ == v@,
{
    let mut r: Vec<u64> = Vec::new();
    let mut i: usize = 0;
    while i < v.len()
        invariant
            i <= v@.len(),
            r@ == v@.subrange(0, i as int),
        decreases v@.len() - i,
    {
        r.push(v[i]);
        i = i + 1;
        assert(r@ =~= v@.subrange(0, i as int));
    }
    assert(v@.subrange(0, v@.len() as int) =~= v@);
    r
}

/// Records an event under `key` at `now` if fewer than `max_events` happened
/// within the window; tells whether it was allowed.
fn allow_rate_limit(table: &mut Vec<Entry<Vec<u64>>>, key: &str, max_events: usize, window: u64, now: u64) -> (r: bool)
    requires
        unique_keys(old(table)@),
    ensures
        unique_keys(final(table)@),
        r == rate_decision(old(table)@, key@, max_events as nat, window, now).0,
        rate_view(final(table)@) == rate_table_after(old(table)@, key@, rate_decision(old(table)@, key@, max_events as nat, window, now).1),
{
    let mut events = match find_key(table, key) {
        Some(i) => clone_events(&table[i].value),
        None => Vec::new(),
    };
    drop_expired_events(&mut events, now, window);
    let allowed = events.len() < max_events;
    if allowed {
        events.push(now);
    }
    let ghost ev = events@;
    let ghost before = table@;
    let _ = upsert(table, owned(key), events);
    proof {
        match key_pos(before, key@) {
            Some(i) => {
                assert(rate_view(table@) =~= rate_view(before).update(i, (key@, ev)));
            },
            None => {
                assert(rate_view(table@) =~= rate_view(before).push((key@, ev)));
            },
        }
    }
    allowed
}

/// Keeps only events within the window and drops emptied entries.
fn prune_rate_limit_table(table: &mut Vec<Entry<Vec<u64>>>, now: u64, window: u64)
    requires
        unique_keys(old(table)@),
    ensures
        unique_keys(final(table)@),
        rate_view(final(table)@) == pruned_rates(rate_view(old(table)@), now, window),
{
    let ghost s = table@;
    let ghost mapped = rate_view(s).map_values(|p: (Seq<char>, Seq<u64>)| (p.0, drop_expired(p.1, now, window)));
    let ghost keep = |p: (Seq<char>, Seq<u64>)| p.1.len() > 0;
    let ghost ekeep = |e: Entry<Vec<u64>>| drop_expired(e.value@, now, window).len() > 0;
    let mut kept: Vec<Entry<Vec<u64>>> = Vec::new();
    let mut i: usize = 0;
    while i < table.len()
        invariant
            table@ == s,
            i <= s.len(),
            rate_view(kept@) == mapped.subrange(0, i as int).filter(keep),
            kept@.len() == s.subrange(0, i as int).filter(ekeep).len(),
            forall|m: int| 0 <= m < kept@.len() ==> #[trigger] kept@[m].key == s.subrange(0, i as int).filter(ekeep)[m].key,
            mapped == rate_view(s).map_values(|p: (Seq<char>, Seq<u64>)| (p.0, drop_expired(p.1, now, window))),
            keep == (|p: (Seq<char>, Seq<u64>)| p.1.len() > 0),
            ekeep == (|e: Entry<Vec<u64>>| drop_expired(e.value@, now, window).len() > 0),
        decreases s.len() - i,
    {
        proof {
            reveal(Seq::filter);
            assert(s.subrange(0, i + 1 as int).drop_last() =~= s.subrange(0, i as int));
            assert(mapped.subrange(0, i + 1 as int).drop_last() =~= mapped.subrange(0, i as int));
            assert(mapped[i as int] == (s[i as int].key@, drop_expired(s[i as int].value@, now, window)));
        }
        let mut events = clone_events(&table[i].value);
        drop_expired_events(&mut events, now, window);
        if events.len() > 0 {
            let ghost k0 = kept@;
            let ghost f0 = s.subrange(0, i as int).filter(ekeep);
            kept.push(Entry { key: table[i].key.clone(), value: events });
            assert(rate_view(kept@) =~= rate_view(k0).push(mapped[i as int]));
            assert forall|m: int| 0 <= m < kept@.len() implies #[trigger] kept@[m].key == f0.push(s[i as int])[m].key by {
                if m < k0.len() {
                    assert(kept@[m] == k0[m]);
                }
            }
        }
        i = i + 1;
    }
    assert(s.subrange(0, s.len() as int) =~= s);
    assert(mapped.subrange(0, s.len() as int) =~= mapped);
    proof {
        lemma_unique_filter(s, ekeep);
        let f = s.filter(ekeep);
        lemma_unique_same_keys(f, kept@);
    }
    *table = kept;
}

impl ServerState {
    /// Whether this host may register again now (at most
    /// `HOST_REGISTRATION_LIMIT` registrations per window).
    pub fn allow_host_registration(&mut self, host_id: &str, now: &Clock) -> (r: bool)
        requires
            old(self).wf(),
        ensures
            final(self).wf(),
            r == rate_decision(old(self)@.registrations, host_id@, HOST_REGISTRATION_LIMIT as nat, RATE_LIMIT_WINDOW_MS, now.ms).0,
            rate_view(final(self)@.registrations) == rate_table_after(
                old(self)@.registrations,
                host_id@,
                rate_decision(old(self)@.registrations, host_id@, HOST_REGISTRATION_LIMIT as nat, RATE_LIMIT_WINDOW_MS, now.ms).1,
            ),
            final(self)@ == (ServerView { registrations: final(self)@.registrations, ..old(self)@ }),
    {
        allow_rate_limit(&mut self.host_registrations, host_id, HOST_REGISTRATION_LIMIT, RATE_LIMIT_WINDOW_MS, now.ms)
    }

    /// Whether a controller may try to open a session on this machine now (at
    /// most `AUTH_ATTEMPT_LIMIT` attempts per window).
    pub fn allow_auth_attempt(&mut self, machine_id: &str, now: &Clock) -> (r: bool)
        requires
            old(self).wf(),
        ensures
            final(self).wf(),
            r == rate_decision(old(self)@.auth_attempts, machine_id@, AUTH_ATTEMPT_LIMIT as nat, RATE_LIMIT_WINDOW_MS, now.ms).0,
            rate_view(final(self)@.auth_attempts) == rate_table_after(
                old(self)@.auth_attempts,
                machine_id@,
                rate_decision(old(self)@.auth_attempts, machine_id@, AUTH_ATTEMPT_LIMIT as nat, RATE_LIMIT_WINDOW_MS, now.ms).1,
            ),
            final(self)@ == (ServerView { auth_attempts: final(self)@.auth_attempts, ..old(self)@ }),
    {
        allow_rate_limit(&mut self.auth_attempts, machine_id, AUTH_ATTEMPT_LIMIT, RATE_LIMIT_WINDOW_MS, now.ms)
    }
}

/// A rate limit never records more than its maximum: an allowed event leaves
/// at most `max_events` within the window, a refused one adds nothing.
pub proof fn lemma_rate_limit_bounded(s: Seq<Entry<Vec<u64>>>, key: Seq<char>, max_events: nat, window: u64, now: u64)
    ensures
        rate_decision(s, key, max_events, window, now).0 ==> rate_decision(s, key, max_events, window, now).1.len() <= max_events,
        !rate_decision(s, key, max_events, window, now).0 ==> rate_decision(s, key, max_events, window, now).1.len()
            <= events_for(s, key).len(),
{
    lemma_drop_expired_shrinks(events_for(s, key), now, window);
}

/// Events in time order are pruned to exactly those within the window: what
/// is kept is a suffix of the events, no kept event is more than `window`
/// ms older than `now`, and every dropped one is.
pub proof fn lemma_drop_expired_keeps_the_window(events: Seq<u64>, now: u64, window: u64)
    requires
        forall|i: int, j: int| 0 <= i <= j < events.len() ==> events[i] <= events[j],
    ensures
        drop_expired(events, now, window) == events.subrange(
            events.len() - drop_expired(events, now, window).len(),
            events.len() as int,
        ),
        forall|i: int|
            0 <= i < drop_expired(events, now, window).len() ==> #[trigger] drop_expired(events, now, window)[i] + window
                >= now,
        forall|i: int|
            0 <= i < events.len() - drop_expired(events, now, window).len() ==> #[trigger] events[i] + window < now,
    decreases events.len(),
{
    let d = drop_expired(events, now, window);
    if events.len() > 0 && now - events[0] > window {
        let t = events.drop_first();
        assert forall|i: int, j: int| 0 <= i <= j < t.len() implies t[i] <= t[j] by {
            assert(t[i] == events[i + 1] && t[j] == events[j + 1]);
        }
        lemma_drop_expired_keeps_the_window(t, now, window);
        lemma_drop_expired_shrinks(t, now, window);
        assert(elapsed(now, events[0]) > window);
        assert(d == drop_expired(t, now, window));
        assert(t.subrange(t.len() - d.len(), t.len() as int) =~= events.subrange(
            events.len() - d.len(),
            events.len() as int,
        ));
        assert forall|i: int| 0 <= i < events.len() - d.len() implies #[trigger] events[i] + window < now by {
            if i > 0 {
                assert(events[i] == t[i - 1]);
            }
        }
    } else {
        assert(events.subrange(0, events.len() as int) =~= events);
        assert forall|i: int| 0 <= i < d.len() implies #[trigger] d[i] + window >= now by {
            assert(events[0] <= events[i]);
        }
    }
}

/// While every recorded event of a key is within the window, another event
/// is allowed exactly when fewer than `max_events` are recorded, and an
/// allowed event is added after them.
pub proof fn lemma_rate_limit_counts_the_window(
    s: Seq<Entry<Vec<u64>>>,
    key: Seq<char>,
    max_events: nat,
    window: u64,
    now: u64,
)
    requires
        forall|i: int| 0 <= i < events_for(s, key).len() ==> #[trigger] events_for(s, key)[i] + window >= now,
    ensures
        rate_decision(s, key, max_events, window, now).0 == (events_for(s, key).len() < max_events),
        rate_decision(s, key, max_events, window, now).0 ==> rate_decision(s, key, max_events, window, now).1
            == events_for(s, key).push(now),
        !rate_decision(s, key, max_events, window, now).0 ==> rate_decision(s, key, max_events, window, now).1
            == events_for(s, key),
{
    let e = events_for(s, key);
    if e.len() > 0 {
        assert(e[0] + window >= now);
    }
}

/// Once every recorded event of a key is more than `window` ms old, the
/// next event is allowed and is all that stays recorded: a machine refused
/// for too many attempts may try again after the window has passed.
pub proof fn lemma_rate_limit_forgets_old_events(
    s: Seq<Entry<Vec<u64>>>,
    key: Seq<char>,
    max_events: nat,
    window: u64,
    now: u64,
)
    requires
        max_events > 0,
        forall|i: int| 0 <= i < events_for(s, key).len() ==> #[trigger] events_for(s, key)[i] + window < now,
    ensures
        rate_decision(s, key, max_events, window, now) == (true, seq![now]),
{
    lemma_drop_expired_forgets_all(events_for(s, key), now, window);
    assert(Seq::<u64>::empty().push(now) =~= seq![now]);
}

proof fn lemma_drop_expired_forgets_all(events: Seq<u64>, now: u64, window: u64)
    requires
        forall|i: int| 0 <= i < events.len() ==> #[trigger] events[i] + window < now,
    ensures
        drop_expired(events, now, window) == Seq::<u64>::empty(),
    decreases events.len(),
{
    if events.len() > 0 {
        let t = events.drop_first();
        assert forall|i: int| 0 <= i < t.len() implies #[trigger] t[i] + window < now by {
            assert(t[i] == events[i + 1]);
        }
        lemma_drop_expired_forgets_all(t, now, window);
    } else {
        assert(events =~= Seq::<u64>::empty());
    }
}

pub proof fn lemma_drop_expired_shrinks(events: Seq<u64>, now: u64, window: u64)
    ensures
        drop_expired(events, now, window).len() <= events.len(),
    decreases events.len(),
{
    if events.len() > 0 && elapsed(now, events[0]) > window {
        lemma_drop_expired_shrinks(events.drop_first(), now, window);
    }
}


/// The registries agree on every table but the rate limits.
pub open spec fn same_tables(a: ServerView, b: ServerView) -> bool {
    &&& a.hosts == b.hosts
    &&& a.sessions == b.sessions
    &&& a.pending == b.pending
    &&& a.routes == b.routes
    &&& a.jobs == b.jobs
    &&& a.tunnels == b.tunnels
    &&& a.streams == b.streams
}

/// The sessions that routes still point at.
pub open spec fn routed_sessions(routes: Seq<Entry<RequestRoute>>) -> Seq<Seq<char>> {
    routes.map_values(|e: Entry<RequestRoute>| e.value.session_id@)
}

/// A session idle past its time that no request still needs.
pub open spec fn stale_session(now: u64, active: Seq<Seq<char>>) -> spec_fn(Entry<SessionState>) -> bool {
    |e: Entry<SessionState>| elapsed(now, e.value.last_seen) > SESSION_IDLE_TTL_MS && !active.contains(e.value.session_id@)
}

pub open spec fn pending_fresh(now: u64) -> spec_fn(Entry<PendingOpen>) -> bool {
    |e: Entry<PendingOpen>| elapsed(now, e.value.created_at) <= PENDING_OPEN_TTL_MS
}

pub open spec fn route_fresh(now: u64, gone: Seq<Seq<char>>) -> spec_fn(Entry<RequestRoute>) -> bool {
    |e: Entry<RequestRoute>| elapsed(now, e.value.created_at) <= REQUEST_ROUTE_TTL_MS && !gone.contains(e.value.session_id@)
}

/// A running job whose route outlived its time fails with `error`.
pub open spec fn expire_job(e: Entry<CommandJob>, error: ErrorPayload, now: Clock) -> Entry<CommandJob> {
    if e.value.finished_at is None && elapsed(now.ms, e.value.created_at) > REQUEST_ROUTE_TTL_MS {
        Entry {
            key: e.key,
            value: CommandJob {
                snapshot: CommandStatusResultPayload {
                    status: CommandTaskStatus::Failed,
                    finished_at: Some(now.text),
                    error: Some(error),
                    ..e.value.snapshot
                },
                finished_at: Some(now.ms),
                ..e.value
            },
        }
    } else {
        e
    }
}

/// Finished jobs are kept for a while.
pub open spec fn job_kept(now: u64) -> spec_fn(Entry<CommandJob>) -> bool {
    |e: Entry<CommandJob>|
        match e.value.finished_at {
            Some(f) => elapsed(now, f) <= COMMAND_JOB_TTL_MS,
            None => true,
        }
}

pub open spec fn swept_jobs(s: Seq<Entry<CommandJob>>, error: ErrorPayload, now: Clock) -> Seq<Entry<CommandJob>> {
    Seq::new(s.len(), |i: int| expire_job(s[i], error, now)).filter(job_kept(now.ms))
}

/// The periodic sweep: stale sessions go (their tunnels close and their
/// running jobs fail with `expired`), then expired open requests and routes,
/// idle tunnels, old jobs (running ones past their route's time fail with
/// `timed_out`) and old rate-limit events.
pub open spec fn after_prune(v: ServerView, now: Clock, expired: ErrorPayload, timed_out: ErrorPayload) -> ServerView {
    let stale = stale_session(now.ms, routed_sessions(v.routes));
    let gone = session_ids_of(v.sessions.filter(stale));
    let v1 = ServerView { sessions: v.sessions.filter(negate(stale)), ..v };
    let v2 = if gone.len() > 0 {
        let t = after_close_tunnels(v1, of_sessions(gone));
        ServerView { jobs: fail_jobs_of(t.jobs, gone, expired, now), ..t }
    } else {
        v1
    };
    let v3 = ServerView {
        pending: v2.pending.filter(pending_fresh(now.ms)),
        routes: v2.routes.filter(route_fresh(now.ms, gone)),
        ..v2
    };
    let v4 = after_close_tunnels(v3, |e: Entry<TunnelState>| tunnel_idle(e.value, now.ms));
    ServerView { jobs: swept_jobs(v4.jobs, timed_out, now), ..v4 }
}

fn clone_job_entry(e: &Entry<CommandJob>) -> (r: Entry<CommandJob>)
    ensures
        r == *e,
{
    Entry {
        key: e.key.clone(),
        value: CommandJob {
            snapshot: e.value.snapshot.clone(),
            host_id: e.value.host_id.clone(),
            connection_id: e.value.connection_id.clone(),
            session_id: e.value.session_id.clone(),
            session_token: e.value.session_token.clone(),
            created_at: e.value.created_at,
            finished_at: e.value.finished_at,
        },
    }
}

impl ServerState {
    /// The periodic sweep at `now`; returns the sessions that expired.
    pub fn prune_stale(&mut self, now: &Clock) -> (r: Vec<SessionState>)
        requires
            old(self).wf(),
        ensures
            final(self).wf(),
            r@ == session_values(old(self)@.sessions.filter(stale_session(now.ms, routed_sessions(old(self)@.routes)))),
            exists|expired: ErrorPayload, timed_out: ErrorPayload|
                #![trigger after_prune(old(self)@, *now, expired, timed_out)]
                expired.code == ErrorCode::SessionExpired && expired.message@ == "session idle timeout"@
                    && timed_out.code == ErrorCode::RequestTimeout && timed_out.message@ == "exec job route expired"@
                    && same_tables(final(self)@, after_prune(old(self)@, *now, expired, timed_out)),
            rate_view(final(self)@.registrations) == pruned_rates(rate_view(old(self)@.registrations), now.ms, RATE_LIMIT_KEY_TTL_MS),
            rate_view(final(self)@.auth_attempts) == pruned_rates(rate_view(old(self)@.auth_attempts), now.ms, RATE_LIMIT_KEY_TTL_MS),
    {
        let ghost v0 = self@;
        // Which sessions do routes still point at?
        let mut active: Vec<String> = Vec::new();
        let mut i: usize = 0;
        while i < self.request_routes.len()
            invariant
                self@ == v0,
                i <= v0.routes.len(),
                texts(active@) == routed_sessions(v0.routes.subrange(0, i as int)),
            decreases v0.routes.len() - i,
        {
            let ghost a0 = active@;
            active.push(self.request_routes[i].value.session_id.clone());
            assert(texts(active@) =~= texts(a0).push(v0.routes[i as int].value.session_id@));
            assert(routed_sessions(v0.routes.subrange(0, i + 1 as int)) =~= routed_sessions(v0.routes.subrange(0, i as int)).push(
                v0.routes[i as int].value.session_id@,
            ));
            i = i + 1;
        }
        assert(v0.routes.subrange(0, v0.routes.len() as int) =~= v0.routes);
        // Stale sessions.
        let ghost s = self.sessions@;
        let ghost p = stale_session(now.ms, routed_sessions(v0.routes));
        let ghost q = negate(p);
        let mut removed: Vec<SessionState> = Vec::new();
        let mut ids: Vec<String> = Vec::new();
        let mut kept: Vec<Entry<SessionState>> = Vec::new();
        let mut i: usize = 0;
        while i < self.sessions.len()
            invariant
                self@ == v0,
                self.sessions@ == s,
                i <= s.len(),
                texts(active@) == routed_sessions(v0.routes),
                removed@ == session_values(s.subrange(0, i as int).filter(p)),
                texts(ids@) == session_ids_of(s.subrange(0, i as int).filter(p)),
                kept@ == s.subrange(0, i as int).filter(q),
                p == stale_session(now.ms, routed_sessions(v0.routes)),
                q == negate(p),
            decreases s.len() - i,
        {
            proof {
                reveal(Seq::filter);
                assert(s.subrange(0, i + 1 as int).drop_last() =~= s.subrange(0, i as int));
            }
            let e = clone_session_entry(&self.sessions[i]);
            let is_stale = elapsed_ms(now.ms, e.value.last_seen) > SESSION_IDLE_TTL_MS && !contains_text(
                &active,
                e.value.session_id.as_str(),
            );
            let ghost f0 = s.subrange(0, i as int).filter(p);
            if is_stale {
                let ghost ids0 = ids@;
                let ghost rem0 = removed@;
                ids.push(e.value.session_id.clone());
                removed.push(e.value.clone());
                assert(session_values(f0.push(e)) =~= session_values(f0).push(e.value));
                assert(session_ids_of(f0.push(e)) =~= session_ids_of(f0).push(e.value.session_id@));
                assert(texts(ids@) =~= texts(ids0).push(e.value.session_id@));
                assert(removed@ =~= rem0.push(e.value));
            } else {
                kept.push(e);
            }
            i = i + 1;
        }
        assert(s.subrange(0, s.len() as int) =~= s);
        proof {
            lemma_unique_filter(s, q);
        }
        self.sessions = kept;
        let expired = ErrorPayload { code: ErrorCode::SessionExpired, message: owned("session idle timeout") };
        if ids.len() > 0 {
            let sel = TunnelSelector::OfSessions(clone_texts(&ids));
            let _ = self.close_tunnels(&sel, &owned("session_idle_timeout"), now);
            self.fail_running_exec_jobs_for_sessions(&ids, &expired, now);
        }
        let ghost v2 = self@;
        // Expired open requests.
        let ghost ps = self.pending_open@;
        let ghost pp = pending_fresh(now.ms);
        let mut pkept: Vec<Entry<PendingOpen>> = Vec::new();
        let mut i: usize = 0;
        while i < self.pending_open.len()
            invariant
                self@ == v2,
                self.pending_open@ == ps,
                i <= ps.len(),
                pkept@ == ps.subrange(0, i as int).filter(pp),
                pp == pending_fresh(now.ms),
            decreases ps.len() - i,
        {
            proof {
                reveal(Seq::filter);
                assert(ps.subrange(0, i + 1 as int).drop_last() =~= ps.subrange(0, i as int));
            }
            if elapsed_ms(now.ms, self.pending_open[i].value.created_at) <= PENDING_OPEN_TTL_MS {
                pkept.push(Entry { key: self.pending_open[i].key.clone(), value: clone_pending(&self.pending_open[i].value) });
            }
            i = i + 1;
        }
        assert(ps.subrange(0, ps.len() as int) =~= ps);
        proof {
            lemma_unique_filter(ps, pp);
        }
        self.pending_open = pkept;
        // Expired routes and routes of removed sessions.
        let ghost rs = self.request_routes@;
        let ghost rp = route_fresh(now.ms, texts(ids@));
        let mut rkept: Vec<Entry<RequestRoute>> = Vec::new();
        let mut i: usize = 0;
        while i < self.request_routes.len()
            invariant
                self.request_routes@ == rs,
                i <= rs.len(),
                rkept@ == rs.subrange(0, i as int).filter(rp),
                rp == route_fresh(now.ms, texts(ids@)),
            decreases rs.len() - i,
        {
            proof {
                reveal(Seq::filter);
                assert(rs.subrange(0, i + 1 as int).drop_last() =~= rs.subrange(0, i as int));
            }
            if elapsed_ms(now.ms, self.request_routes[i].value.created_at) <= REQUEST_ROUTE_TTL_MS && !contains_text(
                &ids,
                self.request_routes[i].value.session_id.as_str(),
            ) {
                rkept.push(clone_route_entry(&self.request_routes[i]));
            }
            i = i + 1;
        }
        assert(rs.subrange(0, rs.len() as int) =~= rs);
        proof {
            lemma_unique_filter(rs, rp);
        }
        self.request_routes = rkept;
        // Idle tunnels.
        let idle = TunnelSelector::IdleAt(now.ms);
        assert(selects(idle) =~= (|e: Entry<TunnelState>| tunnel_idle(e.value, now.ms)));
        let _ = self.close_tunnels(&idle, &owned("idle_timeout"), now);
        // Old jobs.
        let timed_out = ErrorPayload { code: ErrorCode::RequestTimeout, message: owned("exec job route expired") };
        let ghost js = self.command_jobs@;
        let ghost jm = Seq::new(js.len(), |k: int| expire_job(js[k], timed_out, *now));
        let ghost jp = job_kept(now.ms);
        let mut jkept: Vec<Entry<CommandJob>> = Vec::new();
        let mut i: usize = 0;
        while i < self.command_jobs.len()
            invariant
                self.command_jobs@ == js,
                i <= js.len(),
                jkept@ == jm.subrange(0, i as int).filter(jp),
                jm == Seq::new(js.len(), |k: int| expire_job(js[k], timed_out, *now)),
                jp == job_kept(now.ms),
            decreases js.len() - i,
        {
            proof {
                reveal(Seq::filter);
                assert(jm.subrange(0, i + 1 as int).drop_last() =~= jm.subrange(0, i as int));
            }
            let mut e = clone_job_entry(&self.command_jobs[i]);
            if e.value.finished_at.is_none() && elapsed_ms(now.ms, e.value.created_at) > REQUEST_ROUTE_TTL_MS {
                e.value.snapshot.status = CommandTaskStatus::Failed;
                e.value.snapshot.finished_at = Some(now.text.clone());
                e.value.snapshot.error = Some(timed_out.clone());
                e.value.finished_at = Some(now.ms);
            }
            assert(e == jm[i as int]);
            let keep = match e.value.finished_at {
                Some(f) => elapsed_ms(now.ms, f) <= COMMAND_JOB_TTL_MS,
                None => true,
            };
            if keep {
                jkept.push(e);
            }
            i = i + 1;
        }
        assert(jm.subrange(0, jm.len() as int) =~= jm);
        proof {
            lemma_unique_same_keys(js, jm);
            lemma_unique_filter(jm, jp);
        }
        self.command_jobs = jkept;
        prune_rate_limit_table(&mut self.host_registrations, now.ms, RATE_LIMIT_KEY_TTL_MS);
        prune_rate_limit_table(&mut self.auth_attempts, now.ms, RATE_LIMIT_KEY_TTL_MS);
        proof {
            let a = after_prune(v0, *now, expired, timed_out);
            assert(texts(ids@) == session_ids_of(s.filter(p)));
            assert(self@.sessions == a.sessions);
            assert(self@.pending == a.pending);
            assert(self@.routes == a.routes);
            assert(self@.jobs == a.jobs);
            assert(self@.tunnels == a.tunnels);
            assert(self@.streams == a.streams);
            assert(same_tables(self@, a));
        }
        removed
    }
}


/// What is stored under a key is what a later lookup of that key finds.
pub proof fn lemma_upsert_then_lookup<T>(s: Seq<Entry<T>>, e: Entry<T>)
    requires
        unique_keys(s),
    ensures
        unique_keys(upsert_spec(s, e)),
        match key_pos(upsert_spec(s, e), e.key@) {
            Some(j) => upsert_spec(s, e)[j] == e,
            None => false,
        },
{
    let u = upsert_spec(s, e);
    match key_pos(s, e.key@) {
        Some(i) => {
            lemma_unique_same_keys(s, u);
            assert(u[i] == e);
            lemma_key_pos(u, i);
        },
        None => {
            lemma_unique_push(s, e);
            assert(u[s.len() as int] == e);
            lemma_key_pos(u, s.len() as int);
        },
    }
}

/// Once a host has re-registered on a new connection, the registration found
/// under its id is the new one, so dropping the old connection changes nothing.
pub proof fn lemma_reregistered_host_survives_stale_unregister(
    hosts: Seq<Entry<HostConn>>,
    host_id: String,
    machine_id: String,
    new_connection: String,
    tx: u64,
    period: u64,
    stale_connection: Seq<char>,
)
    requires
        unique_keys(hosts),
        stale_connection != new_connection@,
    ensures
        ({
            let e = Entry {
                key: host_id,
                value: HostConn { host_id, machine_id, connection_id: new_connection, tx, totp_period_seconds: period },
            };
            let u = upsert_spec(hosts, e);
            match key_pos(u, host_id@) {
                Some(j) => u[j].value.connection_id@ == new_connection@ && u[j].value.connection_id@ != stale_connection,
                None => false,
            }
        }),
{
    let e = Entry {
        key: host_id,
        value: HostConn { host_id, machine_id, connection_id: new_connection, tx, totp_period_seconds: period },
    };
    lemma_upsert_then_lookup(hosts, e);
}

/// Removing sessions leaves no route, tunnel or tunnel stream of theirs, and
/// none of their jobs running.
pub proof fn lemma_sessions_gone_leave_nothing(v: ServerView, ids: Seq<Seq<char>>, error: ErrorPayload, now: Clock)
    requires
        wf_server(v),
        forall|k: int| 0 <= k < v.streams.len() ==> exists|t: int|
            0 <= t < v.tunnels.len() && #[trigger] v.tunnels[t].key@ == (#[trigger] v.streams[k]).value.tunnel_id@
                && v.tunnels[t].value.info.session_id@ == v.streams[k].value.session_id@,
    ensures
        ({
            let a = after_sessions_gone(v, ids, error, now);
            &&& forall|k: int| 0 <= k < a.routes.len() ==> !ids.contains(#[trigger] a.routes[k].value.session_id@)
            &&& forall|k: int| 0 <= k < a.tunnels.len() ==> !ids.contains(#[trigger] a.tunnels[k].value.info.session_id@)
            &&& forall|k: int| 0 <= k < a.streams.len() ==> !ids.contains(#[trigger] a.streams[k].value.session_id@)
            &&& forall|k: int|
                0 <= k < a.jobs.len() && ids.contains(#[trigger] a.jobs[k].value.session_id@)
                    ==> a.jobs[k].value.snapshot.status != CommandTaskStatus::Running
        }),
{
    let v1 = ServerView { routes: v.routes.filter(route_outside(ids)), ..v };
    let p = of_sessions(ids);
    let a = after_sessions_gone(v, ids, error, now);
    assert forall|k: int| 0 <= k < a.routes.len() implies !ids.contains(#[trigger] a.routes[k].value.session_id@) by {
        lemma_filter_member(v.routes, route_outside(ids), k);
    }
    assert forall|k: int| 0 <= k < a.tunnels.len() implies !ids.contains(#[trigger] a.tunnels[k].value.info.session_id@) by {
        lemma_filter_member(v.tunnels, negate(p), k);
    }
    let removed_keys = tunnel_keys(v.tunnels.filter(p));
    assert forall|k: int| 0 <= k < a.streams.len() implies !ids.contains(#[trigger] a.streams[k].value.session_id@) by {
        lemma_filter_member(v.streams, stream_outside(removed_keys), k);
        let st = a.streams[k];
        let k0 = choose|k0: int| 0 <= k0 < v.streams.len() && v.streams[k0] == st;
        assert(v.streams[k0] == st);
        let t = choose|t: int|
            0 <= t < v.tunnels.len() && #[trigger] v.tunnels[t].key@ == (#[trigger] v.streams[k0]).value.tunnel_id@
                && v.tunnels[t].value.info.session_id@ == v.streams[k0].value.session_id@;
        if ids.contains(st.value.session_id@) {
            assert(p(v.tunnels[t]));
            v.tunnels.filter_lemma(p);
            assert(v.tunnels.filter(p).contains(v.tunnels[t]));
            let m = choose|m: int| 0 <= m < v.tunnels.filter(p).len() && v.tunnels.filter(p)[m] == v.tunnels[t];
            assert(removed_keys[m] == v.tunnels[t].key@);
            assert(removed_keys.contains(st.value.tunnel_id@));
            assert(false);
        }
    }
}

} // verus!

