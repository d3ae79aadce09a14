use vstd::prelude::*;
use crate::text::owned;

verus! {

/// Coarse grouping of audit events.
#[derive(Debug, Clone, Copy, PartialEq, Eq, Structural)]
pub enum AuditCategory {
    Host,
    Session,
    Exec,
    Transfer,
    Tunnel,
    Input,
    Error,
}

/// One line of the JSONL audit log.
#[derive(Debug, Clone)]
pub struct AuditEvent {
    pub time: String,
    pub side: String,
    pub event: String,
    pub category: Option<AuditCategory>,
    pub machine_id: Option<String>,
    pub host_id: Option<String>,
    pub session_id: Option<String>,
    pub request_id: Option<String>,
    pub task_id: Option<String>,
    pub command: Option<String>,
    pub command_kind: Option<String>,
    pub audit_label: Option<String>,
    pub controller_label: Option<String>,
    pub result: Option<String>,
    pub error_code: Option<String>,
    pub error_message: Option<String>,
    pub duration_ms: Option<u64>,
    pub bytes: Option<u64>,
    pub size: Option<u64>,
    pub sha256: Option<String>,
    pub started_at: Option<String>,
    pub finished_at: Option<String>,
    pub args_summary: Option<String>,
    pub path_summary: Option<String>,
    pub summary: Option<String>,
}

/// The current UTC time in RFC 3339 (`time::OffsetDateTime::now_utc` formatted
/// with `Rfc3339`), or the epoch when formatting fails. The value depends on
/// the clock, so nothing is stated of it.
#[verifier::external_body]
pub fn now_rfc3339() -> String {
    time::OffsetDateTime::now_utc()
        .format(&time::format_description::well_known::Rfc3339)
        .unwrap_or_else(|_| "1970-01-01T00:00:00Z".to_owned())
}

impl AuditEvent {
    /// An event of `side` named `event`, stamped with the current time, with
    /// every optional field absent.
    pub fn new(side: &str, event: &str) -> (r: AuditEvent)
        ensures
            r.side@ == side@,
            r.event@ == event@,
            r.category is None,
            r.machine_id is None,
            r.host_id is None,
            r.session_id is None,
            r.request_id is None,
            r.task_id is None,
            r.command is None,
            r.command_kind is None,
            r.audit_label is None,
            r.controller_label is None,
            r.result is None,
            r.error_code is None,
            r.error_message is None,
            r.duration_ms is None,
            r.bytes is None,
            r.size is None,
            r.sha256 is None,
            r.started_at is None,
            r.finished_at is None,
            r.args_summary is None,
            r.path_summary is None,
            r.summary is None,
    {
        AuditEvent {
            time: now_rfc3339(),
            side: owned(side),
            event: owned(event),
            category: None,
            machine_id: None,
            host_id: None,
            session_id: None,
            request_id: None,
            task_id: None,
            command: None,
            command_kind: None,
            audit_label: None,
            controller_label: None,
            result: None,
            error_code: None,
            error_message: None,
            duration_ms: None,
            bytes: None,
            size: None,
            sha256: None,
            started_at: None,
            finished_at: None,
            args_summary: None,
            path_summary: None,
            summary: None,
        }
    }
}

} // verus!
