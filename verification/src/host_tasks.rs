use vstd::prelude::*;
use crate::error::{error_text, RcwError};
use crate::host::{unsupported, HostContext};
use crate::host_audit::{CommandAuditDetails, HostAuditRecord};
use crate::host_state::{opt_chars, task_status_name, HostEvent, HostTaskStatus, HostTransferDirection};
use crate::protocol::{CommandCompletePayload, ErrorCode};
use crate::state_handle::{
    after_command_completed, after_command_started, after_transfer_completed, after_transfer_started,
    mentions_cancel, task_status_for_result,
};
use crate::text::{contains_seq, contains_str, occurs_at, owned, str_eq};

verus! {

/// Whether any cause of an error mentions `needle`.
pub open spec fn any_cause_mentions(causes: Seq<String>, needle: Seq<char>) -> bool {
    exists|i: int| 0 <= i < causes.len() && contains_seq(#[trigger] causes[i]@, needle)
}

/// A cause that means the command cannot run on this host.
pub open spec fn unsupported_cause(message: Seq<char>) -> bool {
    contains_seq(message, "only supported on Windows host builds"@) || contains_seq(message, "unsupported command"@)
        || contains_seq(message, "only png screenshots are supported"@)
}

/// The error code for a failed command, from the messages of its chain of
/// causes: a timeout, then a cancellation, then an unsupported operation;
/// anything else is a command failure.
pub open spec fn command_error_code(causes: Seq<String>) -> ErrorCode {
    if any_cause_mentions(causes, "command timed out"@) {
        ErrorCode::RequestTimeout
    } else if any_cause_mentions(causes, "command cancelled"@) {
        ErrorCode::Cancelled
    } else if exists|i: int| 0 <= i < causes.len() && unsupported_cause(#[trigger] causes[i]@) {
        ErrorCode::UnsupportedCommand
    } else {
        ErrorCode::CommandFailed
    }
}

fn any_mentions(causes: &Vec<String>, needle: &str) -> (r: bool)
    ensures
        r == any_cause_mentions(causes@, needle@),
{
    let mut i: usize = 0;
    while i < causes.len()
        invariant
            i <= causes@.len(),
            forall|j: int| 0 <= j < i ==> !contains_seq(#[trigger] causes@[j]@, needle@),
        decreases causes@.len() - i,
    {
        if contains_str(causes[i].as_str(), needle) {
            assert(contains_seq(causes@[i as int]@, needle@));
            return true;
        }
        i = i + 1;
    }
    false
}

pub fn error_code_for_command_error(causes: &Vec<String>) -> (r: ErrorCode)
    ensures
        r == command_error_code(causes@),
{
    if any_mentions(causes, "command timed out") {
        return ErrorCode::RequestTimeout;
    }
    if any_mentions(causes, "command cancelled") {
        return ErrorCode::Cancelled;
    }
    let mut i: usize = 0;
    while i < causes.len()
        invariant
            i <= causes@.len(),
            !any_cause_mentions(causes@, "command timed out"@),
            !any_cause_mentions(causes@, "command cancelled"@),
            forall|j: int| 0 <= j < i ==> !unsupported_cause(#[trigger] causes@[j]@),
        decreases causes@.len() - i,
    {
        let m = causes[i].as_str();
        if contains_str(m, "only supported on Windows host builds") || contains_str(m, "unsupported command")
            || contains_str(m, "only png screenshots are supported") {
            assert(unsupported_cause(causes@[i as int]@));
            return ErrorCode::UnsupportedCommand;
        }
        i = i + 1;
    }
    ErrorCode::CommandFailed
}

/// A screen capture refused on a build without Windows support is answered
/// with the unsupported-command code: when the refusal is the whole chain of
/// causes, and wherever it stands in a chain none of whose causes speaks of a
/// timeout or a cancellation.
pub proof fn lemma_refused_screenshot_is_unsupported(e: RcwError, cause: String)
    requires
        e@ == unsupported("screenshot is only supported on Windows host builds"@),
        cause@ == error_text(e@),
    ensures
        command_error_code(seq![cause]) == ErrorCode::UnsupportedCommand,
        forall|causes: Seq<String>|
            #![trigger command_error_code(causes), causes.contains(cause)]
            causes.contains(cause) && !any_cause_mentions(causes, "command timed out"@)
                && !any_cause_mentions(causes, "command cancelled"@)
                ==> command_error_code(causes) == ErrorCode::UnsupportedCommand,
{
    let msg = "screenshot is only supported on Windows host builds"@;
    let windows_only = "only supported on Windows host builds"@;
    reveal_strlit("screenshot is only supported on Windows host builds");
    reveal_strlit("only supported on Windows host builds");
    reveal_strlit("command timed out");
    reveal_strlit("command cancelled");
    assert(cause@ == msg);
    assert(msg.subrange(14, 51) =~= windows_only);
    assert(occurs_at(msg, windows_only, 14));
    assert(unsupported_cause(cause@));
    // Neither "command timed out" nor "command cancelled" can occur in the
    // refusal: both hold an 'm' as their third character, and it holds none.
    assert forall|j: int| 0 <= j < msg.len() implies msg[j] != 'm' by {}
    assert forall|needle: Seq<char>, at: int|
        needle.len() >= 3 && needle[2] == 'm' implies !occurs_at(msg, needle, at) by {
        if occurs_at(msg, needle, at) {
            assert(msg.subrange(at, at + needle.len())[2] == msg[at + 2]);
        }
    }
    let single = seq![cause];
    assert(single[0] == cause);
    assert(!contains_seq(msg, "command timed out"@));
    assert(!contains_seq(msg, "command cancelled"@));
    assert(!any_cause_mentions(single, "command timed out"@));
    assert(!any_cause_mentions(single, "command cancelled"@));
    assert forall|causes: Seq<String>|
        #![trigger command_error_code(causes), causes.contains(cause)]
        causes.contains(cause) && !any_cause_mentions(causes, "command timed out"@)
            && !any_cause_mentions(causes, "command cancelled"@)
            implies command_error_code(causes) == ErrorCode::UnsupportedCommand by {
        let i = choose|i: int| 0 <= i < causes.len() && causes[i] == cause;
        assert(unsupported_cause(causes[i]@));
    }
}

/// The name of an error code as it appears in audit records.
pub open spec fn error_code_name(code: ErrorCode) -> Seq<char> {
    match code {
        ErrorCode::InvalidToken => "InvalidToken"@,
        ErrorCode::HostNotFound => "HostNotFound"@,
        ErrorCode::HostBusy => "HostBusy"@,
        ErrorCode::InvalidTotp => "InvalidTotp"@,
        ErrorCode::InvalidTotpPeriod => "InvalidTotpPeriod"@,
        ErrorCode::SessionExpired => "SessionExpired"@,
        ErrorCode::HostDisconnected => "HostDisconnected"@,
        ErrorCode::RequestTimeout => "RequestTimeout"@,
        ErrorCode::CommandFailed => "CommandFailed"@,
        ErrorCode::UnsupportedCommand => "UnsupportedCommand"@,
        ErrorCode::InvalidPath => "InvalidPath"@,
        ErrorCode::ChecksumMismatch => "ChecksumMismatch"@,
        ErrorCode::PermissionDenied => "PermissionDenied"@,
        ErrorCode::Cancelled => "Cancelled"@,
        ErrorCode::InternalError => "InternalError"@,
    }
}

pub fn error_code_debug_name(code: ErrorCode) -> (r: &'static str)
    ensures
        r@ == error_code_name(code),
{
    match code {
        ErrorCode::InvalidToken => "InvalidToken",
        ErrorCode::HostNotFound => "HostNotFound",
        ErrorCode::HostBusy => "HostBusy",
        ErrorCode::InvalidTotp => "InvalidTotp",
        ErrorCode::InvalidTotpPeriod => "InvalidTotpPeriod",
        ErrorCode::SessionExpired => "SessionExpired",
        ErrorCode::HostDisconnected => "HostDisconnected",
        ErrorCode::RequestTimeout => "RequestTimeout",
        ErrorCode::CommandFailed => "CommandFailed",
        ErrorCode::UnsupportedCommand => "UnsupportedCommand",
        ErrorCode::InvalidPath => "InvalidPath",
        ErrorCode::ChecksumMismatch => "ChecksumMismatch",
        ErrorCode::PermissionDenied => "PermissionDenied",
        ErrorCode::Cancelled => "Cancelled",
        ErrorCode::InternalError => "InternalError",
    }
}

/// The result label a finished task is recorded with.
pub fn task_result_label(status: HostTaskStatus) -> (r: String)
    ensures
        r@ == task_status_name(status),
{
    owned(crate::host_state::task_status_str(status))
}

/// Whether a command runs as a cancellable background task (exec and
/// downloads) rather than inline.
pub fn runs_in_background(command: &str) -> (r: bool)
    ensures
        r == (command@ == "exec"@ || command@ == "download.begin"@),
{
    str_eq(command, "exec") || str_eq(command, "download.begin")
}

/// The audit record of a command that started.
pub open spec fn started_record_ok(
    r: HostAuditRecord,
    request_id: String,
    session_id: Option<String>,
    command: String,
    audit_label: Option<String>,
    details: CommandAuditDetails,
    started_at: String,
) -> bool {
    &&& r.event@ == "command.started"@
    &&& r.category == details.category
    &&& r.request_id == Some(request_id)
    &&& r.session_id == session_id
    &&& r.task_id == Some(request_id)
    &&& r.command == Some(command)
    &&& r.command_kind == Some(command)
    &&& r.audit_label == audit_label
    &&& opt_chars(r.result) == Some("started"@)
    &&& r.started_at == Some(started_at)
    &&& r.args_summary == details.args_summary
    &&& r.path_summary == details.path_summary
    &&& r.bytes == details.bytes
    &&& r.size == details.size
    &&& r.sha256 == details.sha256
}

/// How a finished task ended, and the error the controller is sent when it failed.
pub struct TaskOutcome {
    pub status: HostTaskStatus,
    pub event: HostEvent,
    pub record: HostAuditRecord,
    pub error: Option<(ErrorCode, String)>,
}

impl HostContext {
    /// A command began: downloads are recorded as transfers, everything else
    /// as commands; the start is audited.
    pub fn task_started(
        &mut self,
        request_id: String,
        session_id: Option<String>,
        command: String,
        audit_label: Option<String>,
        details: &CommandAuditDetails,
        started_at: String,
    ) -> (r: (HostEvent, HostAuditRecord))
        requires
            old(self).wf(),
        ensures
            final(self).wf(),
            final(self).state.model() == if command@ == "download.begin"@ {
                after_transfer_started(
                    old(self).state.model(),
                    r.0.time@,
                    request_id@,
                    opt_chars(session_id),
                    HostTransferDirection::Download,
                    None,
                )
            } else {
                after_command_started(old(self).state.model(), r.0.time@, request_id@, opt_chars(session_id), command@)
            },
            started_record_ok(r.1, request_id, session_id, command, audit_label, *details, started_at),
            final(self).totp_seed == old(self).totp_seed,
            final(self).totp_period_seconds == old(self).totp_period_seconds,
    {
        let event = if str_eq(command.as_str(), "download.begin") {
            self.state.record_transfer_started(
                request_id.clone(),
                crate::host_state::clone_opt(&session_id),
                HostTransferDirection::Download,
                None,
            )
        } else {
            self.state.record_command_started(
                request_id.clone(),
                crate::host_state::clone_opt(&session_id),
                command.clone(),
            )
        };
        let mut record = HostAuditRecord::new(details.category, "command.started");
        record.request_id = Some(request_id.clone());
        record.session_id = session_id;
        record.task_id = Some(request_id);
        record.command = Some(command.clone());
        record.command_kind = Some(command);
        record.audit_label = audit_label;
        record.result = Some(owned("started"));
        record.started_at = Some(started_at);
        record.args_summary = crate::host_state::clone_opt(&details.args_summary);
        record.path_summary = crate::host_state::clone_opt(&details.path_summary);
        record.bytes = details.bytes;
        record.size = details.size;
        record.sha256 = crate::host_state::clone_opt(&details.sha256);
        (event, record)
    }

    /// A command finished (`ok`, or failing with this chain of causes): its
    /// status is derived, recorded (downloads as transfers, with the size
    /// they reported), audited, and for a failure the error code and message
    /// for the controller are returned.
    pub fn task_completed(
        &mut self,
        request_id: String,
        session_id: Option<String>,
        command: String,
        audit_label: Option<String>,
        details: &CommandAuditDetails,
        ok: bool,
        causes: &Vec<String>,
        duration_ms: u64,
        finished_at: String,
        complete: Option<CommandCompletePayload>,
    ) -> (r: TaskOutcome)
        requires
            old(self).wf(),
            !ok ==> causes@.len() > 0,
        ensures
            final(self).wf(),
            r.status == (if ok {
                HostTaskStatus::Completed
            } else if mentions_cancel(causes@) {
                HostTaskStatus::Cancelled
            } else {
                HostTaskStatus::Failed
            }),
            final(self).state.model() == if command@ == "download.begin"@ {
                after_transfer_completed(
                    old(self).state.model(),
                    r.event.time@,
                    request_id@,
                    opt_chars(session_id),
                    r.status,
                    match complete {
                        Some(c) => c.size,
                        None => None,
                    },
                    task_status_name(r.status),
                )
            } else {
                after_command_completed(
                    old(self).state.model(),
                    r.event.time@,
                    request_id@,
                    opt_chars(session_id),
                    command@,
                    r.status,
                    duration_ms,
                    task_status_name(r.status),
                )
            },
            r.record.event@ == "command.complete"@,
            r.record.category == details.category,
            r.record.request_id == Some(request_id),
            r.record.task_id == Some(request_id),
            r.record.command == Some(command),
            opt_chars(r.record.result) == Some(if ok { "ok"@ } else { "failed"@ }),
            r.record.duration_ms == Some(duration_ms),
            r.record.finished_at == Some(finished_at),
            ok ==> r.error is None && r.record.error_code is None && r.record.error_message is None,
            !ok ==> (r.error matches Some((code, message)) && code == command_error_code(causes@) && message
                == causes@[0]) && opt_chars(r.record.error_code) == Some(error_code_name(command_error_code(causes@)))
                && r.record.error_message == Some(causes@[0]),
            final(self).totp_seed == old(self).totp_seed,
            final(self).totp_period_seconds == old(self).totp_period_seconds,
    {
        let status = task_status_for_result(ok, causes);
        let label = task_result_label(status);
        let event = if str_eq(command.as_str(), "download.begin") {
            let bytes = match &complete {
                Some(c) => c.size,
                None => None,
            };
            self.state.record_transfer_completed(
                request_id.clone(),
                crate::host_state::clone_opt(&session_id),
                status,
                bytes,
                label,
            )
        } else {
            self.state.record_command_completed(
                request_id.clone(),
                crate::host_state::clone_opt(&session_id),
                command.clone(),
                status,
                duration_ms,
                label,
            )
        };
        let mut record = HostAuditRecord::new(details.category, "command.complete");
        record.request_id = Some(request_id.clone());
        record.session_id = session_id;
        record.task_id = Some(request_id);
        record.command = Some(command.clone());
        record.command_kind = Some(command);
        record.audit_label = audit_label;
        record.result = Some(if ok { owned("ok") } else { owned("failed") });
        record.duration_ms = Some(duration_ms);
        record.finished_at = Some(finished_at);
        record.args_summary = crate::host_state::clone_opt(&details.args_summary);
        record.path_summary = crate::host_state::clone_opt(&details.path_summary);
        record.bytes = details.bytes;
        record.size = details.size;
        record.sha256 = crate::host_state::clone_opt(&details.sha256);
        let error = if ok {
            None
        } else {
            let code = error_code_for_command_error(causes);
            record.error_code = Some(owned(error_code_debug_name(code)));
            record.error_message = Some(causes[0].clone());
            Some((code, causes[0].clone()))
        };
        TaskOutcome { status, event, record, error }
    }
}


/// Screenshots are taken only as PNG.
pub fn check_screenshot_format(format: &str) -> (r: Result<(), String>)
    ensures
        format@ == crate::protocol::DEFAULT_SCREENSHOT_FORMAT@ ==> r is Ok,
        format@ != crate::protocol::DEFAULT_SCREENSHOT_FORMAT@ ==> (r matches Err(m) && m@ == "only png screenshots are supported"@),
{
    if str_eq(format, crate::protocol::DEFAULT_SCREENSHOT_FORMAT) {
        Ok(())
    } else {
        Err(owned("only png screenshots are supported"))
    }
}

/// The completion of a command line that ran to its end: successful exactly
/// when the process reported success, with its exit code when it had one.
pub fn exec_completion(success: bool, exit_code: Option<i32>, duration_ms: u64, program: &str) -> (r: CommandCompletePayload)
    ensures
        r.ok == success,
        r.exit_code == exit_code,
        r.duration_ms == duration_ms,
        r.size is None,
        r.sha256 is None,
        r.summary matches Some(x) && x@ == "program="@ + program@,
{
    CommandCompletePayload {
        ok: success,
        exit_code,
        duration_ms,
        size: None,
        sha256: None,
        summary: Some(crate::text::concat2("program=", program)),
    }
}

/// The completion of a download whose bytes were all sent: its size, its
/// digest and the file's name.
pub fn download_completion(size: u64, sha256: String, remote_path: &str) -> (r: CommandCompletePayload)
    ensures
        r.ok,
        r.exit_code == Some(0i32),
        r.duration_ms == 0,
        r.size == Some(size),
        r.sha256 == Some(sha256),
        r.summary matches Some(x) && x@ == "read "@ + ("basename="@ + crate::host_audit::path_basename_spec(remote_path@)),
{
    let summary = crate::host_audit::path_summary(remote_path);
    CommandCompletePayload {
        ok: true,
        exit_code: Some(0),
        duration_ms: 0,
        size: Some(size),
        sha256: Some(sha256),
        summary: Some(crate::text::concat2("read ", summary.as_str())),
    }
}

} // verus!
