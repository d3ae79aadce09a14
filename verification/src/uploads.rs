use vstd::prelude::*;
use crate::bytes::{decimal, push_decimal};
use crate::host_state::clone_opt;
use crate::protocol::{error_code_message, CommandCompletePayload, ErrorCode, UploadArgs};
use crate::server_state::{elapsed, elapsed_ms};
use crate::text::{concat2, is_blank, owned, str_eq, trim_seq};
use crate::transfer::{chunk_count, total_sequences_for_len};

verus! {

/// How long an upload may wait for its next chunk before it is dropped.
pub const UPLOAD_IDLE_TIMEOUT_MS: u64 = 300000;

/// An upload the host is receiving: what the controller announced, and how
/// far the chunks have come. Chunks are accepted strictly in sequence.
#[derive(Debug)]
pub struct UploadProgress {
    pub session_id: Option<String>,
    pub remote_path: String,
    pub overwrite: bool,
    pub size: u64,
    pub sha256: String,
    pub next_sequence: u32,
    pub total_sequences: u32,
    pub bytes_written: u64,
    pub last_activity: u64,
}

impl UploadProgress {
    /// The counters are consistent: no chunk past the last one was accepted,
    /// and each accepted chunk carried at most a `u32` length of bytes.
    pub open spec fn wf(&self) -> bool {
        &&& self.next_sequence <= self.total_sequences
        &&& self.bytes_written <= self.next_sequence as int * 0xFFFF_FFFF
    }

    /// Every expected chunk has arrived.
    pub open spec fn complete_spec(&self) -> bool {
        self.next_sequence == self.total_sequences
    }
}

/// Why an upload request is refused before any chunk arrives.
pub open spec fn upload_refusal(request_id: Option<String>, args: UploadArgs) -> Option<Seq<char>> {
    if request_id is None {
        Some("upload command missing request_id"@)
    } else if trim_seq(args.remote_path@).len() == 0 {
        Some("empty upload path"@)
    } else if chunk_count(args.size as nat) > u32::MAX {
        Some("too many chunks for u32 sequence count"@)
    } else {
        None
    }
}

/// Starts tracking an upload announced at `now`: it needs a request id, a
/// non-blank path, and a size whose chunks can be counted in a `u32`.
pub fn begin_upload(request_id: Option<String>, session_id: Option<String>, args: UploadArgs, now: u64) -> (r: Result<
    (String, UploadProgress),
    String,
>)
    ensures
        match upload_refusal(request_id, args) {
            Some(m) => r matches Err(e) && e@ == m,
            None => r matches Ok((id, p)) && {
                &&& request_id == Some(id)
                &&& p.wf()
                &&& p.session_id == session_id
                &&& p.remote_path == args.remote_path
                &&& p.overwrite == args.overwrite
                &&& p.size == args.size
                &&& p.sha256 == args.sha256
                &&& p.next_sequence == 0
                &&& p.total_sequences == chunk_count(args.size as nat)
                &&& p.bytes_written == 0
                &&& p.last_activity == now
            },
        },
{
    let id = match request_id {
        Some(id) => id,
        None => return Err(owned("upload command missing request_id")),
    };
    if is_blank(args.remote_path.as_str()) {
        return Err(owned("empty upload path"));
    }
    let total = match total_sequences_for_len(args.size) {
        Ok(t) => t,
        Err(_) => return Err(owned("too many chunks for u32 sequence count")),
    };
    Ok(
        (
            id,
            UploadProgress {
                session_id,
                remote_path: args.remote_path,
                overwrite: args.overwrite,
                size: args.size,
                sha256: args.sha256,
                next_sequence: 0,
                total_sequences: total,
                bytes_written: 0,
                last_activity: now,
            },
        ),
    )
}

/// Why a chunk is refused: it must belong to a transfer of the announced
/// length and be the next one expected.
pub open spec fn chunk_refusal(p: UploadProgress, sequence: u32, total: u32) -> Option<Seq<char>> {
    if total != p.total_sequences {
        Some(
            "upload chunk total sequence mismatch: expected "@ + decimal(p.total_sequences as nat) + ", got "@ + decimal(
                total as nat,
            ),
        )
    } else if sequence != p.next_sequence {
        Some(
            "upload chunk sequence mismatch: expected "@ + decimal(p.next_sequence as nat) + ", got "@ + decimal(
                sequence as nat,
            ),
        )
    } else {
        None
    }
}

fn mismatch_message(prefix: &str, expected: u32, got: u32) -> (r: String)
    ensures
        r@ == prefix@ + decimal(expected as nat) + ", got "@ + decimal(got as nat),
{
    let mut m = owned(prefix);
    push_decimal(&mut m, expected as u64);
    m.append(", got ");
    push_decimal(&mut m, got as u64);
    m
}

/// The error a controller is sent about an upload: the upload's session, a
/// code and a message.
#[derive(Debug)]
pub struct UploadError {
    pub session_id: Option<String>,
    pub code: ErrorCode,
    pub message: String,
}

impl UploadProgress {
    /// Checks a chunk before its bytes are written; a refused chunk ends the
    /// upload with an internal error naming the expected and received values.
    pub fn check_chunk(&self, sequence: u32, total: u32) -> (r: Result<(), UploadError>)
        ensures
            match chunk_refusal(*self, sequence, total) {
                Some(m) => r matches Err(e) && e.session_id == self.session_id && e.code == ErrorCode::InternalError && e.message@
                    == m,
                None => r is Ok,
            },
    {
        if total != self.total_sequences {
            return Err(
                UploadError {
                    session_id: clone_opt(&self.session_id),
                    code: ErrorCode::InternalError,
                    message: mismatch_message("upload chunk total sequence mismatch: expected ", self.total_sequences, total),
                },
            );
        }
        if sequence != self.next_sequence {
            return Err(
                UploadError {
                    session_id: clone_opt(&self.session_id),
                    code: ErrorCode::InternalError,
                    message: mismatch_message("upload chunk sequence mismatch: expected ", self.next_sequence, sequence),
                },
            );
        }
        Ok(())
    }

    /// Records a chunk of `payload_len` bytes that passed `check_chunk` and was
    /// written at `now`; returns whether the upload is now complete.
    pub fn record_chunk(&mut self, sequence: u32, total: u32, payload_len: u32, now: u64) -> (complete: bool)
        requires
            old(self).wf(),
            !old(self).complete_spec(),
            chunk_refusal(*old(self), sequence, total) is None,
        ensures
            final(self).wf(),
            *final(self) == (UploadProgress {
                next_sequence: (old(self).next_sequence + 1) as u32,
                bytes_written: (old(self).bytes_written + payload_len) as u64,
                last_activity: now,
                ..*old(self)
            }),
            complete == final(self).complete_spec(),
    {
        assert(self.bytes_written + payload_len <= (self.next_sequence + 1) * 0xFFFF_FFFF) by (nonlinear_arith)
            requires
                self.bytes_written <= self.next_sequence as int * 0xFFFF_FFFF,
                payload_len <= 0xFFFF_FFFFu32,
        ;
        assert((self.next_sequence + 1) * 0xFFFF_FFFF <= 0xFFFF_FFFF * 0xFFFF_FFFF) by (nonlinear_arith)
            requires
                self.next_sequence + 1 <= 0xFFFF_FFFF,
        ;
        self.next_sequence = self.next_sequence + 1;
        self.bytes_written = self.bytes_written + payload_len as u64;
        self.last_activity = now;
        self.next_sequence == self.total_sequences
    }

    /// Every expected chunk has arrived.
    pub fn is_complete(&self) -> (r: bool)
        ensures
            r == self.complete_spec(),
    {
        self.next_sequence == self.total_sequences
    }

    /// The upload belongs to this session (and is dropped when it closes).
    pub fn belongs_to(&self, session_id: &str) -> (r: bool)
        ensures
            r == (self.session_id matches Some(s) && s@ == session_id@),
    {
        match &self.session_id {
            Some(s) => str_eq(s.as_str(), session_id),
            None => false,
        }
    }

    /// No chunk has arrived for longer than the idle timeout.
    pub fn is_idle(&self, now: u64) -> (r: bool)
        ensures
            r == (elapsed(now, self.last_activity) > UPLOAD_IDLE_TIMEOUT_MS),
    {
        elapsed_ms(now, self.last_activity) > UPLOAD_IDLE_TIMEOUT_MS
    }
}

/// How a complete upload ends, given the SHA-256 (lower-case hex) of the
/// bytes written: the size must match, then the hash.
pub open spec fn upload_verdict(p: UploadProgress, actual_sha256: Seq<char>) -> Result<(), Seq<char>> {
    if p.bytes_written != p.size {
        Err("upload size mismatch"@)
    } else if actual_sha256 != p.sha256@ {
        Err(error_code_message(ErrorCode::ChecksumMismatch))
    } else {
        Ok(())
    }
}

/// Checks a complete upload against what was announced; on success, the
/// completion the controller is sent once the file is in place.
pub fn finish_upload(p: &UploadProgress, actual_sha256: String) -> (r: Result<CommandCompletePayload, UploadError>)
    ensures
        match upload_verdict(*p, actual_sha256@) {
            Err(m) => r matches Err(e) && e.session_id == p.session_id && e.code == ErrorCode::ChecksumMismatch && e.message@
                == m,
            Ok(()) => r matches Ok(c) && {
                &&& c.ok
                &&& c.exit_code == Some(0i32)
                &&& c.duration_ms == 0
                &&& c.size == Some(p.bytes_written)
                &&& c.sha256 == Some(actual_sha256)
                &&& c.summary matches Some(s) && s@ == "wrote "@ + p.remote_path@
            },
        },
{
    if p.bytes_written != p.size {
        return Err(
            UploadError {
                session_id: clone_opt(&p.session_id),
                code: ErrorCode::ChecksumMismatch,
                message: owned("upload size mismatch"),
            },
        );
    }
    if !str_eq(actual_sha256.as_str(), p.sha256.as_str()) {
        return Err(
            UploadError {
                session_id: clone_opt(&p.session_id),
                code: ErrorCode::ChecksumMismatch,
                message: owned(ErrorCode::ChecksumMismatch.message()),
            },
        );
    }
    let summary = concat2("wrote ", p.remote_path.as_str());
    Ok(
        CommandCompletePayload {
            ok: true,
            exit_code: Some(0),
            duration_ms: 0,
            size: Some(p.bytes_written),
            sha256: Some(actual_sha256),
            summary: Some(summary),
        },
    )
}

/// A chunk is accepted exactly when it is the next one expected of a
/// transfer of the announced length.
pub proof fn lemma_only_next_chunk_accepted(p: UploadProgress, sequence: u32, total: u32)
    ensures
        chunk_refusal(p, sequence, total) is None <==> (sequence == p.next_sequence && total == p.total_sequences),
{
}

} // verus!
