use vstd::prelude::*;
use vstd::utf8::encode_utf8;
use crate::audit::{AuditCategory, AuditEvent};
use crate::bytes::{decimal, push_decimal, push_signed_decimal, signed_decimal};
use crate::sorting::{sort_strings, sorted_lex, views};
use crate::protocol::{
    DownloadArgs, ExecArgs, KeyboardKeyArgs, KeyboardTypeArgs, MouseClickArgs, MouseMoveArgs,
    MouseScrollArgs, ScreenshotArgs, TunnelDirection, TunnelOpenPayload, UploadArgs,
    COMMAND_SCREENSHOT, COMMAND_WINDOWS, COMMAND_DOWNLOAD_BEGIN, COMMAND_EXEC,
    COMMAND_KEYBOARD_KEY, COMMAND_KEYBOARD_TYPE, COMMAND_MOUSE_CLICK, COMMAND_MOUSE_MOVE,
    COMMAND_MOUSE_SCROLL, COMMAND_UPLOAD_BEGIN,
};
use crate::text::{
    contains_str, ends_with_str, owned, starts_with_seq, starts_with_str, str_eq,
    append_chars, append_str_chars, ascii_lower, chars_contain, chars_eq, contains_seq,
    ends_with_seq, from_chars, is_whitespace, join, join_chars, lemma_strip_end_index,
    lemma_strip_start_index, lemma_strip_start_keeps, lemma_strip_end_keeps, occurs_at, slice_chars, split_whitespace, strip_end, strip_start, to_ascii_lower,
    to_chars, trim, trim_seq, words, is_ws, split_ws_from, lower_char,
};

verus! {

/// Longest audit text kept, in characters, before `...` is appended.
pub const MAX_AUDIT_TEXT_LEN: usize = 256;

pub open spec fn is_ascii_alnum(c: char) -> bool {
    ('0' <= c && c <= '9') || ('a' <= c && c <= 'z') || ('A' <= c && c <= 'Z')
}

/// Characters that may appear in a key name: ASCII letters, digits, `_`, `-`.
pub open spec fn is_key_char(c: char) -> bool {
    is_ascii_alnum(c) || c == '_' || c == '-'
}

/// `value` without leading and trailing non-key characters.
pub open spec fn trim_punctuation_spec(value: Seq<char>) -> Seq<char> {
    strip_end(strip_start(value, |c: char| !is_key_char(c)), |c: char| !is_key_char(c))
}

fn is_key_char_exec(c: char) -> (r: bool)
    ensures
        r == is_key_char(c),
{
    ('0' <= c && c <= '9') || ('a' <= c && c <= 'z') || ('A' <= c && c <= 'Z') || c == '_' || c
        == '-'
}

/// `value` without leading and trailing characters other than ASCII
/// letters, digits, `_` and `-`.
pub fn trim_punctuation(value: &Vec<char>) -> (r: Vec<char>)
    ensures
        r@ == trim_punctuation_spec(value@),
{
    let n = value.len();
    let mut i: usize = 0;
    while i < n && !is_key_char_exec(value[i])
        invariant
            n == value@.len(),
            i <= n,
            forall|j: int| 0 <= j < i ==> !is_key_char(#[trigger] value@[j]),
        decreases n - i,
    {
        i = i + 1;
    }
    proof {
        lemma_strip_start_index(value@, |c: char| !is_key_char(c), i as int);
    }
    let ghost mid = value@.subrange(i as int, n as int);
    let mut k: usize = n;
    while k > i && !is_key_char_exec(value[k - 1])
        invariant
            n == value@.len(),
            i <= k <= n,
            forall|j: int| k <= j < n ==> !is_key_char(#[trigger] value@[j]),
        decreases k,
    {
        k = k - 1;
    }
    proof {
        assert forall|j: int| (k - i) <= j < mid.len() implies !is_key_char(#[trigger] mid[j]) by {
            assert(mid[j] == value@[i + j]);
        }
        if k > i {
            assert(mid[k - i - 1] == value@[k - 1]);
        }
        lemma_strip_end_index(mid, |c: char| !is_key_char(c), k - i);
        assert(mid.subrange(0, k - i) =~= value@.subrange(i as int, k as int));
    }
    slice_chars(value, i, k)
}

/// A key name in canonical form: trimmed of punctuation, `-` turned into `_`,
/// lower-cased.
pub open spec fn normalize_key(key: Seq<char>) -> Seq<char> {
    ascii_lower(trim_punctuation_spec(key).map_values(|c: char| if c == '-' { '_' } else { c }))
}

/// Key names whose values must never reach the audit log.
pub open spec fn is_sensitive_key_spec(key: Seq<char>) -> bool {
    let n = normalize_key(key);
    n == "key"@ || ends_with_seq(n, "_key"@) || contains_seq(n, "token"@) || contains_seq(
        n,
        "password"@,
    ) || contains_seq(n, "passwd"@) || contains_seq(n, "secret"@)
}

fn dash_to_underscore(v: &Vec<char>) -> (r: Vec<char>)
    ensures
        r@ == v@.map_values(|c: char| if c == '-' { '_' } else { c }),
{
    let mut r: Vec<char> = Vec::new();
    let mut i: usize = 0;
    while i < v.len()
        invariant
            i <= v@.len(),
            r@ == v@.subrange(0, i as int).map_values(|c: char| if c == '-' { '_' } else { c }),
        decreases v@.len() - i,
    {
        let c = v[i];
        r.push(if c == '-' { '_' } else { c });
        i = i + 1;
        assert(r@ =~= v@.subrange(0, i as int).map_values(|c: char| if c == '-' { '_' } else { c }));
    }
    assert(v@.subrange(0, v@.len() as int) =~= v@);
    r
}

/// Whether `key` names a credential (token, password, secret, `*_key`, ...).
pub fn is_sensitive_key(key: &Vec<char>) -> (r: bool)
    ensures
        r == is_sensitive_key_spec(key@),
{
    let t = trim_punctuation(key);
    let d = dash_to_underscore(&t);
    let n = to_ascii_lower(&d);
    let s = from_chars(n.as_slice());
    crate::text::str_eq(s.as_str(), "key") || crate::text::ends_with_str(s.as_str(), "_key")
        || crate::text::contains_str(s.as_str(), "token") || crate::text::contains_str(
        s.as_str(),
        "password",
    ) || crate::text::contains_str(s.as_str(), "passwd") || crate::text::contains_str(
        s.as_str(),
        "secret",
    )
}

/// The part of `s` before the first `sep`, if `sep` occurs.
pub open spec fn before_first(s: Seq<char>, sep: char) -> Option<Seq<char>>
    decreases s.len(),
{
    if s.len() == 0 {
        None
    } else if s[0] == sep {
        Some(seq![])
    } else {
        match before_first(s.drop_first(), sep) {
            Some(rest) => Some(seq![s[0]] + rest),
            None => None,
        }
    }
}

proof fn lemma_before_first_index(s: Seq<char>, sep: char, i: int)
    requires
        0 <= i <= s.len(),
        forall|j: int| 0 <= j < i ==> #[trigger] s[j] != sep,
    ensures
        i < s.len() && s[i] == sep ==> before_first(s, sep) == Some(s.subrange(0, i)),
        i == s.len() ==> before_first(s, sep) is None,
    decreases i,
{
    if i > 0 {
        let t = s.drop_first();
        assert forall|j: int| 0 <= j < i - 1 implies #[trigger] t[j] != sep by {
            assert(t[j] == s[j + 1]);
        }
        lemma_before_first_index(t, sep, i - 1);
        if i < s.len() && s[i] == sep {
            assert(seq![s[0]] + t.subrange(0, i - 1) =~= s.subrange(0, i));
        }
    } else {
        assert(s.subrange(0, 0) =~= Seq::<char>::empty());
    }
}

fn split_before(s: &Vec<char>, sep: char) -> (r: Option<Vec<char>>)
    ensures
        match r {
            Some(k) => before_first(s@, sep) == Some(k@),
            None => before_first(s@, sep) is None,
        },
{
    let mut i: usize = 0;
    while i < s.len()
        invariant
            i <= s@.len(),
            forall|j: int| 0 <= j < i ==> #[trigger] s@[j] != sep,
        decreases s@.len() - i,
    {
        if s[i] == sep {
            proof {
                lemma_before_first_index(s@, sep, i as int);
            }
            return Some(slice_chars(s, 0, i));
        }
        i = i + 1;
    }
    proof {
        lemma_before_first_index(s@, sep, i as int);
    }
    None
}

/// A `key=value` or `key:value` token with its value hidden when the key is
/// sensitive; `=` is tried before `:`.
pub open spec fn redact_assignment_spec(token: Seq<char>) -> Seq<char> {
    if before_first(token, '=') is Some && is_sensitive_key_spec(
        trim_punctuation_spec(before_first(token, '=')->0),
    ) {
        before_first(token, '=')->0 + "=[redacted]"@
    } else if before_first(token, ':') is Some && is_sensitive_key_spec(
        trim_punctuation_spec(before_first(token, ':')->0),
    ) {
        before_first(token, ':')->0 + ":[redacted]"@
    } else {
        token
    }
}

/// Hides the value of a sensitive `key=value` or `key:value` token.
pub fn redact_assignment_token(token: &Vec<char>) -> (r: Vec<char>)
    ensures
        r@ == redact_assignment_spec(token@),
{
    if let Some(key) = split_before(token, '=') {
        if is_sensitive_key(&trim_punctuation(&key)) {
            let mut r = key;
            append_str_chars(&mut r, "=[redacted]");
            return r;
        }
    }
    if let Some(key) = split_before(token, ':') {
        if is_sensitive_key(&trim_punctuation(&key)) {
            let mut r = key;
            append_str_chars(&mut r, ":[redacted]");
            return r;
        }
    }
    slice_chars(token, 0, token.len())
}

/// The words of `value` joined by single spaces.
pub open spec fn compact_text_spec(value: Seq<char>) -> Seq<char> {
    join(words(value), " "@)
}

/// Collapses every run of whitespace (including line breaks and tabs) into
/// one space and drops leading and trailing whitespace.
pub fn compact_text(value: &Vec<char>) -> (r: Vec<char>)
    ensures
        r@ == compact_text_spec(value@),
{
    let ws = split_whitespace(value);
    join_chars(&ws, " ")
}

/// The first `max_chars` characters followed by `...`, when longer.
pub open spec fn truncate_chars_spec(value: Seq<char>, max_chars: nat) -> Seq<char> {
    if value.len() <= max_chars {
        value
    } else {
        value.subrange(0, max_chars as int) + "..."@
    }
}

/// Cuts `value` to `max_chars` characters, marking the cut with `...`.
pub fn truncate_chars(value: &Vec<char>, max_chars: usize) -> (r: Vec<char>)
    ensures
        r@ == truncate_chars_spec(value@, max_chars as nat),
{
    if value.len() <= max_chars {
        return slice_chars(value, 0, value.len());
    }
    let mut r = slice_chars(value, 0, max_chars);
    append_str_chars(&mut r, "...");
    r
}

/// Words after a `Bearer` word are hidden; other words have sensitive
/// assignments hidden.
pub open spec fn redact_words(ws: Seq<Seq<char>>, redact_next: bool) -> Seq<Seq<char>>
    decreases ws.len(),
{
    if ws.len() == 0 {
        seq![]
    } else if redact_next {
        seq!["[redacted]"@] + redact_words(ws.drop_first(), false)
    } else if ascii_lower(trim_punctuation_spec(ws[0])) == "bearer"@ {
        seq![ws[0]] + redact_words(ws.drop_first(), true)
    } else {
        seq![redact_assignment_spec(ws[0])] + redact_words(ws.drop_first(), false)
    }
}

/// Audit-safe text: whitespace compacted, credentials hidden, at most
/// [`MAX_AUDIT_TEXT_LEN`] characters (plus `...`).
pub open spec fn sanitize_spec(value: Seq<char>) -> Seq<char> {
    let compact = compact_text_spec(value);
    if compact.len() == 0 {
        compact
    } else {
        truncate_chars_spec(join(redact_words(words(compact), false), " "@), MAX_AUDIT_TEXT_LEN as nat)
    }
}

/// Makes free text safe for the audit log: whitespace is compacted, the word
/// after `Bearer` and the values of sensitive `key=value` / `key:value`
/// assignments become `[redacted]`, and the result is cut to 256 characters.
pub fn sanitize_chars(value: &Vec<char>) -> (r: Vec<char>)
    ensures
        r@ == sanitize_spec(value@),
{
    let compact = compact_text(value);
    if compact.len() == 0 {
        return compact;
    }
    let ws = split_whitespace(&compact);
    let ghost all = ws@.map_values(|w: Vec<char>| w@);
    let mut out: Vec<Vec<char>> = Vec::new();
    let mut redact_next = false;
    let mut i: usize = 0;
    assert(all.skip(0) =~= all);
    assert(out@.map_values(|w: Vec<char>| w@) =~= Seq::<Seq<char>>::empty());
    while i < ws.len()
        invariant
            i <= ws@.len(),
            all == ws@.map_values(|w: Vec<char>| w@),
            all == words(compact@),
            out@.map_values(|w: Vec<char>| w@) + redact_words(all.skip(i as int), redact_next)
                == redact_words(all, false),
        decreases ws@.len() - i,
    {
        let ghost prev = out@.map_values(|w: Vec<char>| w@);
        let ghost flag = redact_next;
        let ghost rest = all.skip(i as int);
        assert(rest.drop_first() =~= all.skip(i + 1));
        assert(rest[0] == ws@[i as int]@);
        assert(rest.len() > 0);
        if redact_next {
            let mut r: Vec<char> = Vec::new();
            append_str_chars(&mut r, "[redacted]");
            out.push(r);
            redact_next = false;
        } else {
            let lower = to_ascii_lower(&trim_punctuation(&ws[i]));
            if chars_eq(&lower, to_chars("bearer").as_slice()) {
                out.push(slice_chars(&ws[i], 0, ws[i].len()));
                redact_next = true;
            } else {
                out.push(redact_assignment_token(&ws[i]));
            }
        }
        proof {
            let now = out@.map_values(|w: Vec<char>| w@);
            assert(now =~= prev.push(now.last()));
            if flag {
                assert(now.last() == "[redacted]"@);
            } else if ascii_lower(trim_punctuation_spec(rest[0])) == "bearer"@ {
                assert(now.last() == rest[0]);
            } else {
                assert(now.last() == redact_assignment_spec(rest[0]));
            }
            assert(redact_words(rest, flag) == seq![now.last()] + redact_words(
                all.skip(i + 1),
                redact_next,
            ));
            assert(prev + redact_words(rest, flag) =~= now + redact_words(all.skip(i + 1), redact_next));
        }
        i = i + 1;
    }
    assert(all.skip(ws@.len() as int) =~= Seq::<Seq<char>>::empty());
    assert(out@.map_values(|w: Vec<char>| w@) =~= redact_words(all, false));
    let joined = join_chars(&out, " ");
    truncate_chars(&joined, MAX_AUDIT_TEXT_LEN)
}

} // verus!

verus! {

/// Audit-safe version of `value` (see [`sanitize_chars`]).
pub fn sanitize_audit_text(value: &str) -> (r: String)
    ensures
        r@ == sanitize_spec(value@),
{
    let v = to_chars(value);
    let s = sanitize_chars(&v);
    from_chars(s.as_slice())
}

pub open spec fn is_path_sep(c: char) -> bool {
    c == '/' || c == '\\'
}

/// The characters after the last `/` or `\` (all of `s` when there is none).
pub open spec fn last_segment(s: Seq<char>) -> Seq<char>
    decreases s.len(),
{
    if s.len() == 0 || is_path_sep(s.last()) {
        seq![]
    } else {
        last_segment(s.drop_last()).push(s.last())
    }
}

proof fn lemma_last_segment_index(s: Seq<char>, k: int)
    requires
        0 <= k <= s.len(),
        forall|j: int| k <= j < s.len() ==> !is_path_sep(#[trigger] s[j]),
        k == 0 || is_path_sep(s[k - 1]),
    ensures
        last_segment(s) == s.subrange(k, s.len() as int),
    decreases s.len() - k,
{
    if k == s.len() {
        assert(s.subrange(k, s.len() as int) =~= Seq::<char>::empty());
    } else {
        let t = s.drop_last();
        assert forall|j: int| k <= j < t.len() implies !is_path_sep(#[trigger] t[j]) by {
            assert(t[j] == s[j]);
        }
        lemma_last_segment_index(t, k);
        assert(t.subrange(k, t.len() as int).push(s.last()) =~= s.subrange(k, s.len() as int));
    }
}

/// The last component of a `/` or `\` separated path, `<root>` when there is
/// none, made audit-safe.
pub open spec fn path_basename_spec(path: Seq<char>) -> Seq<char> {
    let trimmed = strip_end(trim_seq(path), |c: char| is_path_sep(c));
    let base = last_segment(trimmed);
    sanitize_spec(if base.len() == 0 { "<root>"@ } else { base })
}

/// The file name of `path`, audit-safe.
pub fn path_basename(path: &str) -> (r: String)
    ensures
        r@ == path_basename_spec(path@),
{
    let t = trim(path);
    let v = to_chars(t.as_str());
    let n = v.len();
    let mut k: usize = n;
    while k > 0 && (v[k - 1] == '/' || v[k - 1] == '\\')
        invariant
            v@ == t@,
            n == v@.len(),
            k <= n,
            forall|j: int| k <= j < n ==> is_path_sep(#[trigger] v@[j]),
        decreases k,
    {
        k = k - 1;
    }
    proof {
        lemma_strip_end_index(t@, |c: char| is_path_sep(c), k as int);
    }
    let ghost trimmed = t@.subrange(0, k as int);
    let mut s: usize = k;
    while s > 0 && !(v[s - 1] == '/' || v[s - 1] == '\\')
        invariant
            v@ == t@,
            n == v@.len(),
            s <= k <= n,
            forall|j: int| s <= j < k ==> !is_path_sep(#[trigger] v@[j]),
        decreases s,
    {
        s = s - 1;
    }
    proof {
        assert forall|j: int| s <= j < trimmed.len() implies !is_path_sep(#[trigger] trimmed[j]) by {
            assert(trimmed[j] == v@[j]);
        }
        if s > 0 {
            assert(trimmed[s - 1] == v@[s - 1]);
        }
        lemma_last_segment_index(trimmed, s as int);
        assert(trimmed.subrange(s as int, k as int) =~= t@.subrange(s as int, k as int));
    }
    let base = slice_chars(&v, s, k);
    if base.len() == 0 {
        let root = to_chars("<root>");
        let r = sanitize_chars(&root);
        from_chars(r.as_slice())
    } else {
        let r = sanitize_chars(&base);
        from_chars(r.as_slice())
    }
}

/// `basename=<file name>`.
pub fn path_summary(path: &str) -> (r: String)
    ensures
        r@ == "basename="@ + path_basename_spec(path@),
{
    let mut r = "basename=".to_owned();
    let b = path_basename(path);
    r.append(b.as_str());
    r
}

} // verus!

verus! {

/// The category of a command's audit events.
pub open spec fn category_for_command_spec(command: Seq<char>) -> AuditCategory {
    if command == COMMAND_EXEC@ {
        AuditCategory::Exec
    } else if command == COMMAND_UPLOAD_BEGIN@ || command == COMMAND_DOWNLOAD_BEGIN@ {
        AuditCategory::Transfer
    } else if command == COMMAND_MOUSE_MOVE@ || command == COMMAND_MOUSE_CLICK@ || command
        == COMMAND_MOUSE_SCROLL@ || command == COMMAND_KEYBOARD_TYPE@ || command
        == COMMAND_KEYBOARD_KEY@ {
        AuditCategory::Input
    } else {
        AuditCategory::Host
    }
}

/// Exec for `exec`, Transfer for uploads and downloads, Input for mouse and
/// keyboard, Host otherwise.
pub fn category_for_command(command: &str) -> (r: AuditCategory)
    ensures
        r == category_for_command_spec(command@),
{
    if str_eq(command, COMMAND_EXEC) {
        AuditCategory::Exec
    } else if str_eq(command, COMMAND_UPLOAD_BEGIN) || str_eq(command, COMMAND_DOWNLOAD_BEGIN) {
        AuditCategory::Transfer
    } else if str_eq(command, COMMAND_MOUSE_MOVE) || str_eq(command, COMMAND_MOUSE_CLICK) || str_eq(
        command,
        COMMAND_MOUSE_SCROLL,
    ) || str_eq(command, COMMAND_KEYBOARD_TYPE) || str_eq(command, COMMAND_KEYBOARD_KEY) {
        AuditCategory::Input
    } else {
        AuditCategory::Host
    }
}

/// The category of an event that is not tied to a command.
pub open spec fn category_for_event_spec(event: Seq<char>) -> AuditCategory {
    if starts_with_seq(event, "session."@) {
        AuditCategory::Session
    } else if starts_with_seq(event, "tunnel."@) {
        AuditCategory::Tunnel
    } else if starts_with_seq(event, "command."@) {
        AuditCategory::Exec
    } else if contains_seq(event, "error"@) || ends_with_seq(event, ".failed"@) {
        AuditCategory::Error
    } else {
        AuditCategory::Host
    }
}

/// Session, Tunnel or Exec by the event's prefix, Error for error and failure
/// events, Host otherwise.
pub fn category_for_event(event: &str) -> (r: AuditCategory)
    ensures
        r == category_for_event_spec(event@),
{
    if starts_with_str(event, "session.") {
        AuditCategory::Session
    } else if starts_with_str(event, "tunnel.") {
        AuditCategory::Tunnel
    } else if starts_with_str(event, "command.") {
        AuditCategory::Exec
    } else if contains_str(event, "error") || ends_with_str(event, ".failed") {
        AuditCategory::Error
    } else {
        AuditCategory::Host
    }
}

/// What the audit log records about a command's arguments.
#[derive(Debug, Clone)]
pub struct CommandAuditDetails {
    pub category: AuditCategory,
    pub args_summary: Option<String>,
    pub path_summary: Option<String>,
    pub bytes: Option<u64>,
    pub size: Option<u64>,
    pub sha256: Option<String>,
}

impl CommandAuditDetails {
    pub fn new(category: AuditCategory) -> (r: CommandAuditDetails)
        ensures
            r.category == category,
            r.args_summary is None,
            r.path_summary is None,
            r.bytes is None,
            r.size is None,
            r.sha256 is None,
    {
        CommandAuditDetails {
            category,
            args_summary: None,
            path_summary: None,
            bytes: None,
            size: None,
            sha256: None,
        }
    }
}

pub open spec fn opt_text(o: Option<String>) -> Option<Seq<char>> {
    match o {
        Some(s) => Some(s@),
        None => None,
    }
}

pub open spec fn bool_text(b: bool) -> Seq<char> {
    if b { "true"@ } else { "false"@ }
}

fn push_bool(out: &mut String, b: bool)
    ensures
        final(out)@ == old(out)@ + bool_text(b),
{
    if b {
        out.append("true");
    } else {
        out.append("false");
    }
}

/// Upload details: overwrite flag and size, the file name only, size and hash.
pub fn upload_audit_details(args: &UploadArgs) -> (r: CommandAuditDetails)
    ensures
        r.category == AuditCategory::Transfer,
        opt_text(r.args_summary) == Some("overwrite="@ + bool_text(args.overwrite) + " size="@ + decimal(
            args.size as nat,
        )),
        opt_text(r.path_summary) == Some("basename="@ + path_basename_spec(args.remote_path@)),
        r.size == Some(args.size),
        opt_text(r.sha256) == Some(args.sha256@),
        r.bytes is None,
{
    let mut details = CommandAuditDetails::new(AuditCategory::Transfer);
    let mut summary = "overwrite=".to_owned();
    push_bool(&mut summary, args.overwrite);
    summary.append(" size=");
    push_decimal(&mut summary, args.size);
    details.args_summary = Some(summary);
    details.path_summary = Some(path_summary(args.remote_path.as_str()));
    details.size = Some(args.size);
    details.sha256 = Some(owned(args.sha256.as_str()));
    details
}

/// Download details: a fixed summary and the file name only.
pub fn download_audit_details(args: &DownloadArgs) -> (r: CommandAuditDetails)
    ensures
        r.category == AuditCategory::Transfer,
        opt_text(r.args_summary) == Some("read file"@),
        opt_text(r.path_summary) == Some("basename="@ + path_basename_spec(args.remote_path@)),
        r.size is None,
        r.sha256 is None,
        r.bytes is None,
{
    let mut details = CommandAuditDetails::new(AuditCategory::Transfer);
    details.args_summary = Some("read file".to_owned());
    details.path_summary = Some(path_summary(args.remote_path.as_str()));
    details
}

/// The audit summary of a tunnel request, with host names made audit-safe.
pub open spec fn tunnel_open_summary_spec(p: TunnelOpenPayload) -> Seq<char> {
    "direction="@ + (if p.direction == TunnelDirection::Local { "local"@ } else { "remote"@ })
        + " listen="@ + sanitize_spec(p.listen_addr@) + ":"@ + decimal(p.listen_port as nat)
        + " target="@ + sanitize_spec(p.target_host@) + ":"@ + decimal(p.target_port as nat)
        + " idle_timeout_ms="@ + decimal(p.idle_timeout_ms as nat)
}

pub fn tunnel_open_args_summary(payload: &TunnelOpenPayload) -> (r: String)
    ensures
        r@ == tunnel_open_summary_spec(*payload),
{
    let mut s = "direction=".to_owned();
    match payload.direction {
        TunnelDirection::Local => s.append("local"),
        TunnelDirection::Remote => s.append("remote"),
    }
    s.append(" listen=");
    s.append(sanitize_audit_text(payload.listen_addr.as_str()).as_str());
    s.append(":");
    push_decimal(&mut s, payload.listen_port as u64);
    s.append(" target=");
    s.append(sanitize_audit_text(payload.target_host.as_str()).as_str());
    s.append(":");
    push_decimal(&mut s, payload.target_port as u64);
    s.append(" idle_timeout_ms=");
    push_decimal(&mut s, payload.idle_timeout_ms);
    s
}

/// The audit-safe form of an optional text.
pub open spec fn sanitize_opt(o: Option<String>) -> Option<Seq<char>> {
    match o {
        Some(s) => Some(sanitize_spec(s@)),
        None => None,
    }
}

fn sanitize_option(o: Option<String>) -> (r: Option<String>)
    ensures
        opt_text(r) == sanitize_opt(o),
{
    match o {
        Some(s) => Some(sanitize_audit_text(s.as_str())),
        None => None,
    }
}

/// An audit record produced by the host before the host's identity is attached.
#[derive(Debug, Clone)]
pub struct HostAuditRecord {
    pub event: String,
    pub category: AuditCategory,
    pub request_id: Option<String>,
    pub session_id: Option<String>,
    pub task_id: Option<String>,
    pub command: Option<String>,
    pub command_kind: Option<String>,
    pub audit_label: Option<String>,
    pub controller_label: Option<String>,
    pub result: Option<String>,
    pub error_code: Option<String>,
    pub error_message: Option<String>,
    pub duration_ms: Option<u64>,
    pub bytes: Option<u64>,
    pub size: Option<u64>,
    pub sha256: Option<String>,
    pub started_at: Option<String>,
    pub finished_at: Option<String>,
    pub args_summary: Option<String>,
    pub path_summary: Option<String>,
    pub summary: Option<String>,
}

impl HostAuditRecord {
    pub fn new(category: AuditCategory, event: &str) -> (r: HostAuditRecord)
        ensures
            r.event@ == event@,
            r.category == category,
            r.request_id is None,
            r.session_id is None,
            r.task_id is None,
            r.command is None,
            r.command_kind is None,
            r.audit_label is None,
            r.controller_label is None,
            r.result is None,
            r.error_code is None,
            r.error_message is None,
            r.duration_ms is None,
            r.bytes is None,
            r.size is None,
            r.sha256 is None,
            r.started_at is None,
            r.finished_at is None,
            r.args_summary is None,
            r.path_summary is None,
            r.summary is None,
    {
        HostAuditRecord {
            event: owned(event),
            category,
            request_id: None,
            session_id: None,
            task_id: None,
            command: None,
            command_kind: None,
            audit_label: None,
            controller_label: None,
            result: None,
            error_code: None,
            error_message: None,
            duration_ms: None,
            bytes: None,
            size: None,
            sha256: None,
            started_at: None,
            finished_at: None,
            args_summary: None,
            path_summary: None,
            summary: None,
        }
    }

    /// The host-side audit event for this record: identity attached, every
    /// free-text field made audit-safe, identifiers and numbers kept as they are.
    pub fn into_audit_event(self, machine_id: String, host_id: String) -> (r: AuditEvent)
        ensures
            r.side@ == "host"@,
            r.event@ == self.event@,
            r.category == Some(self.category),
            opt_text(r.machine_id) == Some(machine_id@),
            opt_text(r.host_id) == Some(host_id@),
            r.request_id == self.request_id,
            r.session_id == self.session_id,
            r.task_id == self.task_id,
            r.command == self.command,
            r.command_kind == self.command_kind,
            opt_text(r.audit_label) == sanitize_opt(self.audit_label),
            opt_text(r.controller_label) == sanitize_opt(self.controller_label),
            opt_text(r.result) == sanitize_opt(self.result),
            opt_text(r.error_code) == sanitize_opt(self.error_code),
            opt_text(r.error_message) == sanitize_opt(self.error_message),
            r.duration_ms == self.duration_ms,
            r.bytes == self.bytes,
            r.size == self.size,
            opt_text(r.sha256) == sanitize_opt(self.sha256),
            r.started_at == self.started_at,
            r.finished_at == self.finished_at,
            opt_text(r.args_summary) == sanitize_opt(self.args_summary),
            opt_text(r.path_summary) == sanitize_opt(self.path_summary),
            opt_text(r.summary) == sanitize_opt(self.summary),
    {
        let mut audit = AuditEvent::new("host", self.event.as_str());
        audit.category = Some(self.category);
        audit.machine_id = Some(machine_id);
        audit.host_id = Some(host_id);
        audit.request_id = self.request_id;
        audit.session_id = self.session_id;
        audit.task_id = self.task_id;
        audit.command = self.command;
        audit.command_kind = self.command_kind;
        audit.audit_label = sanitize_option(self.audit_label);
        audit.controller_label = sanitize_option(self.controller_label);
        audit.result = sanitize_option(self.result);
        audit.error_code = sanitize_option(self.error_code);
        audit.error_message = sanitize_option(self.error_message);
        audit.duration_ms = self.duration_ms;
        audit.bytes = self.bytes;
        audit.size = self.size;
        audit.sha256 = sanitize_option(self.sha256);
        audit.started_at = self.started_at;
        audit.finished_at = self.finished_at;
        audit.args_summary = sanitize_option(self.args_summary);
        audit.path_summary = sanitize_option(self.path_summary);
        audit.summary = sanitize_option(self.summary);
        audit
    }
}

/// The record of a host event that names at most a request, a session, a
/// command and a result: filed under the command's category when there is a
/// command, else under the event's.
pub fn host_audit_record(
    event: &str,
    request_id: Option<String>,
    session_id: Option<String>,
    command: Option<String>,
    result: Option<&str>,
) -> (r: HostAuditRecord)
    ensures
        r.event@ == event@,
        r.category == (match command {
            Some(c) => category_for_command_spec(c@),
            None => category_for_event_spec(event@),
        }),
        r.request_id == request_id,
        r.session_id == session_id,
        r.command == command,
        r.command_kind == command,
        opt_text(r.result) == (match result {
            Some(x) => Some(x@),
            None => None::<Seq<char>>,
        }),
        r.task_id is None && r.audit_label is None && r.controller_label is None,
        r.error_code is None && r.error_message is None && r.duration_ms is None,
        r.bytes is None && r.size is None && r.sha256 is None && r.started_at is None,
        r.finished_at is None && r.args_summary is None && r.path_summary is None && r.summary is None,
{
    let category = match &command {
        Some(c) => category_for_command(c.as_str()),
        None => category_for_event(event),
    };
    let mut record = HostAuditRecord::new(category, event);
    record.request_id = request_id;
    record.session_id = session_id;
    record.command_kind = crate::host_state::clone_opt(&command);
    record.command = command;
    record.result = match result {
        Some(x) => Some(owned(x)),
        None => None,
    };
    record
}

} // verus!

verus! {

/// The JSON type of a value.
#[derive(Debug, Clone, Copy, PartialEq, Eq, Structural)]
pub enum JsonKind {
    Null,
    Bool,
    Number,
    String,
    Array,
    Object,
}

/// What the audit log may learn of an arbitrary JSON value: its type, the
/// length of a string (in characters) or array, and an object's keys with
/// the types of their values.
#[derive(Debug, Clone)]
pub enum JsonShape {
    Null,
    Bool,
    Number,
    String(usize),
    Array(usize),
    Object(Vec<(String, JsonKind)>),
}

pub open spec fn json_kind_name(kind: JsonKind) -> Seq<char> {
    match kind {
        JsonKind::Null => "null"@,
        JsonKind::Bool => "bool"@,
        JsonKind::Number => "number"@,
        JsonKind::String => "string"@,
        JsonKind::Array => "array"@,
        JsonKind::Object => "object"@,
    }
}

pub fn json_kind(kind: JsonKind) -> (r: &'static str)
    ensures
        r@ == json_kind_name(kind),
{
    match kind {
        JsonKind::Null => "null",
        JsonKind::Bool => "bool",
        JsonKind::Number => "number",
        JsonKind::String => "string",
        JsonKind::Array => "array",
        JsonKind::Object => "object",
    }
}

/// `key=<type>`, or `key=[redacted]` for a sensitive key.
pub open spec fn field_entry(key: Seq<char>, kind: JsonKind) -> Seq<char> {
    if is_sensitive_key_spec(key) {
        key + "=[redacted]"@
    } else {
        key + "="@ + json_kind_name(kind)
    }
}

pub open spec fn field_entries(fields: Seq<(String, JsonKind)>) -> Seq<Seq<char>> {
    fields.map_values(|f: (String, JsonKind)| field_entry(f.0@, f.1))
}

/// The summary of a JSON value's shape; an object's entries are listed in
/// lexicographic order, joined by `,`.
pub open spec fn shape_summary_ok(shape: JsonShape, summary: Seq<char>) -> bool {
    match shape {
        JsonShape::Null => summary == "null"@,
        JsonShape::Bool => summary == "bool"@,
        JsonShape::Number => summary == "number"@,
        JsonShape::String(n) => summary == "string_len="@ + decimal(n as nat),
        JsonShape::Array(n) => summary == "array_len="@ + decimal(n as nat),
        JsonShape::Object(fields) => exists|sorted: Seq<Seq<char>>|
            #![trigger join(sorted, ","@)]
            sorted_lex(sorted) && sorted.to_multiset() == field_entries(fields@).to_multiset()
                && summary == "fields="@ + join(sorted, ","@),
    }
}

/// Describes a JSON value without its contents.
pub fn json_shape_summary(shape: &JsonShape) -> (r: String)
    ensures
        shape_summary_ok(*shape, r@),
{
    match shape {
        JsonShape::Null => "null".to_owned(),
        JsonShape::Bool => "bool".to_owned(),
        JsonShape::Number => "number".to_owned(),
        JsonShape::String(n) => {
            let mut s = "string_len=".to_owned();
            push_decimal(&mut s, *n as u64);
            s
        },
        JsonShape::Array(n) => {
            let mut s = "array_len=".to_owned();
            push_decimal(&mut s, *n as u64);
            s
        },
        JsonShape::Object(fields) => {
            let mut entries: Vec<Vec<char>> = Vec::new();
            let mut i: usize = 0;
            while i < fields.len()
                invariant
                    i <= fields@.len(),
                    views(entries@) == field_entries(fields@).subrange(0, i as int),
                decreases fields@.len() - i,
            {
                let key = to_chars(fields[i].0.as_str());
                let mut e = slice_chars(&key, 0, key.len());
                if is_sensitive_key(&key) {
                    append_str_chars(&mut e, "=[redacted]");
                } else {
                    append_str_chars(&mut e, "=");
                    append_str_chars(&mut e, json_kind(fields[i].1));
                }
                assert(e@ == field_entry(fields@[i as int].0@, fields@[i as int].1));
                let ghost before = views(entries@);
                let ghost ev = e@;
                entries.push(e);
                assert(views(entries@) =~= before.push(ev));
                i = i + 1;
                assert(views(entries@) =~= field_entries(fields@).subrange(0, i as int));
            }
            assert(field_entries(fields@).subrange(0, fields@.len() as int) =~= field_entries(fields@));
            let sorted = sort_strings(entries);
            let joined = join_chars(&sorted, ",");
            let mut s = "fields=".to_owned();
            s.append(from_chars(joined.as_slice()).as_str());
            assert(shape_summary_ok(*shape, s@)) by {
                let w = views(sorted@);
                assert(join(w, ","@) == joined@);
            }
            s
        },
    }
}

/// The command names are pairwise distinct.
pub proof fn lemma_command_names_distinct()
    ensures
        COMMAND_EXEC@ != COMMAND_UPLOAD_BEGIN@,
        COMMAND_EXEC@ != COMMAND_DOWNLOAD_BEGIN@,
        COMMAND_EXEC@ != COMMAND_SCREENSHOT@,
        COMMAND_EXEC@ != COMMAND_WINDOWS@,
        COMMAND_EXEC@ != COMMAND_MOUSE_MOVE@,
        COMMAND_EXEC@ != COMMAND_MOUSE_CLICK@,
        COMMAND_EXEC@ != COMMAND_MOUSE_SCROLL@,
        COMMAND_EXEC@ != COMMAND_KEYBOARD_TYPE@,
        COMMAND_EXEC@ != COMMAND_KEYBOARD_KEY@,
        COMMAND_UPLOAD_BEGIN@ != COMMAND_DOWNLOAD_BEGIN@,
        COMMAND_UPLOAD_BEGIN@ != COMMAND_SCREENSHOT@,
        COMMAND_UPLOAD_BEGIN@ != COMMAND_WINDOWS@,
        COMMAND_UPLOAD_BEGIN@ != COMMAND_MOUSE_MOVE@,
        COMMAND_UPLOAD_BEGIN@ != COMMAND_MOUSE_CLICK@,
        COMMAND_UPLOAD_BEGIN@ != COMMAND_MOUSE_SCROLL@,
        COMMAND_UPLOAD_BEGIN@ != COMMAND_KEYBOARD_TYPE@,
        COMMAND_UPLOAD_BEGIN@ != COMMAND_KEYBOARD_KEY@,
        COMMAND_DOWNLOAD_BEGIN@ != COMMAND_SCREENSHOT@,
        COMMAND_DOWNLOAD_BEGIN@ != COMMAND_WINDOWS@,
        COMMAND_DOWNLOAD_BEGIN@ != COMMAND_MOUSE_MOVE@,
        COMMAND_DOWNLOAD_BEGIN@ != COMMAND_MOUSE_CLICK@,
        COMMAND_DOWNLOAD_BEGIN@ != COMMAND_MOUSE_SCROLL@,
        COMMAND_DOWNLOAD_BEGIN@ != COMMAND_KEYBOARD_TYPE@,
        COMMAND_DOWNLOAD_BEGIN@ != COMMAND_KEYBOARD_KEY@,
        COMMAND_SCREENSHOT@ != COMMAND_WINDOWS@,
        COMMAND_SCREENSHOT@ != COMMAND_MOUSE_MOVE@,
        COMMAND_SCREENSHOT@ != COMMAND_MOUSE_CLICK@,
        COMMAND_SCREENSHOT@ != COMMAND_MOUSE_SCROLL@,
        COMMAND_SCREENSHOT@ != COMMAND_KEYBOARD_TYPE@,
        COMMAND_SCREENSHOT@ != COMMAND_KEYBOARD_KEY@,
        COMMAND_WINDOWS@ != COMMAND_MOUSE_MOVE@,
        COMMAND_WINDOWS@ != COMMAND_MOUSE_CLICK@,
        COMMAND_WINDOWS@ != COMMAND_MOUSE_SCROLL@,
        COMMAND_WINDOWS@ != COMMAND_KEYBOARD_TYPE@,
        COMMAND_WINDOWS@ != COMMAND_KEYBOARD_KEY@,
        COMMAND_MOUSE_MOVE@ != COMMAND_MOUSE_CLICK@,
        COMMAND_MOUSE_MOVE@ != COMMAND_MOUSE_SCROLL@,
        COMMAND_MOUSE_MOVE@ != COMMAND_KEYBOARD_TYPE@,
        COMMAND_MOUSE_MOVE@ != COMMAND_KEYBOARD_KEY@,
        COMMAND_MOUSE_CLICK@ != COMMAND_MOUSE_SCROLL@,
        COMMAND_MOUSE_CLICK@ != COMMAND_KEYBOARD_TYPE@,
        COMMAND_MOUSE_CLICK@ != COMMAND_KEYBOARD_KEY@,
        COMMAND_MOUSE_SCROLL@ != COMMAND_KEYBOARD_TYPE@,
        COMMAND_MOUSE_SCROLL@ != COMMAND_KEYBOARD_KEY@,
        COMMAND_KEYBOARD_TYPE@ != COMMAND_KEYBOARD_KEY@,
{
    reveal_strlit("exec");
    reveal_strlit("upload.begin");
    reveal_strlit("download.begin");
    reveal_strlit("screenshot");
    reveal_strlit("windows");
    reveal_strlit("mouse.move");
    reveal_strlit("mouse.click");
    reveal_strlit("mouse.scroll");
    reveal_strlit("keyboard.type");
    reveal_strlit("keyboard.key");
    assert(COMMAND_EXEC@ != COMMAND_UPLOAD_BEGIN@) by { assert(COMMAND_EXEC@.len() != COMMAND_UPLOAD_BEGIN@.len()); }
    assert(COMMAND_EXEC@ != COMMAND_DOWNLOAD_BEGIN@) by { assert(COMMAND_EXEC@.len() != COMMAND_DOWNLOAD_BEGIN@.len()); }
    assert(COMMAND_EXEC@ != COMMAND_SCREENSHOT@) by { assert(COMMAND_EXEC@.len() != COMMAND_SCREENSHOT@.len()); }
    assert(COMMAND_EXEC@ != COMMAND_WINDOWS@) by { assert(COMMAND_EXEC@.len() != COMMAND_WINDOWS@.len()); }
    assert(COMMAND_EXEC@ != COMMAND_MOUSE_MOVE@) by { assert(COMMAND_EXEC@.len() != COMMAND_MOUSE_MOVE@.len()); }
    assert(COMMAND_EXEC@ != COMMAND_MOUSE_CLICK@) by { assert(COMMAND_EXEC@.len() != COMMAND_MOUSE_CLICK@.len()); }
    assert(COMMAND_EXEC@ != COMMAND_MOUSE_SCROLL@) by { assert(COMMAND_EXEC@.len() != COMMAND_MOUSE_SCROLL@.len()); }
    assert(COMMAND_EXEC@ != COMMAND_KEYBOARD_TYPE@) by { assert(COMMAND_EXEC@.len() != COMMAND_KEYBOARD_TYPE@.len()); }
    assert(COMMAND_EXEC@ != COMMAND_KEYBOARD_KEY@) by { assert(COMMAND_EXEC@.len() != COMMAND_KEYBOARD_KEY@.len()); }
    assert(COMMAND_UPLOAD_BEGIN@ != COMMAND_DOWNLOAD_BEGIN@) by { assert(COMMAND_UPLOAD_BEGIN@.len() != COMMAND_DOWNLOAD_BEGIN@.len()); }
    assert(COMMAND_UPLOAD_BEGIN@ != COMMAND_SCREENSHOT@) by { assert(COMMAND_UPLOAD_BEGIN@.len() != COMMAND_SCREENSHOT@.len()); }
    assert(COMMAND_UPLOAD_BEGIN@ != COMMAND_WINDOWS@) by { assert(COMMAND_UPLOAD_BEGIN@.len() != COMMAND_WINDOWS@.len()); }
    assert(COMMAND_UPLOAD_BEGIN@ != COMMAND_MOUSE_MOVE@) by { assert(COMMAND_UPLOAD_BEGIN@.len() != COMMAND_MOUSE_MOVE@.len()); }
    assert(COMMAND_UPLOAD_BEGIN@ != COMMAND_MOUSE_CLICK@) by { assert(COMMAND_UPLOAD_BEGIN@.len() != COMMAND_MOUSE_CLICK@.len()); }
    assert(COMMAND_UPLOAD_BEGIN@ != COMMAND_MOUSE_SCROLL@) by { assert(COMMAND_UPLOAD_BEGIN@[0] != COMMAND_MOUSE_SCROLL@[0]); }
    assert(COMMAND_UPLOAD_BEGIN@ != COMMAND_KEYBOARD_TYPE@) by { assert(COMMAND_UPLOAD_BEGIN@.len() != COMMAND_KEYBOARD_TYPE@.len()); }
    assert(COMMAND_UPLOAD_BEGIN@ != COMMAND_KEYBOARD_KEY@) by { assert(COMMAND_UPLOAD_BEGIN@[0] != COMMAND_KEYBOARD_KEY@[0]); }
    assert(COMMAND_DOWNLOAD_BEGIN@ != COMMAND_SCREENSHOT@) by { assert(COMMAND_DOWNLOAD_BEGIN@.len() != COMMAND_SCREENSHOT@.len()); }
    assert(COMMAND_DOWNLOAD_BEGIN@ != COMMAND_WINDOWS@) by { assert(COMMAND_DOWNLOAD_BEGIN@.len() != COMMAND_WINDOWS@.len()); }
    assert(COMMAND_DOWNLOAD_BEGIN@ != COMMAND_MOUSE_MOVE@) by { assert(COMMAND_DOWNLOAD_BEGIN@.len() != COMMAND_MOUSE_MOVE@.len()); }
    assert(COMMAND_DOWNLOAD_BEGIN@ != COMMAND_MOUSE_CLICK@) by { assert(COMMAND_DOWNLOAD_BEGIN@.len() != COMMAND_MOUSE_CLICK@.len()); }
    assert(COMMAND_DOWNLOAD_BEGIN@ != COMMAND_MOUSE_SCROLL@) by { assert(COMMAND_DOWNLOAD_BEGIN@.len() != COMMAND_MOUSE_SCROLL@.len()); }
    assert(COMMAND_DOWNLOAD_BEGIN@ != COMMAND_KEYBOARD_TYPE@) by { assert(COMMAND_DOWNLOAD_BEGIN@.len() != COMMAND_KEYBOARD_TYPE@.len()); }
    assert(COMMAND_DOWNLOAD_BEGIN@ != COMMAND_KEYBOARD_KEY@) by { assert(COMMAND_DOWNLOAD_BEGIN@.len() != COMMAND_KEYBOARD_KEY@.len()); }
    assert(COMMAND_SCREENSHOT@ != COMMAND_WINDOWS@) by { assert(COMMAND_SCREENSHOT@.len() != COMMAND_WINDOWS@.len()); }
    assert(COMMAND_SCREENSHOT@ != COMMAND_MOUSE_MOVE@) by { assert(COMMAND_SCREENSHOT@[0] != COMMAND_MOUSE_MOVE@[0]); }
    assert(COMMAND_SCREENSHOT@ != COMMAND_MOUSE_CLICK@) by { assert(COMMAND_SCREENSHOT@.len() != COMMAND_MOUSE_CLICK@.len()); }
    assert(COMMAND_SCREENSHOT@ != COMMAND_MOUSE_SCROLL@) by { assert(COMMAND_SCREENSHOT@.len() != COMMAND_MOUSE_SCROLL@.len()); }
    assert(COMMAND_SCREENSHOT@ != COMMAND_KEYBOARD_TYPE@) by { assert(COMMAND_SCREENSHOT@.len() != COMMAND_KEYBOARD_TYPE@.len()); }
    assert(COMMAND_SCREENSHOT@ != COMMAND_KEYBOARD_KEY@) by { assert(COMMAND_SCREENSHOT@.len() != COMMAND_KEYBOARD_KEY@.len()); }
    assert(COMMAND_WINDOWS@ != COMMAND_MOUSE_MOVE@) by { assert(COMMAND_WINDOWS@.len() != COMMAND_MOUSE_MOVE@.len()); }
    assert(COMMAND_WINDOWS@ != COMMAND_MOUSE_CLICK@) by { assert(COMMAND_WINDOWS@.len() != COMMAND_MOUSE_CLICK@.len()); }
    assert(COMMAND_WINDOWS@ != COMMAND_MOUSE_SCROLL@) by { assert(COMMAND_WINDOWS@.len() != COMMAND_MOUSE_SCROLL@.len()); }
    assert(COMMAND_WINDOWS@ != COMMAND_KEYBOARD_TYPE@) by { assert(COMMAND_WINDOWS@.len() != COMMAND_KEYBOARD_TYPE@.len()); }
    assert(COMMAND_WINDOWS@ != COMMAND_KEYBOARD_KEY@) by { assert(COMMAND_WINDOWS@.len() != COMMAND_KEYBOARD_KEY@.len()); }
    assert(COMMAND_MOUSE_MOVE@ != COMMAND_MOUSE_CLICK@) by { assert(COMMAND_MOUSE_MOVE@.len() != COMMAND_MOUSE_CLICK@.len()); }
    assert(COMMAND_MOUSE_MOVE@ != COMMAND_MOUSE_SCROLL@) by { assert(COMMAND_MOUSE_MOVE@.len() != COMMAND_MOUSE_SCROLL@.len()); }
    assert(COMMAND_MOUSE_MOVE@ != COMMAND_KEYBOARD_TYPE@) by { assert(COMMAND_MOUSE_MOVE@.len() != COMMAND_KEYBOARD_TYPE@.len()); }
    assert(COMMAND_MOUSE_MOVE@ != COMMAND_KEYBOARD_KEY@) by { assert(COMMAND_MOUSE_MOVE@.len() != COMMAND_KEYBOARD_KEY@.len()); }
    assert(COMMAND_MOUSE_CLICK@ != COMMAND_MOUSE_SCROLL@) by { assert(COMMAND_MOUSE_CLICK@.len() != COMMAND_MOUSE_SCROLL@.len()); }
    assert(COMMAND_MOUSE_CLICK@ != COMMAND_KEYBOARD_TYPE@) by { assert(COMMAND_MOUSE_CLICK@.len() != COMMAND_KEYBOARD_TYPE@.len()); }
    assert(COMMAND_MOUSE_CLICK@ != COMMAND_KEYBOARD_KEY@) by { assert(COMMAND_MOUSE_CLICK@.len() != COMMAND_KEYBOARD_KEY@.len()); }
    assert(COMMAND_MOUSE_SCROLL@ != COMMAND_KEYBOARD_TYPE@) by { assert(COMMAND_MOUSE_SCROLL@.len() != COMMAND_KEYBOARD_TYPE@.len()); }
    assert(COMMAND_MOUSE_SCROLL@ != COMMAND_KEYBOARD_KEY@) by { assert(COMMAND_MOUSE_SCROLL@[0] != COMMAND_KEYBOARD_KEY@[0]); }
    assert(COMMAND_KEYBOARD_TYPE@ != COMMAND_KEYBOARD_KEY@) by { assert(COMMAND_KEYBOARD_TYPE@.len() != COMMAND_KEYBOARD_KEY@.len()); }
}

/// A command's arguments, parsed according to the command's name where the
/// arguments have the expected form.
#[derive(Debug, Clone)]
pub enum CommandArgs {
    Exec(ExecArgs),
    Upload(UploadArgs),
    Download(DownloadArgs),
    Screenshot(ScreenshotArgs),
    MouseMove(MouseMoveArgs),
    MouseClick(MouseClickArgs),
    MouseScroll(MouseScrollArgs),
    KeyboardType(KeyboardTypeArgs),
    KeyboardKey(KeyboardKeyArgs),
    Unparsed,
}

/// Details for arguments that could not be parsed: the command's category and
/// the shape of the raw arguments.
pub open spec fn generic_details_ok(command: Seq<char>, shape: JsonShape, d: CommandAuditDetails) -> bool {
    &&& d.category == category_for_command_spec(command)
    &&& d.args_summary matches Some(s) && shape_summary_ok(shape, s@)
    &&& d.path_summary is None && d.bytes is None && d.size is None && d.sha256 is None
}

fn generic_command_details(command: &str, shape: &JsonShape) -> (r: CommandAuditDetails)
    ensures
        generic_details_ok(command@, *shape, r),
{
    let mut details = CommandAuditDetails::new(category_for_command(command));
    details.args_summary = Some(json_shape_summary(shape));
    details
}

/// Exec details: the program's file name and the number of arguments (never
/// their values), the timeout, and the working directory's file name.
pub open spec fn exec_details_ok(args: ExecArgs, d: CommandAuditDetails) -> bool {
    &&& d.category == AuditCategory::Exec
    &&& opt_text(d.args_summary) == Some(
        "program="@ + path_basename_spec(args.program@) + " argv_count="@ + decimal(args.argv@.len())
            + match args.timeout_ms {
            Some(t) => " timeout_ms="@ + decimal(t as nat),
            None => seq![],
        },
    )
    &&& opt_text(d.path_summary) == match args.cwd {
        Some(cwd) => Some("cwd_basename="@ + path_basename_spec(cwd@)),
        None => None,
    }
    &&& d.bytes is None && d.size is None && d.sha256 is None
}

fn summarize_exec_args(args: &ExecArgs) -> (r: CommandAuditDetails)
    ensures
        exec_details_ok(*args, r),
{
    let mut details = CommandAuditDetails::new(AuditCategory::Exec);
    let mut summary = "program=".to_owned();
    summary.append(path_basename(args.program.as_str()).as_str());
    summary.append(" argv_count=");
    push_decimal(&mut summary, args.argv.len() as u64);
    if let Some(timeout_ms) = args.timeout_ms {
        summary.append(" timeout_ms=");
        push_decimal(&mut summary, timeout_ms);
    }
    details.args_summary = Some(summary);
    let ghost summary_view = details.args_summary->0@;
    assert(summary_view == "program="@ + path_basename_spec(args.program@) + " argv_count="@ + decimal(
        args.argv@.len(),
    ) + match args.timeout_ms {
        Some(t) => " timeout_ms="@ + decimal(t as nat),
        None => seq![],
    });
    details.path_summary = match &args.cwd {
        Some(cwd) => {
            let mut p = "cwd_".to_owned();
            p.append(path_summary(cwd.as_str()).as_str());
            assert(p@ =~= "cwd_basename="@ + path_basename_spec(cwd@)) by {
                reveal_strlit("cwd_");
                reveal_strlit("basename=");
                reveal_strlit("cwd_basename=");
            }
            Some(p)
        },
        None => None,
    };
    details
}

/// Details with only a category and an argument summary.
pub open spec fn summary_details_ok(d: CommandAuditDetails, category: AuditCategory, summary: Seq<char>) -> bool {
    &&& d.category == category
    &&& opt_text(d.args_summary) == Some(summary)
    &&& d.path_summary is None && d.bytes is None && d.size is None && d.sha256 is None
}

/// The audit details of a command, computed from its parsed arguments.
pub open spec fn command_details_ok(
    command: Seq<char>,
    args: CommandArgs,
    shape: JsonShape,
    d: CommandAuditDetails,
) -> bool {
    if command == COMMAND_EXEC@ && args is Exec {
        exec_details_ok(args->Exec_0, d)
    } else if command == COMMAND_UPLOAD_BEGIN@ && args is Upload {
        let a = args->Upload_0;
        &&& d.category == AuditCategory::Transfer
        &&& opt_text(d.args_summary) == Some(
            "overwrite="@ + bool_text(a.overwrite) + " size="@ + decimal(a.size as nat),
        )
        &&& opt_text(d.path_summary) == Some("basename="@ + path_basename_spec(a.remote_path@))
        &&& d.size == Some(a.size) && opt_text(d.sha256) == Some(a.sha256@) && d.bytes is None
    } else if command == COMMAND_DOWNLOAD_BEGIN@ && args is Download {
        let a = args->Download_0;
        &&& d.category == AuditCategory::Transfer
        &&& opt_text(d.args_summary) == Some("read file"@)
        &&& opt_text(d.path_summary) == Some("basename="@ + path_basename_spec(a.remote_path@))
        &&& d.size is None && d.sha256 is None && d.bytes is None
    } else if command == COMMAND_SCREENSHOT@ && args is Screenshot {
        let a = args->Screenshot_0;
        summary_details_ok(d, AuditCategory::Host, "display="@ + match a.display {
            Some(n) => decimal(n as nat),
            None => "primary"@,
        } + " format="@ + a.format@)
    } else if command == COMMAND_MOUSE_MOVE@ && args is MouseMove {
        let a = args->MouseMove_0;
        summary_details_ok(d, AuditCategory::Input, "x="@ + signed_decimal(a.x as int) + " y="@
            + signed_decimal(a.y as int))
    } else if command == COMMAND_MOUSE_CLICK@ && args is MouseClick {
        let a = args->MouseClick_0;
        summary_details_ok(d, AuditCategory::Input, "x="@ + signed_decimal(a.x as int) + " y="@
            + signed_decimal(a.y as int) + " button="@ + a.button@)
    } else if command == COMMAND_MOUSE_SCROLL@ && args is MouseScroll {
        summary_details_ok(d, AuditCategory::Input, "delta="@ + signed_decimal(args->MouseScroll_0.delta as int))
    } else if command == COMMAND_KEYBOARD_TYPE@ && args is KeyboardType {
        let t = args->KeyboardType_0.text@;
        &&& d.category == AuditCategory::Input
        &&& opt_text(d.args_summary) == Some(
            "text_len="@ + decimal(t.len()) + " text_bytes="@ + decimal(
                (encode_utf8(t).len() as usize) as nat,
            ),
        )
        &&& d.bytes == Some((encode_utf8(t).len() as usize) as u64)
        &&& d.path_summary is None && d.size is None && d.sha256 is None
    } else if command == COMMAND_KEYBOARD_KEY@ && args is KeyboardKey {
        summary_details_ok(d, AuditCategory::Input, "key="@ + sanitize_spec(args->KeyboardKey_0.key@))
    } else if command == COMMAND_WINDOWS@ {
        summary_details_ok(d, AuditCategory::Host, "no_args"@)
    } else {
        generic_details_ok(command, shape, d)
    }
}

/// What the audit log records about a command's arguments: a per-command
/// summary that never includes argument values that could carry secrets
/// (exec arguments, typed text), or, for arguments of an unexpected form,
/// only their JSON shape.
pub fn command_audit_details(command: &str, args: &CommandArgs, shape: &JsonShape) -> (r: CommandAuditDetails)
    ensures
        command_details_ok(command@, *args, *shape, r),
{
    proof {
        lemma_command_names_distinct();
    }
    if str_eq(command, COMMAND_EXEC) {
        if let CommandArgs::Exec(a) = args {
            return summarize_exec_args(a);
        }
    } else if str_eq(command, COMMAND_UPLOAD_BEGIN) {
        if let CommandArgs::Upload(a) = args {
            return upload_audit_details(a);
        }
    } else if str_eq(command, COMMAND_DOWNLOAD_BEGIN) {
        if let CommandArgs::Download(a) = args {
            return download_audit_details(a);
        }
    } else if str_eq(command, COMMAND_SCREENSHOT) {
        if let CommandArgs::Screenshot(a) = args {
            let mut details = CommandAuditDetails::new(AuditCategory::Host);
            let mut s = "display=".to_owned();
            match a.display {
                Some(n) => push_decimal(&mut s, n as u64),
                None => s.append("primary"),
            }
            s.append(" format=");
            s.append(a.format.as_str());
            details.args_summary = Some(s);
            return details;
        }
    } else if str_eq(command, COMMAND_MOUSE_MOVE) {
        if let CommandArgs::MouseMove(a) = args {
            let mut details = CommandAuditDetails::new(AuditCategory::Input);
            let mut s = "x=".to_owned();
            push_signed_decimal(&mut s, a.x as i64);
            s.append(" y=");
            push_signed_decimal(&mut s, a.y as i64);
            details.args_summary = Some(s);
            return details;
        }
    } else if str_eq(command, COMMAND_MOUSE_CLICK) {
        if let CommandArgs::MouseClick(a) = args {
            let mut details = CommandAuditDetails::new(AuditCategory::Input);
            let mut s = "x=".to_owned();
            push_signed_decimal(&mut s, a.x as i64);
            s.append(" y=");
            push_signed_decimal(&mut s, a.y as i64);
            s.append(" button=");
            s.append(a.button.as_str());
            details.args_summary = Some(s);
            return details;
        }
    } else if str_eq(command, COMMAND_MOUSE_SCROLL) {
        if let CommandArgs::MouseScroll(a) = args {
            let mut details = CommandAuditDetails::new(AuditCategory::Input);
            let mut s = "delta=".to_owned();
            push_signed_decimal(&mut s, a.delta as i64);
            details.args_summary = Some(s);
            return details;
        }
    } else if str_eq(command, COMMAND_KEYBOARD_TYPE) {
        if let CommandArgs::KeyboardType(a) = args {
            let mut details = CommandAuditDetails::new(AuditCategory::Input);
            let chars = a.text.as_str().unicode_len();
            let bytes = a.text.as_str().len();
            let mut s = "text_len=".to_owned();
            push_decimal(&mut s, chars as u64);
            s.append(" text_bytes=");
            push_decimal(&mut s, bytes as u64);
            details.args_summary = Some(s);
            details.bytes = Some(bytes as u64);
            return details;
        }
    } else if str_eq(command, COMMAND_KEYBOARD_KEY) {
        if let CommandArgs::KeyboardKey(a) = args {
            let mut details = CommandAuditDetails::new(AuditCategory::Input);
            let mut s = "key=".to_owned();
            s.append(sanitize_audit_text(a.key.as_str()).as_str());
            details.args_summary = Some(s);
            return details;
        }
    } else if str_eq(command, COMMAND_WINDOWS) {
        let mut details = CommandAuditDetails::new(AuditCategory::Host);
        details.args_summary = Some("no_args".to_owned());
        return details;
    }
    generic_command_details(command, shape)
}


/// What the audit log records of typed text depends only on how long the
/// text is: two texts of the same length in characters and in UTF-8 bytes
/// are recorded alike.
pub proof fn lemma_typed_text_is_not_logged(
    a1: KeyboardTypeArgs,
    a2: KeyboardTypeArgs,
    shape1: JsonShape,
    shape2: JsonShape,
    d1: CommandAuditDetails,
    d2: CommandAuditDetails,
)
    requires
        command_details_ok(COMMAND_KEYBOARD_TYPE@, CommandArgs::KeyboardType(a1), shape1, d1),
        command_details_ok(COMMAND_KEYBOARD_TYPE@, CommandArgs::KeyboardType(a2), shape2, d2),
        a1.text@.len() == a2.text@.len(),
        encode_utf8(a1.text@).len() == encode_utf8(a2.text@).len(),
    ensures
        opt_text(d1.args_summary) == opt_text(d2.args_summary),
        d1.path_summary == d2.path_summary,
        d1.bytes == d2.bytes,
        d1.category == d2.category,
{
    lemma_command_names_distinct();
}

/// What the audit log records of a command line depends only on the
/// program's file name, the number of arguments, the timeout and the working
/// directory's file name: changing the argument values changes nothing.
pub proof fn lemma_exec_arguments_are_not_logged(
    a1: ExecArgs,
    a2: ExecArgs,
    shape1: JsonShape,
    shape2: JsonShape,
    d1: CommandAuditDetails,
    d2: CommandAuditDetails,
)
    requires
        command_details_ok(COMMAND_EXEC@, CommandArgs::Exec(a1), shape1, d1),
        command_details_ok(COMMAND_EXEC@, CommandArgs::Exec(a2), shape2, d2),
        a1.program@ == a2.program@,
        a1.argv@.len() == a2.argv@.len(),
        a1.timeout_ms == a2.timeout_ms,
        opt_text(a1.cwd) == opt_text(a2.cwd),
    ensures
        opt_text(d1.args_summary) == opt_text(d2.args_summary),
        opt_text(d1.path_summary) == opt_text(d2.path_summary),
        d1.category == d2.category,
{
}

} // verus!

verus! {

/// A word: non-empty and without whitespace.
pub open spec fn is_word(w: Seq<char>) -> bool {
    w.len() > 0 && forall|i: int| 0 <= i < w.len() ==> !is_ws(#[trigger] w[i])
}

pub open spec fn all_words(ws: Seq<Seq<char>>) -> bool {
    forall|i: int| 0 <= i < ws.len() ==> is_word(#[trigger] ws[i])
}

/// The only whitespace is single spaces between other characters: none at
/// either end, no two in a row, and no line breaks or tabs.
pub open spec fn single_spaced(s: Seq<char>) -> bool {
    forall|i: int|
        0 <= i < s.len() && is_ws(#[trigger] s[i]) ==> s[i] == ' ' && 0 < i < s.len() - 1 && !is_ws(s[i - 1])
            && !is_ws(s[i + 1])
}

/// What `before_first` finds: the part before the first `c`, which holds no `c`.
proof fn lemma_before_first_char(s: Seq<char>, c: char)
    ensures
        match before_first(s, c) {
            Some(k) => k.len() < s.len() && s[k.len() as int] == c && k == s.subrange(0, k.len() as int)
                && forall|j: int| 0 <= j < k.len() ==> #[trigger] s[j] != c,
            None => forall|j: int| 0 <= j < s.len() ==> #[trigger] s[j] != c,
        },
    decreases s.len(),
{
    if s.len() > 0 && s[0] != c {
        let t = s.drop_first();
        lemma_before_first_char(t, c);
        match before_first(t, c) {
            Some(k) => {
                assert(seq![s[0]] + k =~= s.subrange(0, k.len() as int + 1));
                assert forall|j: int| 0 <= j < k.len() + 1 implies #[trigger] s[j] != c by {
                    if j > 0 {
                        assert(s[j] == t[j - 1]);
                    }
                }
            },
            None => {
                assert forall|j: int| 0 <= j < s.len() implies #[trigger] s[j] != c by {
                    if j > 0 {
                        assert(s[j] == t[j - 1]);
                    }
                }
            },
        }
    } else if s.len() > 0 {
        assert(s.subrange(0, 0) =~= Seq::<char>::empty());
    }
}

proof fn lemma_split_all_words(s: Seq<char>, cur: Seq<char>, acc: Seq<Seq<char>>)
    requires
        all_words(acc),
        forall|i: int| 0 <= i < cur.len() ==> !is_ws(#[trigger] cur[i]),
    ensures
        all_words(split_ws_from(s, cur, acc)),
    decreases s.len(),
{
    if s.len() == 0 {
        if cur.len() > 0 {
            assert forall|i: int| 0 <= i < acc.push(cur).len() implies is_word(#[trigger] acc.push(cur)[i]) by {
                if i < acc.len() {
                    assert(acc.push(cur)[i] == acc[i]);
                }
            }
        }
    } else if is_ws(s[0]) {
        let a2 = if cur.len() > 0 { acc.push(cur) } else { acc };
        assert forall|i: int| 0 <= i < a2.len() implies is_word(#[trigger] a2[i]) by {
            if i < acc.len() {
                assert(a2[i] == acc[i]);
            }
        }
        lemma_split_all_words(s.drop_first(), seq![], a2);
    } else {
        let c2 = cur.push(s[0]);
        assert forall|i: int| 0 <= i < c2.len() implies !is_ws(#[trigger] c2[i]) by {
            if i < cur.len() {
                assert(c2[i] == cur[i]);
            }
        }
        lemma_split_all_words(s.drop_first(), c2, acc);
    }
}

/// The words of any text are non-empty and hold no whitespace.
pub proof fn lemma_words_are_words(s: Seq<char>)
    ensures
        all_words(words(s)),
{
    lemma_split_all_words(s, seq![], seq![]);
}

proof fn lemma_split_word_prefix(w: Seq<char>, s: Seq<char>, cur: Seq<char>, acc: Seq<Seq<char>>)
    requires
        forall|i: int| 0 <= i < w.len() ==> !is_ws(#[trigger] w[i]),
    ensures
        split_ws_from(w + s, cur, acc) == split_ws_from(s, cur + w, acc),
    decreases w.len(),
{
    if w.len() == 0 {
        assert(w + s =~= s);
        assert(cur + w =~= cur);
    } else {
        let t = w.drop_first();
        assert((w + s)[0] == w[0]);
        assert((w + s).drop_first() =~= t + s);
        assert forall|i: int| 0 <= i < t.len() implies !is_ws(#[trigger] t[i]) by {
            assert(t[i] == w[i + 1]);
        }
        lemma_split_word_prefix(t, s, cur.push(w[0]), acc);
        assert(cur.push(w[0]) + t =~= cur + w);
    }
}

proof fn lemma_join_front(ws: Seq<Seq<char>>, sep: Seq<char>)
    requires
        ws.len() >= 2,
    ensures
        join(ws, sep) == ws[0] + sep + join(ws.drop_first(), sep),
    decreases ws.len(),
{
    if ws.len() == 2 {
        assert(ws.drop_last().len() == 1);
        assert(join(ws.drop_last(), sep) == ws.drop_last()[0]);
        assert(ws.drop_last()[0] == ws[0]);
        assert(ws.drop_first().len() == 1);
        assert(join(ws.drop_first(), sep) == ws.drop_first()[0]);
        assert(ws.drop_first()[0] == ws.last());
        assert(join(ws, sep) == join(ws.drop_last(), sep) + sep + ws.last());
    } else {
        lemma_join_front(ws.drop_last(), sep);
        assert(ws.drop_first().drop_last() =~= ws.drop_last().drop_first());
        assert(ws.drop_first().last() == ws.last());
        assert(ws.drop_last()[0] == ws[0]);
        let a = ws[0];
        let b = join(ws.drop_last().drop_first(), sep);
        assert(join(ws.drop_first(), sep) == join(ws.drop_first().drop_last(), sep) + sep + ws.drop_first().last());
        assert(join(ws, sep) == join(ws.drop_last(), sep) + sep + ws.last());
        assert(a + sep + b + sep + ws.last() =~= a + sep + (b + sep + ws.last()));
    }
}

proof fn lemma_split_join(ws: Seq<Seq<char>>, acc: Seq<Seq<char>>)
    requires
        all_words(ws),
        ws.len() >= 1,
    ensures
        split_ws_from(join(ws, " "@), seq![], acc) == acc + ws,
    decreases ws.len(),
{
    reveal_strlit(" ");
    let w0 = ws[0];
    assert(is_word(w0));
    if ws.len() == 1 {
        lemma_split_word_prefix(w0, seq![], seq![], acc);
        assert(w0 + Seq::<char>::empty() =~= w0);
        assert(Seq::<char>::empty() + w0 =~= w0);
        assert(acc.push(w0) =~= acc + ws);
    } else {
        lemma_join_front(ws, " "@);
        let rest = ws.drop_first();
        assert forall|i: int| 0 <= i < rest.len() implies is_word(#[trigger] rest[i]) by {
            assert(rest[i] == ws[i + 1]);
        }
        let tail = join(rest, " "@);
        assert(w0 + " "@ + tail =~= w0 + (seq![' '] + tail));
        lemma_split_word_prefix(w0, seq![' '] + tail, seq![], acc);
        assert(Seq::<char>::empty() + w0 =~= w0);
        assert((seq![' '] + tail)[0] == ' ');
        assert((seq![' '] + tail).drop_first() =~= tail);
        lemma_split_join(rest, acc.push(w0));
        assert(acc.push(w0) + rest =~= acc + ws);
    }
}

/// Splitting words joined by single spaces gives the words back.
pub proof fn lemma_words_of_join(ws: Seq<Seq<char>>)
    requires
        all_words(ws),
    ensures
        words(join(ws, " "@)) == ws,
{
    if ws.len() == 0 {
        assert(words(join(ws, " "@)) =~= ws);
    } else {
        lemma_split_join(ws, seq![]);
        assert(Seq::<Seq<char>>::empty() + ws =~= ws);
    }
}

/// Words joined by single spaces are single-spaced, and not empty when
/// there is a word.
pub proof fn lemma_join_single_spaced(ws: Seq<Seq<char>>)
    requires
        all_words(ws),
    ensures
        single_spaced(join(ws, " "@)),
        ws.len() > 0 ==> join(ws, " "@).len() > 0,
    decreases ws.len(),
{
    reveal_strlit(" ");
    if ws.len() == 1 {
        assert(is_word(ws[0]));
    } else if ws.len() > 1 {
        let init = ws.drop_last();
        assert forall|i: int| 0 <= i < init.len() implies is_word(#[trigger] init[i]) by {
            assert(init[i] == ws[i]);
        }
        lemma_join_single_spaced(init);
        let j = join(init, " "@);
        let l = ws.last();
        assert(is_word(l));
        let s = j + " "@ + l;
        assert(s == join(ws, " "@));
        assert(!is_ws(j[j.len() - 1])) by {
            if is_ws(j[j.len() - 1]) {
                assert(j.len() - 1 < j.len() - 1);
            }
        }
        assert forall|i: int| 0 <= i < s.len() && is_ws(#[trigger] s[i]) implies s[i] == ' ' && 0 < i < s.len() - 1
            && !is_ws(s[i - 1]) && !is_ws(s[i + 1]) by {
            if i < j.len() {
                assert(s[i] == j[i]);
                assert(s[i - 1] == j[i - 1]);
                assert(s[i + 1] == j[i + 1]);
            } else if i == j.len() {
                assert(s[i - 1] == j[j.len() - 1]);
                assert(s[i + 1] == l[0]);
            } else {
                assert(s[i] == l[i - j.len() - 1]);
            }
        }
    }
}

/// A word whose value part is hidden is still a word.
proof fn lemma_assignment_is_word(w: Seq<char>)
    requires
        is_word(w),
    ensures
        is_word(redact_assignment_spec(w)),
{
    reveal_strlit("=[redacted]");
    reveal_strlit(":[redacted]");
    lemma_before_first_char(w, '=');
    lemma_before_first_char(w, ':');
    let r = redact_assignment_spec(w);
    if r != w {
        let (k, tail) = if before_first(w, '=') is Some && is_sensitive_key_spec(
            trim_punctuation_spec(before_first(w, '=')->0),
        ) {
            (before_first(w, '=')->0, "=[redacted]"@)
        } else {
            (before_first(w, ':')->0, ":[redacted]"@)
        };
        assert(r == k + tail);
        assert forall|i: int| 0 <= i < r.len() implies !is_ws(#[trigger] r[i]) by {
            if i < k.len() {
                assert(r[i] == w[i]);
            } else {
                assert(r[i] == tail[i - k.len()]);
            }
        }
    }
}

/// Hiding the words after `Bearer` and sensitive values keeps a list of words.
proof fn lemma_redact_words_are_words(ws: Seq<Seq<char>>, flag: bool)
    requires
        all_words(ws),
    ensures
        all_words(redact_words(ws, flag)),
        redact_words(ws, flag).len() == ws.len(),
    decreases ws.len(),
{
    reveal_strlit("[redacted]");
    if ws.len() > 0 {
        let rest = ws.drop_first();
        assert forall|i: int| 0 <= i < rest.len() implies is_word(#[trigger] rest[i]) by {
            assert(rest[i] == ws[i + 1]);
        }
        assert(is_word(ws[0]));
        lemma_assignment_is_word(ws[0]);
        let next = !flag && ascii_lower(trim_punctuation_spec(ws[0])) == "bearer"@;
        lemma_redact_words_are_words(rest, next);
        let first = if flag {
            "[redacted]"@
        } else if next {
            ws[0]
        } else {
            redact_assignment_spec(ws[0])
        };
        assert(is_word(first));
        let out = redact_words(ws, flag);
        assert(out == seq![first] + redact_words(rest, next));
        assert forall|i: int| 0 <= i < out.len() implies is_word(#[trigger] out[i]) by {
            if i > 0 {
                assert(out[i] == redact_words(rest, next)[i - 1]);
            }
        }
    }
}

/// Hiding a value twice is hiding it once.
proof fn lemma_assignment_idempotent(w: Seq<char>)
    ensures
        redact_assignment_spec(redact_assignment_spec(w)) == redact_assignment_spec(w),
{
    reveal_strlit("=[redacted]");
    reveal_strlit(":[redacted]");
    lemma_before_first_char(w, '=');
    lemma_before_first_char(w, ':');
    let eq = before_first(w, '=');
    let co = before_first(w, ':');
    if eq is Some && is_sensitive_key_spec(trim_punctuation_spec(eq->0)) {
        let k = eq->0;
        let r = k + "=[redacted]"@;
        assert forall|j: int| 0 <= j < k.len() implies #[trigger] r[j] != '=' by {
            assert(r[j] == w[j]);
        }
        lemma_before_first_index(r, '=', k.len() as int);
        assert(r.subrange(0, k.len() as int) =~= k);
    } else if co is Some && is_sensitive_key_spec(trim_punctuation_spec(co->0)) {
        let k = co->0;
        let r = k + ":[redacted]"@;
        assert forall|j: int| 0 <= j < k.len() implies #[trigger] r[j] != ':' by {
            assert(r[j] == w[j]);
        }
        lemma_before_first_index(r, ':', k.len() as int);
        assert(r.subrange(0, k.len() as int) =~= k);
        lemma_before_first_char(r, '=');
        match eq {
            Some(k2) => {
                if k2.len() < k.len() {
                    assert forall|j: int| 0 <= j < k2.len() implies #[trigger] r[j] != '=' by {
                        assert(r[j] == w[j]);
                    }
                    assert(r[k2.len() as int] == w[k2.len() as int]);
                    lemma_before_first_index(r, '=', k2.len() as int);
                    assert(r.subrange(0, k2.len() as int) =~= k2);
                } else {
                    assert forall|j: int| 0 <= j < r.len() implies #[trigger] r[j] != '=' by {
                        if j < k.len() {
                            assert(r[j] == w[j]);
                        } else {
                            assert(r[j] == ":[redacted]"@[j - k.len()]);
                        }
                    }
                    lemma_before_first_index(r, '=', r.len() as int);
                }
            },
            None => {
                assert forall|j: int| 0 <= j < r.len() implies #[trigger] r[j] != '=' by {
                    if j < k.len() {
                        assert(r[j] == w[j]);
                    } else {
                        assert(r[j] == ":[redacted]"@[j - k.len()]);
                    }
                }
                lemma_before_first_index(r, '=', r.len() as int);
            },
        }
    }
}

/// A word whose value was hidden does not read as `Bearer`.
proof fn lemma_assignment_not_bearer(w: Seq<char>)
    requires
        ascii_lower(trim_punctuation_spec(w)) != "bearer"@,
    ensures
        ascii_lower(trim_punctuation_spec(redact_assignment_spec(w))) != "bearer"@,
{
    reveal_strlit("=[redacted]");
    reveal_strlit(":[redacted]");
    reveal_strlit("bearer");
    let r = redact_assignment_spec(w);
    if r != w {
        let p = |c: char| !is_key_char(c);
        let n = r.len();
        assert(n >= 2);
        assert(r[n - 1] == ']');
        assert(r[n - 2] == 'd');
        lemma_strip_start_keeps(r, p, n - 2);
        let t = strip_start(r, p);
        assert(t[t.len() - 1] == r[n - 1]);
        assert(t[t.len() - 2] == r[n - 2]);
        lemma_strip_end_index(t, p, t.len() - 1);
        let u = t.subrange(0, t.len() - 1);
        assert(trim_punctuation_spec(r) == u);
        assert(u[u.len() - 1] == 'd');
        let l = ascii_lower(u);
        assert(l[l.len() - 1] == lower_char('d'));
        if l.len() == 6 {
            assert(l[5] != "bearer"@[5]);
        }
    }
}

/// Hiding words twice is hiding them once.
proof fn lemma_redact_words_idempotent(ws: Seq<Seq<char>>, flag: bool)
    ensures
        redact_words(redact_words(ws, flag), flag) == redact_words(ws, flag),
    decreases ws.len(),
{
    reveal_strlit("[redacted]");
    reveal_strlit("bearer");
    if ws.len() > 0 {
        let rest = ws.drop_first();
        let out = redact_words(ws, flag);
        if flag {
            lemma_redact_words_idempotent(rest, false);
            assert(out.drop_first() =~= redact_words(rest, false));
        } else if ascii_lower(trim_punctuation_spec(ws[0])) == "bearer"@ {
            lemma_redact_words_idempotent(rest, true);
            assert(out.drop_first() =~= redact_words(rest, true));
        } else {
            lemma_redact_words_idempotent(rest, false);
            lemma_assignment_idempotent(ws[0]);
            lemma_assignment_not_bearer(ws[0]);
            assert(out.drop_first() =~= redact_words(rest, false));
        }
    }
}

/// A credential assignment `key=value`, whose key (letters, digits and `_`)
/// names a secret, token or password, or is `key` or ends in `_key`, in any
/// case, is logged with its value hidden: `key=[redacted]`.
pub proof fn lemma_credential_assignments_are_redacted(key: Seq<char>, value: Seq<char>)
    requires
        key.len() > 0,
        key.len() + 11 <= MAX_AUDIT_TEXT_LEN,
        forall|i: int| 0 <= i < key.len() ==> is_ascii_alnum(#[trigger] key[i]) || key[i] == '_',
        forall|i: int| 0 <= i < value.len() ==> !is_ws(#[trigger] value[i]),
        contains_seq(ascii_lower(key), "secret"@) || contains_seq(ascii_lower(key), "token"@) || contains_seq(
            ascii_lower(key),
            "password"@,
        ) || contains_seq(ascii_lower(key), "passwd"@) || ascii_lower(key) == "key"@ || ends_with_seq(
            ascii_lower(key),
            "_key"@,
        ),
    ensures
        redact_assignment_spec(key + "="@ + value) == key + "=[redacted]"@,
        sanitize_spec(key + "="@ + value) == key + "=[redacted]"@,
{
    reveal_strlit("=");
    reveal_strlit("=[redacted]");
    reveal_strlit("bearer");
    reveal_strlit("secret");
    reveal_strlit("token");
    reveal_strlit("password");
    reveal_strlit("passwd");
    reveal_strlit("key");
    reveal_strlit("_key");
    let w = key + "="@ + value;
    let n: int = key.len() as int;
    let p = |c: char| !is_key_char(c);
    assert forall|j: int| 0 <= j < n implies #[trigger] w[j] == key[j] && w[j] != '=' by {}
    assert(w[n] == '=');
    assert forall|j: int| n < j < w.len() implies #[trigger] w[j] == value[j - n - 1] by {}
    // The key is what comes before the first `=`, and it needs no trimming.
    lemma_before_first_index(w, '=', n);
    assert(w.subrange(0, n) =~= key);
    lemma_strip_start_index(key, p, 0);
    assert(key.subrange(0, n) =~= key);
    lemma_strip_end_index(key, p, n);
    assert(trim_punctuation_spec(key) == key);
    assert(key.map_values(|c: char| if c == '-' { '_' } else { c }) =~= key);
    assert(normalize_key(key) == ascii_lower(key));
    assert(is_sensitive_key_spec(key));
    let r = key + "=[redacted]"@;
    assert(redact_assignment_spec(w) == r);
    // The assignment is one word, and it does not read as `Bearer`.
    assert(is_word(w)) by {
        assert forall|j: int| 0 <= j < w.len() implies !is_ws(#[trigger] w[j]) by {
            if j < n {
                assert(w[j] == key[j]);
            } else if j > n {
                assert(w[j] == value[j - n - 1]);
            }
        }
    }
    let one = seq![w];
    assert(all_words(one));
    lemma_words_of_join(one);
    assert(join(one, " "@) == w);
    assert(words(w) == one);
    assert(compact_text_spec(w) == w);
    lemma_strip_start_index(w, p, 0);
    assert(w.subrange(0, w.len() as int) =~= w);
    lemma_strip_end_keeps(w, p, n - 1);
    let t = trim_punctuation_spec(w);
    assert(t == w.subrange(0, t.len() as int));
    assert forall|j: int| 0 <= j < 6 implies {
        let b = #[trigger] "bearer"@[j];
        b != 's' && b != 't' && b != '=' && b != '_'
    } by {}
    if ascii_lower(t) == "bearer"@ {
        assert(ascii_lower(t).len() == t.len());
        if t.len() > n {
            assert(t[n] == '=');
            assert(ascii_lower(t)[n] == lower_char(t[n]));
            assert(false);
        } else {
            assert(t =~= key);
            let l = ascii_lower(key);
            if contains_seq(l, "secret"@) {
                let at = choose|at: int| occurs_at(l, "secret"@, at);
                assert(l.subrange(at, at + 6)[0] == l[at]);
            } else if contains_seq(l, "token"@) {
                let at = choose|at: int| occurs_at(l, "token"@, at);
                assert(l.subrange(at, at + 5)[0] == l[at]);
            } else if contains_seq(l, "password"@) {
                let at = choose|at: int| occurs_at(l, "password"@, at);
                assert(l.subrange(at, at + 8)[2] == l[at + 2]);
            } else if contains_seq(l, "passwd"@) {
                let at = choose|at: int| occurs_at(l, "passwd"@, at);
                assert(l.subrange(at, at + 6)[2] == l[at + 2]);
            } else if l == "key"@ {
            } else {
                assert(l.subrange(2, 6)[0] == l[2]);
            }
            assert(false);
        }
    }
    let rw = redact_words(one, false);
    assert(ascii_lower(trim_punctuation_spec(one[0])) != "bearer"@);
    assert(rw =~= seq![r]) by {
        assert(one.drop_first() =~= Seq::<Seq<char>>::empty());
        assert(redact_words(one.drop_first(), false) =~= Seq::<Seq<char>>::empty());
        assert(rw == seq![redact_assignment_spec(one[0])] + redact_words(one.drop_first(), false));
    }
    assert(join(rw, " "@) == r);
}

/// The word after `Bearer` (in any case) is logged as `[redacted]`,
/// whatever it is.
pub proof fn lemma_bearer_credentials_are_redacted(bearer: Seq<char>, credential: Seq<char>)
    requires
        ascii_lower(bearer) == "bearer"@,
        is_word(credential),
    ensures
        sanitize_spec(bearer + " "@ + credential) == bearer + " [redacted]"@,
{
    reveal_strlit("bearer");
    reveal_strlit(" ");
    reveal_strlit("[redacted]");
    reveal_strlit(" [redacted]");
    let p = |c: char| !is_key_char(c);
    assert(ascii_lower(bearer).len() == bearer.len());
    assert forall|j: int| 0 <= j < bearer.len() implies is_key_char(#[trigger] bearer[j]) && !is_ws(bearer[j]) by {
        assert(ascii_lower(bearer)[j] == lower_char(bearer[j]));
    }
    assert(is_word(bearer));
    lemma_strip_start_index(bearer, p, 0);
    assert(bearer.subrange(0, bearer.len() as int) =~= bearer);
    lemma_strip_end_index(bearer, p, bearer.len() as int);
    assert(trim_punctuation_spec(bearer) == bearer);
    let ws = seq![bearer, credential];
    assert(all_words(ws));
    lemma_words_of_join(ws);
    let text = bearer + " "@ + credential;
    assert(ws.drop_last() =~= seq![bearer]);
    assert(join(seq![bearer], " "@) == bearer);
    assert(ws.last() == credential);
    assert(join(ws, " "@) == join(ws.drop_last(), " "@) + " "@ + ws.last());
    assert(join(ws, " "@) == text);
    assert(words(text) == ws);
    assert(compact_text_spec(text) == text);
    let hidden = seq!["[redacted]"@];
    assert(redact_words(ws, false) =~= seq![bearer, "[redacted]"@]) by {
        assert(ws[0] == bearer);
        assert(ws.drop_first() =~= seq![credential]);
        assert(seq![credential].drop_first() =~= Seq::<Seq<char>>::empty());
        assert(redact_words(Seq::<Seq<char>>::empty(), false) =~= Seq::<Seq<char>>::empty());
        assert(redact_words(seq![credential], true) =~= hidden);
    }
    let out = seq![bearer, "[redacted]"@];
    assert(out.drop_last() =~= seq![bearer]);
    assert(out.last() == "[redacted]"@);
    assert(join(out, " "@) == join(out.drop_last(), " "@) + " "@ + out.last());
    assert(join(out, " "@) == bearer + " "@ + "[redacted]"@);
    assert(bearer + " "@ + "[redacted]"@ =~= bearer + " [redacted]"@);
}

/// The audit-safe form of any text is at most `MAX_AUDIT_TEXT_LEN` + 3
/// characters long and single-spaced: no line breaks, tabs or other
/// whitespace, only single spaces between other characters.
pub proof fn lemma_sanitized_text_shape(value: Seq<char>)
    ensures
        sanitize_spec(value).len() <= MAX_AUDIT_TEXT_LEN + 3,
        single_spaced(sanitize_spec(value)),
{
    reveal_strlit("...");
    let compact = compact_text_spec(value);
    if compact.len() > 0 {
        lemma_words_are_words(compact);
        lemma_redact_words_are_words(words(compact), false);
        let j = join(redact_words(words(compact), false), " "@);
        lemma_join_single_spaced(redact_words(words(compact), false));
        if j.len() > MAX_AUDIT_TEXT_LEN {
            let p = j.subrange(0, MAX_AUDIT_TEXT_LEN as int);
            let s = p + "..."@;
            assert forall|i: int| 0 <= i < s.len() && is_ws(#[trigger] s[i]) implies s[i] == ' ' && 0 < i < s.len() - 1
                && !is_ws(s[i - 1]) && !is_ws(s[i + 1]) by {
                if i < p.len() {
                    assert(s[i] == j[i]);
                    assert(s[i - 1] == j[i - 1]);
                    if i + 1 < p.len() {
                        assert(s[i + 1] == j[i + 1]);
                    } else {
                        assert(s[i + 1] == '.');
                    }
                } else {
                    assert(s[i] == "..."@[i - p.len()]);
                }
            }
        }
    }
}

/// Making audit-safe text that was not cut short audit-safe again changes
/// nothing.
pub proof fn lemma_sanitize_is_idempotent(value: Seq<char>)
    requires
        sanitize_spec(value).len() <= MAX_AUDIT_TEXT_LEN,
    ensures
        sanitize_spec(sanitize_spec(value)) == sanitize_spec(value),
{
    reveal_strlit("...");
    let compact = compact_text_spec(value);
    let s = sanitize_spec(value);
    if compact.len() == 0 {
        assert(words(s) =~= Seq::<Seq<char>>::empty());
        assert(compact_text_spec(s).len() == 0);
    } else {
        let w = words(compact);
        lemma_words_are_words(compact);
        lemma_redact_words_are_words(w, false);
        let rw = redact_words(w, false);
        let j = join(rw, " "@);
        assert(j.len() <= MAX_AUDIT_TEXT_LEN);
        assert(s == j);
        assert(w.len() > 0) by {
            if w.len() == 0 {
                assert(compact == join(words(value), " "@));
                lemma_words_are_words(value);
                lemma_words_of_join(words(value));
                assert(words(value).len() == 0);
            }
        }
        lemma_join_single_spaced(rw);
        lemma_words_of_join(rw);
        assert(compact_text_spec(s) == j);
        lemma_redact_words_idempotent(w, false);
    }
}

} // verus!
