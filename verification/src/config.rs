use vstd::prelude::*;
use crate::bytes::{all_digits, is_ascii_digit};
use crate::error::{RcwError, RcwErrorKind, RcwResult};
use crate::text::{
    concat2, debug_quoted, debug_text, is_blank, owned, str_eq, strip_end, strip_start, to_chars,
    trim, trim_end_char, trim_seq, trim_start_char,
};

verus! {

pub const DEFAULT_TOTP_PERIOD_SECONDS: u64 = 120;
pub const DEFAULT_BIND_ADDR: &'static str = "127.0.0.1:7800";
pub const DEFAULT_SERVER_AUDIT_LOG: &'static str = "rcw-server-audit.jsonl";

/// The trimmed value, unless it is absent or blank.
pub open spec fn non_empty_spec(value: Option<Seq<char>>) -> Option<Seq<char>> {
    match value {
        Some(v) => if trim_seq(v).len() == 0 { None } else { Some(trim_seq(v)) },
        None => None,
    }
}

pub open spec fn opt_view(value: Option<&str>) -> Option<Seq<char>> {
    match value {
        Some(v) => Some(v@),
        None => None,
    }
}

pub open spec fn opt_string_view(value: Option<String>) -> Option<Seq<char>> {
    match value {
        Some(v) => Some(v@),
        None => None,
    }
}

/// The trimmed value, unless it is absent or blank.
pub fn non_empty(value: Option<&str>) -> (r: Option<String>)
    ensures
        opt_string_view(r) == non_empty_spec(opt_view(value)),
{
    match value {
        Some(v) => {
            let t = trim(v);
            if t.unicode_len() == 0 {
                None
            } else {
                Some(t)
            }
        },
        None => None,
    }
}

/// The decimal value of a string of ASCII digits.
pub open spec fn digits_value(s: Seq<char>) -> nat
    decreases s.len(),
{
    if s.len() == 0 {
        0
    } else {
        digits_value(s.drop_last()) * 10 + ((s.last() as u32 - '0' as u32) as nat)
    }
}

/// What `u64::from_str` accepts: an optional `+`, then one or more ASCII
/// digits whose value fits in a `u64`.
pub open spec fn parse_u64_spec(s: Seq<char>) -> Option<u64> {
    parse_digits_spec(unsigned_digits(s))
}

/// `s` without one leading `+`.
pub open spec fn unsigned_digits(s: Seq<char>) -> Seq<char> {
    if s.len() > 0 && s[0] == '+' { s.drop_first() } else { s }
}

pub open spec fn parse_digits_spec(digits: Seq<char>) -> Option<u64> {
    if digits.len() > 0 && all_digits(digits) && digits_value(digits) <= u64::MAX {
        Some(digits_value(digits) as u64)
    } else {
        None
    }
}

/// `str::parse::<u64>` on a string slice.
fn parse_u64_exact(s: &str) -> (r: Option<u64>)
    ensures
        r == parse_u64_spec(s@),
{
    let v = to_chars(s);
    let n = v.len();
    let start: usize = if n > 0 && v[0] == '+' { 1 } else { 0 };
    let ghost digits = unsigned_digits(s@);
    assert(digits =~= s@.subrange(start as int, n as int));
    if start == n {
        return None;
    }
    let mut value: u64 = 0;
    let mut i: usize = start;
    while i < n
        invariant
            v@ == s@,
            n == v@.len(),
            start <= i <= n,
            digits == s@.subrange(start as int, n as int),
            digits == unsigned_digits(s@),
            digits.len() > 0,
            forall|j: int| start <= j < i ==> is_ascii_digit(#[trigger] v@[j]),
            value as nat == digits_value(s@.subrange(start as int, i as int)),
        decreases n - i,
    {
        let c = v[i];
        assert(digits[i - start] == c);
        if !('0' <= c && c <= '9') {
            assert(!is_ascii_digit(digits[i - start]));
            assert(!all_digits(digits));
            return None;
        }
        let d = (c as u32 - '0' as u32) as u64;
        assert(s@.subrange(start as int, i + 1).drop_last() =~= s@.subrange(start as int, i as int));
        if value > 1844674407370955161u64 || (value == 1844674407370955161u64 && d > 5) {
            proof {
                assert(digits.subrange(0, (i + 1 - start) as int) =~= s@.subrange(start as int, i + 1));
                assert(digits_value(s@.subrange(start as int, i + 1)) == value * 10 + d);
                if all_digits(digits) {
                    lemma_digits_value_prefix_bound(digits, (i + 1 - start) as nat);
                }
            }
            return None;
        }
        value = value * 10 + d;
        i = i + 1;
    }
    assert(s@.subrange(start as int, n as int) =~= digits);
    Some(value)
}

proof fn lemma_digits_value_prefix_bound(s: Seq<char>, k: nat)
    requires
        0 < k <= s.len(),
        all_digits(s),
        digits_value(s.subrange(0, k as int)) > u64::MAX,
    ensures
        digits_value(s) > u64::MAX,
    decreases s.len() - k,
{
    if k < s.len() {
        let t = s.subrange(0, (k + 1) as int);
        assert(t.drop_last() =~= s.subrange(0, k as int));
        lemma_digits_value_prefix_bound(s, k + 1);
    } else {
        assert(s.subrange(0, k as int) =~= s);
    }
}

pub open spec fn parse_u64_error_message(value: Seq<char>) -> Seq<char> {
    "expected positive integer, got "@ + debug_text(value)
}

/// Parses a non-negative integer, ignoring surrounding whitespace.
pub fn parse_u64(value: &str) -> (r: RcwResult<u64>)
    ensures
        r is Ok <==> parse_u64_spec(trim_seq(value@)) is Some,
        r matches Ok(n) ==> parse_u64_spec(trim_seq(value@)) == Some(n),
        r matches Err(e) ==> e@ == (RcwErrorKind::InvalidConfig, parse_u64_error_message(value@)),
{
    let t = trim(value);
    match parse_u64_exact(t.as_str()) {
        Some(n) => Ok(n),
        None => {
            let q = debug_quoted(value);
            Err(RcwError::InvalidConfig(concat2("expected positive integer, got ", q.as_str())))
        },
    }
}

/// The relay address built into the binary (`RCW_EMBED_SERVER_URL` at build
/// time), unless it is blank.
pub fn embedded_server_url(baked: Option<&'static str>) -> (r: Option<&'static str>)
    ensures
        match baked {
            Some(v) => if trim_seq(v@).len() == 0 { r is None } else { r == Some(v) },
            None => r is None,
        },
{
    match baked {
        Some(v) => if is_blank(v) { None } else { Some(v) },
        None => None,
    }
}

/// The code period built into the binary (`RCW_EMBED_TOTP_PERIOD_SECONDS` at
/// build time), when it parses as a number.
pub fn embedded_totp_period_seconds(baked: Option<&str>) -> (r: Option<u64>)
    ensures
        r == match baked {
            Some(v) => parse_u64_spec(trim_seq(v@)),
            None => None,
        },
{
    match baked {
        Some(v) => match parse_u64(v) {
            Ok(n) => Some(n),
            Err(_) => None,
        },
        None => None,
    }
}

/// Rejects a zero TOTP period.
pub fn validate_totp_period(value: u64) -> (r: RcwResult<u64>)
    ensures
        r is Ok <==> value > 0,
        r matches Ok(n) ==> n == value,
        r matches Err(e) ==> e@ == (
            RcwErrorKind::InvalidConfig,
            "TOTP period must be greater than zero"@,
        ),
{
    if value == 0 {
        return Err(RcwError::InvalidConfig("TOTP period must be greater than zero".to_owned()));
    }
    Ok(value)
}

/// The view of a textual result: the text, or the error's variant and detail.
pub open spec fn text_result(r: RcwResult<String>) -> Result<Seq<char>, (RcwErrorKind, Seq<char>)> {
    match r {
        Ok(s) => Ok(s@),
        Err(e) => Err(e@),
    }
}

/// The view of a numeric result.
pub open spec fn u64_result(r: RcwResult<u64>) -> Result<u64, (RcwErrorKind, Seq<char>)> {
    match r {
        Ok(n) => Ok(n),
        Err(e) => Err(e@),
    }
}

/// First present, non-blank value among explicit, environment and embedded.
pub open spec fn resolve_server_url_spec(
    explicit: Option<Seq<char>>,
    env_value: Option<Seq<char>>,
    embedded: Option<Seq<char>>,
) -> Result<Seq<char>, (RcwErrorKind, Seq<char>)> {
    if let Some(v) = non_empty_spec(explicit) {
        Ok(v)
    } else if let Some(v) = non_empty_spec(env_value) {
        Ok(v)
    } else if embedded is Some && trim_seq(embedded->0).len() != 0 {
        Ok(embedded->0)
    } else {
        Err((RcwErrorKind::MissingConfig, "RCW_SERVER_URL"@))
    }
}

pub open spec fn validate_period_spec(value: u64) -> Result<u64, (RcwErrorKind, Seq<char>)> {
    if value > 0 {
        Ok(value)
    } else {
        Err((RcwErrorKind::InvalidConfig, "TOTP period must be greater than zero"@))
    }
}

pub open spec fn resolve_totp_period_spec(
    explicit: Option<u64>,
    env_value: Option<Seq<char>>,
    embedded: Option<u64>,
) -> Result<u64, (RcwErrorKind, Seq<char>)> {
    if let Some(v) = explicit {
        validate_period_spec(v)
    } else if let Some(t) = env_value {
        match parse_u64_spec(trim_seq(t)) {
            Some(v) => validate_period_spec(v),
            None => Err((RcwErrorKind::InvalidConfig, parse_u64_error_message(t))),
        }
    } else if let Some(v) = embedded {
        validate_period_spec(v)
    } else {
        Ok(DEFAULT_TOTP_PERIOD_SECONDS)
    }
}

pub open spec fn control_token_spec(explicit: Option<Seq<char>>, env_value: Option<Seq<char>>) -> Result<
    Seq<char>,
    (RcwErrorKind, Seq<char>),
> {
    if let Some(v) = non_empty_spec(explicit) {
        Ok(v)
    } else if let Some(v) = non_empty_spec(env_value) {
        Ok(v)
    } else {
        Err((RcwErrorKind::MissingConfig, "RCW_CONTROL_TOKEN"@))
    }
}

/// The server URL: the explicit value, else `RCW_SERVER_URL`, else the value
/// embedded at build time; blank values count as absent.
pub fn resolve_server_url(
    explicit: Option<&str>,
    env_value: Option<&str>,
    embedded: Option<&str>,
) -> (r: RcwResult<String>)
    ensures
        text_result(r) == resolve_server_url_spec(opt_view(explicit), opt_view(env_value), opt_view(embedded)),
{
    if let Some(value) = non_empty(explicit) {
        return Ok(value);
    }
    if let Some(value) = non_empty(env_value) {
        return Ok(value);
    }
    if let Some(value) = embedded {
        if !is_blank(value) {
            return Ok(owned(value));
        }
    }
    Err(RcwError::MissingConfig("RCW_SERVER_URL".to_owned()))
}

/// The TOTP period: the explicit value, else `RCW_TOTP_PERIOD_SECONDS`, else
/// the value embedded at build time, else the default; zero is rejected.
pub fn resolve_totp_period_seconds(
    explicit: Option<u64>,
    env_value: Option<&str>,
    embedded: Option<u64>,
) -> (r: RcwResult<u64>)
    ensures
        u64_result(r) == resolve_totp_period_spec(explicit, opt_view(env_value), embedded),
{
    if let Some(value) = explicit {
        return validate_totp_period(value);
    }
    if let Some(value) = env_value {
        let parsed = parse_u64(value)?;
        return validate_totp_period(parsed);
    }
    if let Some(value) = embedded {
        return validate_totp_period(value);
    }
    Ok(DEFAULT_TOTP_PERIOD_SECONDS)
}

/// The relay's control token: the explicit value, else `RCW_CONTROL_TOKEN`.
pub fn control_token(explicit: Option<&str>, env_value: Option<&str>) -> (r: RcwResult<String>)
    ensures
        text_result(r) == control_token_spec(opt_view(explicit), opt_view(env_value)),
{
    if let Some(value) = non_empty(explicit) {
        return Ok(value);
    }
    if let Some(value) = non_empty(env_value) {
        return Ok(value);
    }
    Err(RcwError::MissingConfig("RCW_CONTROL_TOKEN".to_owned()))
}

/// The value when present and not blank, else the default.
pub open spec fn setting_or(value: Option<Seq<char>>, default: Seq<char>) -> Seq<char> {
    match value {
        Some(v) => if trim_seq(v).len() == 0 { default } else { v },
        None => default,
    }
}

fn setting_or_default(value: Option<&str>, default: &str) -> (r: String)
    ensures
        r@ == setting_or(opt_view(value), default@),
{
    match value {
        Some(v) => if is_blank(v) { owned(default) } else { owned(v) },
        None => owned(default),
    }
}

/// The relay's listen address: `RCW_BIND_ADDR` unless blank, else the default.
pub fn bind_addr(env_value: Option<&str>) -> (r: String)
    ensures
        r@ == setting_or(opt_view(env_value), DEFAULT_BIND_ADDR@),
{
    setting_or_default(env_value, DEFAULT_BIND_ADDR)
}

/// The relay's audit log path: `RCW_AUDIT_LOG` unless blank, else the default.
pub fn server_audit_log_path(env_value: Option<&str>) -> (r: String)
    ensures
        r@ == setting_or(opt_view(env_value), DEFAULT_SERVER_AUDIT_LOG@),
{
    setting_or_default(env_value, DEFAULT_SERVER_AUDIT_LOG)
}

/// The websocket scheme for a server URL scheme.
pub open spec fn websocket_scheme_spec(scheme: Seq<char>) -> Option<Seq<char>> {
    if scheme == "ws"@ || scheme == "wss"@ {
        Some(scheme)
    } else if scheme == "http"@ {
        Some("ws"@)
    } else if scheme == "https"@ {
        Some("wss"@)
    } else {
        None
    }
}

/// Maps `http`/`https` to `ws`/`wss`, keeps `ws`/`wss`, rejects anything else.
pub fn websocket_scheme(scheme: &str) -> (r: RcwResult<String>)
    ensures
        match websocket_scheme_spec(scheme@) {
            Some(s) => r matches Ok(v) && v@ == s,
            None => r matches Err(e) && e@ == (
                RcwErrorKind::InvalidConfig,
                "unsupported server URL scheme: "@ + scheme@,
            ),
        },
{
    if str_eq(scheme, "ws") || str_eq(scheme, "wss") {
        Ok(owned(scheme))
    } else if str_eq(scheme, "http") {
        Ok("ws".to_owned())
    } else if str_eq(scheme, "https") {
        Ok("wss".to_owned())
    } else {
        Err(RcwError::InvalidConfig(concat2("unsupported server URL scheme: ", scheme)))
    }
}

/// The endpoint path below the server URL's base path.
pub open spec fn endpoint_path_spec(base_path: Seq<char>, endpoint: Seq<char>) -> Seq<char> {
    let base = strip_end(base_path, |c: char| c == '/');
    let ep = strip_start(endpoint, |c: char| c == '/');
    if base.len() == 0 {
        "/"@ + ep
    } else {
        base + "/"@ + ep
    }
}

/// Joins a base path and an endpoint with exactly one `/` between them.
pub fn join_endpoint_path(base_path: &str, endpoint: &str) -> (r: String)
    ensures
        r@ == endpoint_path_spec(base_path@, endpoint@),
{
    let base = trim_end_char(base_path, '/');
    let ep = trim_start_char(endpoint, '/');
    if base.unicode_len() == 0 {
        concat2("/", ep.as_str())
    } else {
        let mut r = base;
        r.append("/");
        r.append(ep.as_str());
        r
    }
}

#[verifier::external_type_specification]
#[verifier::external_body]
pub struct ExUrl(url::Url);

/// What `url::Url::parse` makes of `text`: the parsed URL's serialization, or
/// the parser's error message.
pub uninterp spec fn url_parse_result(text: Seq<char>) -> Result<Seq<char>, Seq<char>>;

/// `url::Url::scheme` of the URL with this serialization.
pub uninterp spec fn url_scheme_of(serialization: Seq<char>) -> Seq<char>;

/// `url::Url::set_scheme` on the URL with this serialization: the new
/// serialization, or `None` when the crate refuses the change.
pub uninterp spec fn url_scheme_set(serialization: Seq<char>, scheme: Seq<char>) -> Option<Seq<char>>;

/// `url::Url::path` of the URL with this serialization.
pub uninterp spec fn url_path_of(serialization: Seq<char>) -> Seq<char>;

/// `url::Url::set_path` on the URL with this serialization: the new serialization.
pub uninterp spec fn url_path_set(serialization: Seq<char>, path: Seq<char>) -> Seq<char>;

/// `url::Url::set_query(None)` on the URL with this serialization: the new serialization.
pub uninterp spec fn url_query_cleared(serialization: Seq<char>) -> Seq<char>;

/// A URL parsed by the `url` crate. Two URLs of the crate are equal exactly
/// when their serializations are, so the serialization is its model.
pub struct WebUrl {
    url: url::Url,
    serialization: Ghost<Seq<char>>,
}

impl View for WebUrl {
    type V = Seq<char>;

    closed spec fn view(&self) -> Seq<char> {
        self.serialization@
    }
}

/// `url::Url::parse`, with the parser's error rendered as text.
#[verifier::external_body]
fn url_parse(text: &str) -> (r: Result<WebUrl, String>)
    ensures
        match url_parse_result(text@) {
            Ok(s) => r matches Ok(u) && u@ == s,
            Err(m) => r matches Err(e) && e@ == m,
        },
{
    match url::Url::parse(text) {
        Ok(url) => Ok(WebUrl { url, serialization: Ghost(url_parse_result(text@)->Ok_0) }),
        Err(e) => Err(e.to_string()),
    }
}

/// `url::Url::as_str`: the URL's serialization.
#[verifier::external_body]
fn url_as_str(u: &WebUrl) -> (r: &str)
    ensures
        r@ == u@,
{
    u.url.as_str()
}

/// `url::Url::scheme`.
#[verifier::external_body]
fn url_scheme(u: &WebUrl) -> (r: &str)
    ensures
        r@ == url_scheme_of(u@),
{
    u.url.scheme()
}

/// `url::Url::set_scheme`; on refusal the URL is left as it was. The crate
/// keeps its offsets in `u32`, so the URL and the scheme are kept short.
#[verifier::external_body]
fn url_set_scheme(u: &mut WebUrl, scheme: &str) -> (r: bool)
    requires
        old(u)@.len() <= MAX_URL_CHARS,
        scheme@.len() <= MAX_URL_CHARS,
    ensures
        match url_scheme_set(old(u)@, scheme@) {
            Some(s) => r && final(u)@ == s,
            None => !r && final(u)@ == old(u)@,
        },
{
    let ok = u.url.set_scheme(scheme).is_ok();
    u.serialization = Ghost(arbitrary());
    ok
}

/// `url::Url::path`.
#[verifier::external_body]
fn url_path(u: &WebUrl) -> (r: &str)
    ensures
        r@ == url_path_of(u@),
{
    u.url.path()
}

/// `url::Url::set_path`. The crate keeps its offsets in `u32`, so the URL and
/// the path are kept short.
#[verifier::external_body]
fn url_set_path(u: &mut WebUrl, path: &str)
    requires
        old(u)@.len() <= MAX_URL_CHARS,
        path@.len() <= MAX_URL_CHARS,
    ensures
        final(u)@ == url_path_set(old(u)@, path@),
{
    u.url.set_path(path);
    u.serialization = Ghost(arbitrary());
}

/// `url::Url::set_query(None)`.
#[verifier::external_body]
fn url_clear_query(u: &mut WebUrl)
    ensures
        final(u)@ == url_query_cleared(old(u)@),
{
    u.url.set_query(None);
    u.serialization = Ghost(arbitrary());
}

/// The longest URL or URL part (in characters) handed to the `url` crate's
/// setters, well inside the `u32` offsets it keeps.
pub const MAX_URL_CHARS: usize = 100000000;

pub open spec fn url_too_long_message() -> Seq<char> {
    "server URL is too long"@
}

/// The websocket URL of `endpoint` on the server at `server_url`, as
/// [`ws_endpoint_url`] computes it.
pub open spec fn ws_endpoint_spec(server_url: Seq<char>, endpoint: Seq<char>) -> Result<Seq<char>, (RcwErrorKind, Seq<char>)> {
    match url_parse_result(server_url) {
        Err(m) => Err((RcwErrorKind::Url, m)),
        Ok(parsed) => if parsed.len() > MAX_URL_CHARS {
            Err((RcwErrorKind::Url, url_too_long_message()))
        } else {
            match websocket_scheme_spec(url_scheme_of(parsed)) {
                None => Err((RcwErrorKind::InvalidConfig, "unsupported server URL scheme: "@ + url_scheme_of(parsed))),
                Some(ws) => match url_scheme_set(parsed, ws) {
                    None => Err((RcwErrorKind::InvalidConfig, "failed to set websocket scheme"@)),
                    Some(with_scheme) => {
                        let path = endpoint_path_spec(url_path_of(with_scheme), endpoint);
                        if with_scheme.len() > MAX_URL_CHARS || path.len() > MAX_URL_CHARS {
                            Err((RcwErrorKind::Url, url_too_long_message()))
                        } else {
                            Ok(url_query_cleared(url_path_set(with_scheme, path)))
                        }
                    },
                },
            }
        },
    }
}

/// The websocket URL of `endpoint` on the server at `server_url`: the scheme
/// becomes `ws`/`wss` (see [`websocket_scheme`]), the path becomes
/// [`join_endpoint_path`] of the URL's path and `endpoint`, and the query is
/// dropped. URLs longer than [`MAX_URL_CHARS`] are refused.
pub fn ws_endpoint_url(server_url: &str, endpoint: &str) -> (r: RcwResult<String>)
    ensures
        match ws_endpoint_spec(server_url@, endpoint@) {
            Ok(s) => r matches Ok(v) && v@ == s,
            Err(e) => r matches Err(x) && x@ == e,
        },
{
    let mut url = match url_parse(server_url) {
        Ok(url) => url,
        Err(msg) => return Err(RcwError::Url(msg)),
    };
    if url_as_str(&url).unicode_len() > MAX_URL_CHARS {
        return Err(RcwError::Url("server URL is too long".to_owned()));
    }
    let scheme = websocket_scheme(url_scheme(&url))?;
    proof {
        reveal_strlit("ws");
        reveal_strlit("wss");
    }
    if !url_set_scheme(&mut url, scheme.as_str()) {
        return Err(RcwError::InvalidConfig("failed to set websocket scheme".to_owned()));
    }
    let joined = join_endpoint_path(url_path(&url), endpoint);
    if url_as_str(&url).unicode_len() > MAX_URL_CHARS || joined.unicode_len() > MAX_URL_CHARS {
        return Err(RcwError::Url("server URL is too long".to_owned()));
    }
    url_set_path(&mut url, joined.as_str());
    url_clear_query(&mut url);
    Ok(owned(url_as_str(&url)))
}

} // verus!
