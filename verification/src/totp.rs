use vstd::prelude::*;
use crate::bytes::{all_digits, be_u64, decimal, digit, is_ascii_digit, push_be_u64, push_decimal};
use crate::digest::{hmac_sha1, hmac_sha1_tag};
use crate::error::{RcwError, RcwErrorKind, RcwResult};
use crate::text::{push_char, str_eq};

verus! {

/// Digits in a one-time code.
pub const DEFAULT_TOTP_DIGITS: u32 = 6;
/// Neighbouring time windows accepted on either side of the current one.
pub const DEFAULT_SKEW_WINDOWS: i64 = 1;

/// `n` random bytes from the operating system's generator (`rand::rngs::OsRng`).
#[verifier::external_body]
pub(crate) fn os_random_bytes(n: usize) -> (r: Vec<u8>)
    ensures
        r@.len() == n,
{
    let mut bytes = vec![0_u8; n];
    rand::RngCore::fill_bytes(&mut rand::rngs::OsRng, &mut bytes);
    bytes
}

/// A fresh 20-byte secret for code generation.
pub fn random_seed() -> (r: Vec<u8>)
    ensures
        r@.len() == 20,
{
    os_random_bytes(20)
}

/// The 31-bit value RFC 4226 dynamic truncation extracts from an HMAC-SHA1 tag.
pub open spec fn truncate_tag(tag: Seq<u8>) -> u32 {
    let offset = (tag[19] & 0x0f) as int;
    ((((tag[offset] & 0x7f) as u32) << 24u32) | ((tag[offset + 1] as u32) << 16u32) | ((
    tag[offset + 2] as u32) << 8u32) | (tag[offset + 3] as u32))
}

pub open spec fn pow10(digits: nat) -> nat
    decreases digits,
{
    if digits == 0 { 1 } else { 10 * pow10((digits - 1) as nat) }
}

/// `s` left-padded with `0` to at least `width` characters.
pub open spec fn zero_pad(s: Seq<char>, width: nat) -> Seq<char> {
    if s.len() >= width { s } else { Seq::new((width - s.len()) as nat, |i: int| '0') + s }
}

/// The code an HMAC-SHA1 tag gives: dynamically truncated, reduced modulo
/// `10^digits` and zero-padded to `digits` characters (RFC 4226, 5.3).
pub open spec fn tag_code(tag: Seq<u8>, digits: nat) -> Seq<char> {
    zero_pad(decimal((truncate_tag(tag) as nat) % pow10(digits)), digits)
}

/// The one-time code for `counter` under `seed` (RFC 4226 HOTP).
pub open spec fn hotp_code(seed: Seq<u8>, counter: u64, digits: nat) -> Seq<char> {
    tag_code(hmac_sha1_tag(seed, be_u64(counter)), digits)
}


/// HOTP: HMAC-SHA1 of the big-endian counter, turned into a code by
/// [`code_from_tag`].
pub fn hotp(seed: &[u8], counter: u64, digits: u32) -> (r: String)
    requires
        digits <= 9,
    ensures
        r@ == hotp_code(seed@, counter, digits as nat),
{
    let mut message: Vec<u8> = Vec::new();
    push_be_u64(&mut message, counter);
    assert(message@ =~= be_u64(counter));
    let tag = hmac_sha1(seed, message.as_slice());
    code_from_tag(tag.as_slice(), digits)
}

/// The code of a 20-byte HMAC-SHA1 tag: the 31 bits at the offset its last
/// nibble names, modulo `10^digits`, zero-padded to `digits` characters.
pub fn code_from_tag(tag: &[u8], digits: u32) -> (r: String)
    requires
        tag@.len() == 20,
        digits <= 9,
    ensures
        r@ == tag_code(tag@, digits as nat),
{
    let b19 = tag[19];
    let offset = (b19 & 0x0f) as usize;
    assert(offset < 16) by (bit_vector)
        requires
            offset == (b19 & 0x0f) as usize,
    ;
    let binary: u32 = (((tag[offset] & 0x7f) as u32) << 24u32) | ((tag[offset + 1] as u32) << 16u32)
        | ((tag[offset + 2] as u32) << 8u32) | (tag[offset + 3] as u32);
    let mut divisor: u32 = 1;
    let mut k: u32 = 0;
    while k < digits
        invariant
            k <= digits <= 9,
            divisor == pow10(k as nat),
            divisor >= 1,
            divisor <= 1000000000,
        decreases digits - k,
    {
        proof {
            lemma_pow10_bound(k as nat);
        }
        divisor = divisor * 10;
        k = k + 1;
    }
    let value = binary % divisor;
    let mut text = String::new();
    push_decimal(&mut text, value as u64);
    let ghost dec = decimal(value as nat);
    let mut padded = String::new();
    assert(text@ =~= dec);
    let len = text.unicode_len();
    let mut i: usize = len;
    while i < digits as usize
        invariant
            len == dec.len(),
            len <= i,
            i <= (if len > digits { len } else { digits as usize }),
            padded@ == Seq::new((i - len) as nat, |j: int| '0'),
        decreases digits - i,
    {
        push_char(&mut padded, '0');
        i = i + 1;
        assert(padded@ =~= Seq::new((i - len) as nat, |j: int| '0'));
    }
    padded.append(text.as_str());
    if len >= digits as usize {
        assert(padded@ =~= dec);
    } else {
        assert(padded@ =~= zero_pad(dec, digits as nat));
    }
    padded
}

proof fn lemma_pow10_bound(k: nat)
    requires
        k < 9,
    ensures
        pow10(k) <= 100000000,
{
    reveal_with_fuel(pow10, 10);
    if k == 0 {
    } else if k == 1 {
    } else if k == 2 {
    } else if k == 3 {
    } else if k == 4 {
    } else if k == 5 {
    } else if k == 6 {
    } else if k == 7 {
    } else {
        assert(k == 8);
    }
}

/// Codes produced by `hotp` consist of ASCII digits only.
pub proof fn lemma_hotp_code_digits(seed: Seq<u8>, counter: u64, digits: nat)
    ensures
        all_digits(hotp_code(seed, counter, digits)),
{
    let n = (truncate_tag(hmac_sha1_tag(seed, be_u64(counter))) as nat) % pow10(digits);
    lemma_decimal_digits(n);
    let d = decimal(n);
    let z = zero_pad(d, digits);
    assert forall|i: int| 0 <= i < z.len() implies is_ascii_digit(#[trigger] z[i]) by {
        if d.len() < digits {
            let pad = Seq::new((digits - d.len()) as nat, |j: int| '0');
            if i < pad.len() {
                assert(z[i] == pad[i]);
            } else {
                assert(z[i] == d[i - pad.len()]);
            }
        }
    }
}

/// Decimal representations consist of ASCII digits only.
pub proof fn lemma_decimal_digits(n: nat)
    ensures
        all_digits(decimal(n)),
        decimal(n).len() >= 1,
    decreases n,
{
    if n >= 10 {
        lemma_decimal_digits(n / 10);
    }
}

/// The code for the time window containing `now_unix_seconds`.
pub fn current_code(seed: &[u8], period_seconds: u64, now_unix_seconds: u64) -> (r: RcwResult<String>)
    ensures
        r is Ok <==> period_seconds > 0,
        r matches Ok(code) ==> code@ == hotp_code(
            seed@,
            now_unix_seconds / period_seconds,
            DEFAULT_TOTP_DIGITS as nat,
        ),
        r matches Err(e) ==> e@ == (
            RcwErrorKind::InvalidConfig,
            "TOTP period must be greater than zero"@,
        ),
{
    if period_seconds == 0 {
        return Err(RcwError::InvalidConfig("TOTP period must be greater than zero".to_owned()));
    }
    let counter = now_unix_seconds / period_seconds;
    Ok(hotp(seed, counter, DEFAULT_TOTP_DIGITS))
}

/// The time window `now` falls in, as the signed counter verification walks from.
pub open spec fn window_of(now: u64, period: u64) -> int {
    ((now / period) as i64) as int
}

/// The window `offset` away from the current one is non-negative and its code is `code`.
pub open spec fn matches_window(code: Seq<char>, seed: Seq<u8>, current: int, offset: int) -> bool {
    current + offset >= 0 && hotp_code(seed, (current + offset) as u64, DEFAULT_TOTP_DIGITS as nat)
        == code
}

/// `code` is accepted at `now`: it is all digits and equals the code of some
/// non-negative window within `skew` windows of the current one.
pub open spec fn code_accepted(code: Seq<char>, seed: Seq<u8>, period: u64, now: u64, skew: i64) -> bool {
    &&& all_digits(code)
    &&& exists|offset: int|
        -skew <= offset <= skew && #[trigger] matches_window(code, seed, window_of(now, period), offset)
}

/// Checks a code against the current window and `skew_windows` on each side.
pub fn verify_code(
    code: &str,
    seed: &[u8],
    period_seconds: u64,
    now_unix_seconds: u64,
    skew_windows: i64,
) -> (r: RcwResult<bool>)
    requires
        period_seconds > 0,
        skew_windows > i64::MIN,
        window_of(now_unix_seconds, period_seconds) + skew_windows <= i64::MAX,
        window_of(now_unix_seconds, period_seconds) - skew_windows >= i64::MIN,
    ensures
        r == Ok::<bool, RcwError>(code_accepted(code@, seed@, period_seconds, now_unix_seconds, skew_windows)),
{
    let chars = crate::text::to_chars(code);
    let n = chars.len();
    let mut i: usize = 0;
    while i < n
        invariant
            chars@ == code@,
            n == code@.len(),
            i <= n,
            forall|j: int| 0 <= j < i ==> is_ascii_digit(#[trigger] code@[j]),
        decreases n - i,
    {
        let c = chars[i];
        if !('0' <= c && c <= '9') {
            return Ok(false);
        }
        i = i + 1;
    }
    let current = (now_unix_seconds / period_seconds) as i64;
    let ghost w = window_of(now_unix_seconds, period_seconds);
    assert(current as int == w);
    if skew_windows < 0 {
        return Ok(false);
    }
    let mut offset: i64 = -skew_windows;
    loop
        invariant
            current as int == w,
            w == window_of(now_unix_seconds, period_seconds),
            skew_windows >= 0,
            -skew_windows <= offset <= skew_windows,
            w + skew_windows <= i64::MAX,
            w - skew_windows >= i64::MIN,
            all_digits(code@),
            forall|o: int|
                -skew_windows <= o < offset ==> !#[trigger] matches_window(code@, seed@, w, o),
        decreases skew_windows - offset,
    {
        let counter = current + offset;
        if counter >= 0 {
            let candidate = hotp(seed, counter as u64, DEFAULT_TOTP_DIGITS);
            if str_eq(candidate.as_str(), code) {
                assert(matches_window(
                    code@,
                    seed@,
                    window_of(now_unix_seconds, period_seconds),
                    offset as int,
                ));
                return Ok(true);
            }
        }
        assert(!matches_window(code@, seed@, w, offset as int));
        if offset == skew_windows {
            assert(!code_accepted(code@, seed@, period_seconds, now_unix_seconds, skew_windows));
            return Ok(false);
        }
        offset = offset + 1;
    }
}

/// A code generated for the window of `generated_at` is accepted at any time
/// whose window lies within `skew` windows of it.
pub proof fn lemma_current_code_accepted(
    seed: Seq<u8>,
    period: u64,
    generated_at: u64,
    checked_at: u64,
    skew: i64,
)
    requires
        period > 0,
        generated_at / period <= i64::MAX,
        checked_at / period <= i64::MAX,
        skew >= 0,
        (checked_at / period) - skew <= generated_at / period <= (checked_at / period) + skew,
    ensures
        code_accepted(
            hotp_code(seed, generated_at / period, DEFAULT_TOTP_DIGITS as nat),
            seed,
            period,
            checked_at,
            skew,
        ),
{
    lemma_hotp_code_digits(seed, generated_at / period, DEFAULT_TOTP_DIGITS as nat);
    let w = window_of(checked_at, period);
    assert(w == checked_at / period);
    let offset = (generated_at / period) - w;
    assert(matches_window(
        hotp_code(seed, generated_at / period, DEFAULT_TOTP_DIGITS as nat),
        seed,
        w,
        offset,
    ));
}

} // verus!
