use vstd::prelude::*;
use crate::digest::{hex_encode, hex_encode_upper, hex_lower, hex_upper, lemma_hex_len, sha256, sha256_digest};
use crate::totp::os_random_bytes;

verus! {

/// The 128-bit value a Crockford base32 ULID string denotes, if it is one
/// (as decoded by the `ulid` crate).
pub uninterp spec fn ulid_decode(text: Seq<char>) -> Option<u128>;

/// The canonical 26-character Crockford base32 text of a ULID value.
pub uninterp spec fn ulid_encode(value: u128) -> Seq<char>;

/// `ulid::Ulid::from_string`: the ULID value `text` denotes, or the decoder's
/// error message.
#[verifier::external_body]
pub(crate) fn ulid_parse(text: &str) -> (r: Result<u128, String>)
    ensures
        r is Ok <==> ulid_decode(text@) is Some,
        r matches Ok(v) ==> ulid_decode(text@) == Some(v),
{
    ulid::Ulid::from_string(text).map(|u| u.0).map_err(|e| e.to_string())
}

/// `ulid::Ulid::to_string`: the canonical text of `value`; it is 26
/// characters long and decodes back to `value`.
#[verifier::external_body]
pub(crate) fn ulid_text(value: u128) -> (r: String)
    ensures
        r@ == ulid_encode(value),
        r@.len() == 26,
        ulid_decode(r@) == Some(value),
{
    ulid::Ulid(value).to_string()
}


/// `ulid::Ulid::new`: a fresh identifier made of the current time and random bits.
/// Nothing is stated of the value, which depends on the clock and the generator.
#[verifier::external_body]
fn ulid_new() -> (r: u128) {
    ulid::Ulid::new().0
}

/// A fresh request id: the text of a new ULID.
pub fn new_request_id() -> (r: String)
    ensures
        r@.len() == 26,
        exists|v: u128| r@ == ulid_encode(v) && ulid_decode(r@) == Some(v),
{
    let v = ulid_new();
    ulid_text(v)
}

/// A fresh session id: the text of a new ULID.
pub fn new_session_id() -> (r: String)
    ensures
        r@.len() == 26,
        exists|v: u128| r@ == ulid_encode(v) && ulid_decode(r@) == Some(v),
{
    let v = ulid_new();
    ulid_text(v)
}

/// The URL-safe base64 alphabet (RFC 4648, section 5).
pub open spec fn b64_url_char(n: u8) -> char {
    if n < 26 {
        ('A' as u8 + n) as char
    } else if n < 52 {
        ('a' as u8 + (n - 26)) as char
    } else if n < 62 {
        ('0' as u8 + (n - 52)) as char
    } else if n == 62 {
        '-'
    } else {
        '_'
    }
}

/// URL-safe base64 without padding: each 3 bytes become 4 characters, a final
/// 2 bytes become 3 and a final byte becomes 2.
pub open spec fn b64_url_nopad(data: Seq<u8>) -> Seq<char>
    decreases data.len(),
{
    if data.len() == 0 {
        seq![]
    } else if data.len() == 1 {
        seq![b64_url_char(data[0] >> 2u8), b64_url_char(((data[0] & 3u8) << 4u8) as u8)]
    } else if data.len() == 2 {
        seq![
            b64_url_char(data[0] >> 2u8),
            b64_url_char((((data[0] & 3u8) << 4u8) | (data[1] >> 4u8)) as u8),
            b64_url_char(((data[1] & 15u8) << 2u8) as u8),
        ]
    } else {
        seq![
            b64_url_char(data[0] >> 2u8),
            b64_url_char((((data[0] & 3u8) << 4u8) | (data[1] >> 4u8)) as u8),
            b64_url_char((((data[1] & 15u8) << 2u8) | (data[2] >> 6u8)) as u8),
            b64_url_char(data[2] & 63u8),
        ] + b64_url_nopad(data.subrange(3, data.len() as int))
    }
}

/// A character of the URL-safe base64 alphabet.
pub open spec fn is_url_safe_char(c: char) -> bool {
    ('A' <= c <= 'Z') || ('a' <= c <= 'z') || ('0' <= c <= '9') || c == '-' || c == '_'
}

/// URL-safe base64 output uses only the URL-safe alphabet: no `+`, `/` or `=`.
pub proof fn lemma_b64_url_safe(data: Seq<u8>)
    ensures
        forall|i: int| 0 <= i < b64_url_nopad(data).len() ==> is_url_safe_char(#[trigger] b64_url_nopad(data)[i]),
    decreases data.len(),
{
    assert forall|n: u8| n < 64 implies is_url_safe_char(#[trigger] b64_url_char(n)) by {}
    if data.len() >= 3 {
        let d0 = data[0];
        let d1 = data[1];
        let d2 = data[2];
        assert((d0 >> 2u8) < 64) by (bit_vector);
        assert(((((d0 & 3u8) << 4u8) | (d1 >> 4u8)) as u8) < 64) by (bit_vector);
        assert(((((d1 & 15u8) << 2u8) | (d2 >> 6u8)) as u8) < 64) by (bit_vector);
        assert((d2 & 63u8) < 64) by (bit_vector);
        lemma_b64_url_safe(data.subrange(3, data.len() as int));
        let head = seq![
            b64_url_char(d0 >> 2u8),
            b64_url_char((((d0 & 3u8) << 4u8) | (d1 >> 4u8)) as u8),
            b64_url_char((((d1 & 15u8) << 2u8) | (d2 >> 6u8)) as u8),
            b64_url_char(d2 & 63u8),
        ];
        let tail = b64_url_nopad(data.subrange(3, data.len() as int));
        assert forall|i: int| 0 <= i < (head + tail).len() implies is_url_safe_char(#[trigger] (head + tail)[i]) by {
            if i >= 4 {
                assert((head + tail)[i] == tail[i - 4]);
            }
        }
    } else if data.len() == 2 {
        let d0 = data[0];
        let d1 = data[1];
        assert((d0 >> 2u8) < 64) by (bit_vector);
        assert(((((d0 & 3u8) << 4u8) | (d1 >> 4u8)) as u8) < 64) by (bit_vector);
        assert((((d1 & 15u8) << 2u8) as u8) < 64) by (bit_vector);
    } else if data.len() == 1 {
        let d0 = data[0];
        assert((d0 >> 2u8) < 64) by (bit_vector);
        assert((((d0 & 3u8) << 4u8) as u8) < 64) by (bit_vector);
    }
}

/// `base64::engine::general_purpose::URL_SAFE_NO_PAD.encode`.
#[verifier::external_body]
fn base64_url_encode(data: &[u8]) -> (r: String)
    ensures
        r@ == b64_url_nopad(data@),
{
    base64::Engine::encode(&base64::engine::general_purpose::URL_SAFE_NO_PAD, data)
}

/// A fresh secret session token: 32 random bytes in URL-safe base64.
pub fn new_session_token() -> (r: String)
    ensures
        exists|bytes: Seq<u8>| bytes.len() == 32 && r@ == b64_url_nopad(bytes),
{
    let bytes = os_random_bytes(32);
    base64_url_encode(bytes.as_slice())
}

/// A fresh host id: `host_` and 32 random bytes in URL-safe base64.
pub fn new_host_id() -> (r: String)
    ensures
        exists|bytes: Seq<u8>| bytes.len() == 32 && r@ == "host_"@ + b64_url_nopad(bytes),
{
    let bytes = os_random_bytes(32);
    let mut r = "host_".to_owned();
    let encoded = base64_url_encode(bytes.as_slice());
    r.append(encoded.as_str());
    r
}

/// The namespace hashed in front of the machine material.
pub const MACHINE_ID_NAMESPACE: &'static str = "remote-control-for-windows/machine-id/v1";

/// `XXXX-XXXX-XXXX`: the first six bytes of SHA-256(namespace ++ material) in
/// upper-case hex, in three groups.
pub open spec fn short_machine_id_spec(material: Seq<u8>) -> Seq<char> {
    let hex = hex_upper(sha256_digest(MACHINE_ID_NAMESPACE@.map_values(|c: char| c as u8) + material).subrange(0, 6));
    hex.subrange(0, 4) + "-"@ + hex.subrange(4, 8) + "-"@ + hex.subrange(8, 12)
}

/// `XXXX-XXXX-XXXX` with each `X` an upper-case hexadecimal digit.
pub open spec fn is_machine_id_shape(s: Seq<char>) -> bool {
    &&& s.len() == 14
    &&& s[4] == '-' && s[9] == '-'
    &&& forall|i: int| 0 <= i < 14 && i != 4 && i != 9 ==> crate::digest::is_upper_hex_digit(#[trigger] s[i])
}

/// A short, stable id derived from machine material without revealing it.
pub fn short_machine_id(stable_material: &[u8]) -> (r: String)
    ensures
        r@ == short_machine_id_spec(stable_material@),
        r@.len() == 14,
        is_machine_id_shape(r@),
{
    let mut input: Vec<u8> = Vec::new();
    let ns = MACHINE_ID_NAMESPACE.as_bytes();
    let mut i: usize = 0;
    proof {
        reveal_strlit("remote-control-for-windows/machine-id/v1");
        vstd::string::is_ascii_spec_bytes(MACHINE_ID_NAMESPACE);
    }
    assert(ns@ =~= MACHINE_ID_NAMESPACE@.map_values(|c: char| c as u8)) by {
        assert(vstd::string::is_ascii(MACHINE_ID_NAMESPACE));
    }
    while i < ns.len()
        invariant
            i <= ns@.len(),
            input@ == ns@.subrange(0, i as int),
        decreases ns@.len() - i,
    {
        input.push(ns[i]);
        i = i + 1;
        assert(input@ =~= ns@.subrange(0, i as int));
    }
    let mut j: usize = 0;
    while j < stable_material.len()
        invariant
            j <= stable_material@.len(),
            input@ == ns@ + stable_material@.subrange(0, j as int),
        decreases stable_material@.len() - j,
    {
        input.push(stable_material[j]);
        j = j + 1;
        assert(input@ =~= ns@ + stable_material@.subrange(0, j as int));
    }
    assert(stable_material@.subrange(0, stable_material@.len() as int) =~= stable_material@);
    let digest = sha256(input.as_slice());
    let mut first: Vec<u8> = Vec::new();
    let mut k: usize = 0;
    while k < 6
        invariant
            k <= 6,
            digest@.len() == 32,
            first@ == digest@.subrange(0, k as int),
        decreases 6 - k,
    {
        first.push(digest[k]);
        k = k + 1;
        assert(first@ =~= digest@.subrange(0, k as int));
    }
    let hex = hex_encode_upper(first.as_slice());
    proof {
        lemma_hex_len(first@);
    }
    let chars = crate::text::to_chars(hex.as_str());
    let mut out = crate::text::from_chars(crate::text::slice_chars(&chars, 0, 4).as_slice());
    out.append("-");
    let mid = crate::text::from_chars(crate::text::slice_chars(&chars, 4, 8).as_slice());
    out.append(mid.as_str());
    out.append("-");
    let last = crate::text::from_chars(crate::text::slice_chars(&chars, 8, 12).as_slice());
    out.append(last.as_str());
    proof {
        reveal_strlit("-");
        crate::digest::lemma_hex_upper_digits(first@);
        let h = hex_upper(first@);
        assert forall|i: int| 0 <= i < 14 && i != 4 && i != 9 implies crate::digest::is_upper_hex_digit(
            #[trigger] out@[i],
        ) by {
            if i < 4 {
                assert(out@[i] == h[i]);
            } else if i < 9 {
                assert(out@[i] == h[i - 1]);
            } else {
                assert(out@[i] == h[i - 2]);
            }
        }
    }
    out
}

/// `token:` and the first four bytes of the token's SHA-256 in lower-case hex.
pub open spec fn token_label_spec(token: Seq<char>) -> Seq<char> {
    "token:"@ + hex_lower(sha256_digest(vstd::utf8::encode_utf8(token)).subrange(0, 4))
}

/// A label that names a token in logs without revealing it.
pub fn token_label(token: &str) -> (r: String)
    ensures
        r@ == token_label_spec(token@),
{
    let digest = sha256(token.as_bytes());
    let mut first: Vec<u8> = Vec::new();
    let mut k: usize = 0;
    while k < 4
        invariant
            k <= 4,
            digest@.len() == 32,
            first@ == digest@.subrange(0, k as int),
        decreases 4 - k,
    {
        first.push(digest[k]);
        k = k + 1;
        assert(first@ =~= digest@.subrange(0, k as int));
    }
    let mut r = "token:".to_owned();
    let hex = hex_encode(first.as_slice());
    r.append(hex.as_str());
    r
}


/// A fresh tunnel id: the text of a new ULID.
pub fn new_tunnel_id() -> (r: String)
    ensures
        r@.len() == 26,
        exists|v: u128| r@ == ulid_encode(v) && ulid_decode(r@) == Some(v),
{
    let v = ulid_new();
    ulid_text(v)
}

} // verus!

