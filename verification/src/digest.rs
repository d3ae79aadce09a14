use vstd::prelude::*;

verus! {

/// SHA-256 digest of a byte string (computed by the `sha2` crate).
pub uninterp spec fn sha256_digest(data: Seq<u8>) -> Seq<u8>;

/// HMAC-SHA1 tag of `message` under `key` (computed by the `hmac` and `sha1` crates).
pub uninterp spec fn hmac_sha1_tag(key: Seq<u8>, message: Seq<u8>) -> Seq<u8>;

/// `sha2::Sha256::digest`: the SHA-256 digest of `data`, which is 32 bytes long.
#[verifier::external_body]
pub(crate) fn sha256(data: &[u8]) -> (r: Vec<u8>)
    ensures
        r@ == sha256_digest(data@),
        r@.len() == 32,
{
    <sha2::Sha256 as sha2::Digest>::digest(data).to_vec()
}

/// `hmac::Hmac<sha1::Sha1>` keyed with `key` over `message`: the 20-byte tag.
/// The crate accepts keys of any length.
#[verifier::external_body]
pub(crate) fn hmac_sha1(key: &[u8], message: &[u8]) -> (r: Vec<u8>)
    ensures
        r@ == hmac_sha1_tag(key@, message@),
        r@.len() == 20,
{
    let mut mac = <hmac::Hmac<sha1::Sha1> as hmac::Mac>::new_from_slice(key)
        .expect("HMAC accepts any key length");
    hmac::Mac::update(&mut mac, message);
    hmac::Mac::finalize(mac).into_bytes().to_vec()
}

/// Lower-case hexadecimal digit for a nibble.
pub open spec fn hex_digit_lower(n: u8) -> char {
    if n < 10 { ('0' as u8 + n) as char } else { ('a' as u8 + (n - 10)) as char }
}

/// Upper-case hexadecimal digit for a nibble.
pub open spec fn hex_digit_upper(n: u8) -> char {
    if n < 10 { ('0' as u8 + n) as char } else { ('A' as u8 + (n - 10)) as char }
}

/// Lower-case hex encoding: two digits per byte, high nibble first.
pub open spec fn hex_lower(data: Seq<u8>) -> Seq<char>
    decreases data.len(),
{
    if data.len() == 0 {
        seq![]
    } else {
        seq![hex_digit_lower(data[0] / 16), hex_digit_lower(data[0] % 16)] + hex_lower(data.drop_first())
    }
}

/// Upper-case hex encoding: two digits per byte, high nibble first.
pub open spec fn hex_upper(data: Seq<u8>) -> Seq<char>
    decreases data.len(),
{
    if data.len() == 0 {
        seq![]
    } else {
        seq![hex_digit_upper(data[0] / 16), hex_digit_upper(data[0] % 16)] + hex_upper(data.drop_first())
    }
}

/// `hex::encode`: lower-case hex digits, two per byte.
#[verifier::external_body]
pub(crate) fn hex_encode(data: &[u8]) -> (r: String)
    ensures
        r@ == hex_lower(data@),
{
    hex::encode(data)
}

/// `hex::encode_upper`: upper-case hex digits, two per byte.
#[verifier::external_body]
pub(crate) fn hex_encode_upper(data: &[u8]) -> (r: String)
    ensures
        r@ == hex_upper(data@),
{
    hex::encode_upper(data)
}

pub proof fn lemma_hex_len(data: Seq<u8>)
    ensures
        hex_lower(data).len() == 2 * data.len(),
        hex_upper(data).len() == 2 * data.len(),
    decreases data.len(),
{
    if data.len() > 0 {
        lemma_hex_len(data.drop_first());
    }
}

/// An upper-case hexadecimal digit.
pub open spec fn is_upper_hex_digit(c: char) -> bool {
    ('0' <= c && c <= '9') || ('A' <= c && c <= 'F')
}

/// Upper-case hex encoding uses only the digits `0`-`9` and `A`-`F`.
pub proof fn lemma_hex_upper_digits(data: Seq<u8>)
    ensures
        forall|i: int| 0 <= i < hex_upper(data).len() ==> is_upper_hex_digit(#[trigger] hex_upper(data)[i]),
    decreases data.len(),
{
    lemma_hex_len(data);
    if data.len() > 0 {
        lemma_hex_upper_digits(data.drop_first());
        let hi = data[0] / 16;
        let lo = data[0] % 16;
        assert(is_upper_hex_digit(hex_digit_upper(hi)));
        assert(is_upper_hex_digit(hex_digit_upper(lo)));
        let head = seq![hex_digit_upper(hi), hex_digit_upper(lo)];
        let tail = hex_upper(data.drop_first());
        assert forall|i: int| 0 <= i < (head + tail).len() implies is_upper_hex_digit(#[trigger] (head + tail)[i]) by {
            if i >= 2 {
                assert((head + tail)[i] == tail[i - 2]);
            }
        }
    }
}

} // verus!
