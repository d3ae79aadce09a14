use vstd::prelude::*;
use crate::text::push_char;

verus! {

/// Big-endian bytes of a `u32`.
pub open spec fn be_u32(v: u32) -> Seq<u8> {
    seq![(v >> 24u32) as u8, (v >> 16u32) as u8, (v >> 8u32) as u8, v as u8]
}

/// The `u32` whose big-endian bytes are the first four of `b`.
pub open spec fn u32_from_be(b: Seq<u8>) -> u32 {
    u32_from_be4(b[0], b[1], b[2], b[3])
}

pub open spec fn u32_from_be4(b0: u8, b1: u8, b2: u8, b3: u8) -> u32 {
    ((b0 as u32) << 24u32) | ((b1 as u32) << 16u32) | ((b2 as u32) << 8u32) | (b3 as u32)
}

/// Big-endian bytes of a `u64`.
pub open spec fn be_u64(v: u64) -> Seq<u8> {
    seq![
        (v >> 56u64) as u8, (v >> 48u64) as u8, (v >> 40u64) as u8, (v >> 32u64) as u8,
        (v >> 24u64) as u8, (v >> 16u64) as u8, (v >> 8u64) as u8, v as u8,
    ]
}

pub open spec fn u64_from_be8(b0: u8, b1: u8, b2: u8, b3: u8, b4: u8, b5: u8, b6: u8, b7: u8) -> u64 {
    ((b0 as u64) << 56u64) | ((b1 as u64) << 48u64) | ((b2 as u64) << 40u64) | ((b3 as u64) << 32u64)
        | ((b4 as u64) << 24u64) | ((b5 as u64) << 16u64) | ((b6 as u64) << 8u64) | (b7 as u64)
}

/// The `u64` whose big-endian bytes are the first eight of `b`.
pub open spec fn u64_from_be(b: Seq<u8>) -> u64 {
    u64_from_be8(b[0], b[1], b[2], b[3], b[4], b[5], b[6], b[7])
}

/// Big-endian bytes of a `u128`.
pub open spec fn be_u128(v: u128) -> Seq<u8> {
    be_u64((v >> 64u128) as u64) + be_u64(v as u64)
}

/// The `u128` whose big-endian bytes are the first sixteen of `b`.
pub open spec fn u128_from_be(b: Seq<u8>) -> u128 {
    ((u64_from_be(b) as u128) << 64u128) | (u64_from_be(b.subrange(8, 16)) as u128)
}

/// Four bytes read as a big-endian `u32` and written back are the same bytes.
pub proof fn lemma_be_u32_of_bytes(b: Seq<u8>)
    requires
        b.len() == 4,
    ensures
        be_u32(u32_from_be(b)) == b,
{
    let (b0, b1, b2, b3) = (b[0], b[1], b[2], b[3]);
    let v = u32_from_be4(b0, b1, b2, b3);
    assert((v >> 24u32) as u8 == b0 && (v >> 16u32) as u8 == b1 && (v >> 8u32) as u8 == b2 && v as u8 == b3)
        by (bit_vector)
        requires
            v == ((b0 as u32) << 24u32) | ((b1 as u32) << 16u32) | ((b2 as u32) << 8u32) | (b3 as u32),
    ;
    assert(be_u32(v) =~= b);
}

/// Eight bytes read as a big-endian `u64` and written back are the same bytes.
pub proof fn lemma_be_u64_of_bytes(b: Seq<u8>)
    requires
        b.len() == 8,
    ensures
        be_u64(u64_from_be(b)) == b,
{
    let (b0, b1, b2, b3, b4, b5, b6, b7) = (b[0], b[1], b[2], b[3], b[4], b[5], b[6], b[7]);
    let v = u64_from_be8(b0, b1, b2, b3, b4, b5, b6, b7);
    assert((v >> 56u64) as u8 == b0 && (v >> 48u64) as u8 == b1 && (v >> 40u64) as u8 == b2 && (v >> 32u64) as u8
        == b3 && (v >> 24u64) as u8 == b4 && (v >> 16u64) as u8 == b5 && (v >> 8u64) as u8 == b6 && v as u8 == b7)
        by (bit_vector)
        requires
            v == ((b0 as u64) << 56u64) | ((b1 as u64) << 48u64) | ((b2 as u64) << 40u64) | ((b3 as u64) << 32u64)
                | ((b4 as u64) << 24u64) | ((b5 as u64) << 16u64) | ((b6 as u64) << 8u64) | (b7 as u64),
    ;
    assert(be_u64(v) =~= b);
}

/// Sixteen bytes read as a big-endian `u128` and written back are the same
/// bytes.
pub proof fn lemma_be_u128_of_bytes(b: Seq<u8>)
    requires
        b.len() == 16,
    ensures
        be_u128(u128_from_be(b)) == b,
{
    let hi = u64_from_be(b);
    let lo = u64_from_be(b.subrange(8, 16));
    let v = u128_from_be(b);
    assert((v >> 64u128) as u64 == hi && v as u64 == lo) by (bit_vector)
        requires
            v == ((hi as u128) << 64u128) | (lo as u128),
    ;
    lemma_be_u64_of_bytes(b.subrange(0, 8));
    lemma_be_u64_of_bytes(b.subrange(8, 16));
    assert(u64_from_be(b.subrange(0, 8)) == hi);
    assert(b.subrange(0, 8) + b.subrange(8, 16) =~= b);
}

pub proof fn lemma_u32_round_trip(v: u32)
    ensures
        be_u32(v).len() == 4,
        u32_from_be(be_u32(v)) == v,
{
    assert(u32_from_be4((v >> 24u32) as u8, (v >> 16u32) as u8, (v >> 8u32) as u8, v as u8) == v)
        by (bit_vector);
}

pub proof fn lemma_u64_round_trip(v: u64)
    ensures
        be_u64(v).len() == 8,
        u64_from_be(be_u64(v)) == v,
{
    assert(u64_from_be8(
        (v >> 56u64) as u8, (v >> 48u64) as u8, (v >> 40u64) as u8, (v >> 32u64) as u8,
        (v >> 24u64) as u8, (v >> 16u64) as u8, (v >> 8u64) as u8, v as u8,
    ) == v) by (bit_vector);
}

pub proof fn lemma_u128_round_trip(v: u128)
    ensures
        be_u128(v).len() == 16,
        u128_from_be(be_u128(v)) == v,
{
    let hi = (v >> 64u128) as u64;
    let lo = v as u64;
    lemma_u64_round_trip(hi);
    lemma_u64_round_trip(lo);
    let b = be_u128(v);
    assert(b.subrange(8, 16) =~= be_u64(lo));
    assert(u64_from_be(b) == u64_from_be(be_u64(hi)));
    assert((((hi as u128) << 64u128) | (lo as u128)) == v) by (bit_vector)
        requires
            hi == (v >> 64u128) as u64,
            lo == v as u64,
    ;
}

/// Appends the big-endian bytes of `v`.
pub fn push_be_u32(out: &mut Vec<u8>, v: u32)
    ensures
        final(out)@ == old(out)@ + be_u32(v),
{
    out.push((v >> 24u32) as u8);
    out.push((v >> 16u32) as u8);
    out.push((v >> 8u32) as u8);
    out.push(v as u8);
    assert(final(out)@ =~= old(out)@ + be_u32(v));
}

/// Appends the big-endian bytes of `v`.
pub fn push_be_u64(out: &mut Vec<u8>, v: u64)
    ensures
        final(out)@ == old(out)@ + be_u64(v),
{
    out.push((v >> 56u64) as u8);
    out.push((v >> 48u64) as u8);
    out.push((v >> 40u64) as u8);
    out.push((v >> 32u64) as u8);
    out.push((v >> 24u64) as u8);
    out.push((v >> 16u64) as u8);
    out.push((v >> 8u64) as u8);
    out.push(v as u8);
    assert(final(out)@ =~= old(out)@ + be_u64(v));
}

/// Appends the big-endian bytes of `v`.
pub fn push_be_u128(out: &mut Vec<u8>, v: u128)
    ensures
        final(out)@ == old(out)@ + be_u128(v),
{
    push_be_u64(out, (v >> 64u128) as u64);
    push_be_u64(out, v as u64);
    assert(final(out)@ =~= old(out)@ + be_u128(v));
}

/// Reads a big-endian `u32` at `at`.
pub fn read_be_u32(b: &[u8], at: usize) -> (r: u32)
    requires
        at + 4 <= b@.len(),
    ensures
        r == u32_from_be(b@.subrange(at as int, at + 4)),
{
    u32_from_be4_exec(b[at], b[at + 1], b[at + 2], b[at + 3])
}

fn u32_from_be4_exec(b0: u8, b1: u8, b2: u8, b3: u8) -> (r: u32)
    ensures
        r == u32_from_be4(b0, b1, b2, b3),
{
    ((b0 as u32) << 24u32) | ((b1 as u32) << 16u32) | ((b2 as u32) << 8u32) | (b3 as u32)
}

fn read_be_u64(b: &[u8], at: usize) -> (r: u64)
    requires
        at + 8 <= b@.len(),
    ensures
        r == u64_from_be(b@.subrange(at as int, at + 8)),
{
    ((b[at] as u64) << 56u64) | ((b[at + 1] as u64) << 48u64) | ((b[at + 2] as u64) << 40u64)
        | ((b[at + 3] as u64) << 32u64) | ((b[at + 4] as u64) << 24u64) | ((b[at + 5] as u64)
        << 16u64) | ((b[at + 6] as u64) << 8u64) | (b[at + 7] as u64)
}

/// Reads a big-endian `u128` at `at`.
pub fn read_be_u128(b: &[u8], at: usize) -> (r: u128)
    requires
        at + 16 <= b@.len(),
    ensures
        r == u128_from_be(b@.subrange(at as int, at + 16)),
{
    let _len = b.len();
    let hi = read_be_u64(b, at);
    let lo = read_be_u64(b, at + 8);
    assert(b@.subrange(at as int, at + 16).subrange(8, 16) =~= b@.subrange(at + 8, at + 16));
    assert(b@.subrange(at as int, at + 16).subrange(0, 8) =~= b@.subrange(at as int, at + 8));
    ((hi as u128) << 64u128) | (lo as u128)
}

/// The decimal digit character for `d`.
pub open spec fn digit_char(d: nat) -> char {
    if d == 0 { '0' } else if d == 1 { '1' } else if d == 2 { '2' } else if d == 3 { '3' }
    else if d == 4 { '4' } else if d == 5 { '5' } else if d == 6 { '6' } else if d == 7 { '7' }
    else if d == 8 { '8' } else { '9' }
}

/// Decimal representation of a natural number, without leading zeros.
pub open spec fn decimal(n: nat) -> Seq<char>
    decreases n,
{
    if n < 10 {
        seq![digit_char(n)]
    } else {
        decimal(n / 10).push(digit_char(n % 10))
    }
}

/// Decimal representation of an integer, with a leading `-` when negative.
pub open spec fn signed_decimal(v: int) -> Seq<char> {
    if v < 0 {
        seq!['-'] + decimal((-v) as nat)
    } else {
        decimal(v as nat)
    }
}

/// Whether `c` is one of `0`..`9`.
pub open spec fn is_ascii_digit(c: char) -> bool {
    '0' <= c && c <= '9'
}

/// Every character of `s` is an ASCII digit.
pub open spec fn all_digits(s: Seq<char>) -> bool {
    forall|i: int| 0 <= i < s.len() ==> is_ascii_digit(#[trigger] s[i])
}

pub fn digit(d: u64) -> (c: char)
    requires
        d < 10,
    ensures
        c == digit_char(d as nat),
        is_ascii_digit(c),
{
    if d == 0 { '0' } else if d == 1 { '1' } else if d == 2 { '2' } else if d == 3 { '3' }
    else if d == 4 { '4' } else if d == 5 { '5' } else if d == 6 { '6' } else if d == 7 { '7' }
    else if d == 8 { '8' } else { '9' }
}

/// Appends the decimal representation of `n`.
pub fn push_decimal(out: &mut String, n: u64)
    ensures
        final(out)@ == old(out)@ + decimal(n as nat),
    decreases n,
{
    if n < 10 {
        push_char(out, digit(n));
        assert(final(out)@ =~= old(out)@ + decimal(n as nat));
    } else {
        push_decimal(out, n / 10);
        push_char(out, digit(n % 10));
        assert(final(out)@ =~= old(out)@ + decimal(n as nat));
    }
}

/// Appends the decimal representation of `v`, with `-` when negative.
pub fn push_signed_decimal(out: &mut String, v: i64)
    ensures
        final(out)@ == old(out)@ + signed_decimal(v as int),
{
    if v < 0 {
        push_char(out, '-');
        let m: u64 = if v == i64::MIN { 9223372036854775808u64 } else { (-v) as u64 };
        push_decimal(out, m);
        assert(final(out)@ =~= old(out)@ + signed_decimal(v as int));
    } else {
        push_decimal(out, v as u64);
    }
}

/// The decimal representation of `n`.
pub fn decimal_string(n: u64) -> (r: String)
    ensures
        r@ == decimal(n as nat),
{
    let mut s = String::new();
    push_decimal(&mut s, n);
    s
}

} // verus!
