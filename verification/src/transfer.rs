use vstd::prelude::*;
use crate::bytes::{
    lemma_be_u128_of_bytes, lemma_be_u32_of_bytes,
    be_u128, be_u32, decimal, lemma_u128_round_trip, lemma_u32_round_trip, push_be_u128, push_be_u32,
    push_decimal, read_be_u128, read_be_u32, u128_from_be, u32_from_be,
};
use crate::digest::{hex_encode, hex_lower, sha256, sha256_digest};
use crate::error::{RcwError, RcwErrorKind, RcwResult};
use crate::ids::{ulid_decode, ulid_encode, ulid_parse, ulid_text};
use crate::text::concat2;

verus! {

/// Payload bytes carried by one binary frame.
pub const CHUNK_SIZE: usize = 65536;
/// kind (1) + request id (16) + sequence (4) + total (4) + payload length (4).
pub const BINARY_FRAME_HEADER_LEN: usize = 29;

/// What a binary frame carries.
#[derive(Debug, Clone, Copy, PartialEq, Eq, Structural)]
pub enum BinaryKind {
    UploadChunk,
    DownloadChunk,
    ScreenshotChunk,
}

/// The wire byte of each kind.
pub open spec fn kind_byte(kind: BinaryKind) -> u8 {
    match kind {
        BinaryKind::UploadChunk => 1,
        BinaryKind::DownloadChunk => 2,
        BinaryKind::ScreenshotChunk => 3,
    }
}

/// The kind a wire byte names, if any.
pub open spec fn kind_of_byte(b: u8) -> Option<BinaryKind> {
    if b == 1 {
        Some(BinaryKind::UploadChunk)
    } else if b == 2 {
        Some(BinaryKind::DownloadChunk)
    } else if b == 3 {
        Some(BinaryKind::ScreenshotChunk)
    } else {
        None
    }
}

impl BinaryKind {
    pub fn to_byte(self) -> (b: u8)
        ensures
            b == kind_byte(self),
            kind_of_byte(b) == Some(self),
    {
        match self {
            BinaryKind::UploadChunk => 1,
            BinaryKind::DownloadChunk => 2,
            BinaryKind::ScreenshotChunk => 3,
        }
    }

    /// Reads a kind from its wire byte.
    pub fn try_from_byte(value: u8) -> (r: RcwResult<BinaryKind>)
        ensures
            match r {
                Ok(k) => kind_of_byte(value) == Some(k),
                Err(e) => kind_of_byte(value) is None && e@ == (RcwErrorKind::Protocol, 
                    unsupported_kind_message(value),
                ),
            },
    {
        if value == 1 {
            Ok(BinaryKind::UploadChunk)
        } else if value == 2 {
            Ok(BinaryKind::DownloadChunk)
        } else if value == 3 {
            Ok(BinaryKind::ScreenshotChunk)
        } else {
            let mut m = "unsupported binary frame kind: ".to_owned();
            push_decimal(&mut m, value as u64);
            Err(RcwError::Protocol(m))
        }
    }
}

pub open spec fn unsupported_kind_message(value: u8) -> Seq<char> {
    "unsupported binary frame kind: "@ + decimal(value as nat)
}

/// One chunk of an upload, download or screenshot transfer.
#[derive(Debug, Clone)]
pub struct BinaryFrame {
    pub kind: BinaryKind,
    pub request_id: String,
    pub sequence: u32,
    pub total_sequences: u32,
    pub payload: Vec<u8>,
}

/// The encoding of a frame whose request id is the ULID `id`.
pub open spec fn frame_bytes(kind: BinaryKind, id: u128, sequence: u32, total: u32, payload: Seq<u8>) -> Seq<u8> {
    seq![kind_byte(kind)] + be_u128(id) + be_u32(sequence) + be_u32(total) + be_u32(
        payload.len() as u32,
    ) + payload
}

/// The payload length a frame header announces.
pub open spec fn header_payload_len(bytes: Seq<u8>) -> u32 {
    u32_from_be(bytes.subrange(25, 29))
}

/// Whether `bytes` is a well-formed frame.
pub open spec fn frame_well_formed(bytes: Seq<u8>) -> bool {
    &&& bytes.len() >= 29
    &&& kind_of_byte(bytes[0]) is Some
    &&& bytes.len() == 29 + header_payload_len(bytes)
}

pub open spec fn frame_error_message(bytes: Seq<u8>) -> Seq<char> {
    if bytes.len() < 29 {
        "binary frame is too short"@
    } else if kind_of_byte(bytes[0]) is None {
        unsupported_kind_message(bytes[0])
    } else {
        "binary frame payload length mismatch: header="@ + decimal(header_payload_len(bytes) as nat)
            + ", actual="@ + decimal((bytes.len() - 29) as nat)
    }
}

impl BinaryFrame {
    /// Serialises the frame; fails when the request id is not a ULID or the
    /// payload is longer than a `u32` length can describe.
    pub fn encode(&self) -> (r: RcwResult<Vec<u8>>)
        ensures
            r is Ok <==> (ulid_decode(self.request_id@) is Some && self.payload@.len() <= u32::MAX),
            r matches Ok(b) ==> b@ == frame_bytes(
                self.kind,
                ulid_decode(self.request_id@)->0,
                self.sequence,
                self.total_sequences,
                self.payload@,
            ),
            r matches Err(e) ==> e@.0 == RcwErrorKind::Protocol,
    {
        let id = match ulid_parse(self.request_id.as_str()) {
            Ok(id) => id,
            Err(msg) => {
                return Err(RcwError::Protocol(concat2("request_id is not a ULID: ", msg.as_str())));
            },
        };
        if self.payload.len() > 4294967295usize {
            return Err(
                RcwError::Protocol("binary frame payload is too large for u32 length".to_owned()),
            );
        }
        let payload_len = self.payload.len() as u32;
        let mut bytes: Vec<u8> = Vec::new();
        bytes.push(self.kind.to_byte());
        push_be_u128(&mut bytes, id);
        push_be_u32(&mut bytes, self.sequence);
        push_be_u32(&mut bytes, self.total_sequences);
        push_be_u32(&mut bytes, payload_len);
        let mut i: usize = 0;
        let ghost head = bytes@;
        while i < self.payload.len()
            invariant
                i <= self.payload@.len(),
                bytes@ == head + self.payload@.subrange(0, i as int),
            decreases self.payload@.len() - i,
        {
            bytes.push(self.payload[i]);
            i = i + 1;
            assert(bytes@ =~= head + self.payload@.subrange(0, i as int));
        }
        assert(self.payload@.subrange(0, self.payload@.len() as int) =~= self.payload@);
        assert(bytes@ =~= frame_bytes(self.kind, id, self.sequence, self.total_sequences, self.payload@));
        Ok(bytes)
    }

    /// Parses a frame, checking its kind and that its length matches its header.
    pub fn decode(bytes: &[u8]) -> (r: RcwResult<BinaryFrame>)
        ensures
            r is Ok <==> frame_well_formed(bytes@),
            r matches Ok(f) ==> decoded_as(bytes@, f),
            r matches Err(e) ==> e@ == (RcwErrorKind::Protocol, frame_error_message(bytes@)),
    {
        let n = bytes.len();
        if n < 29 {
            return Err(RcwError::Protocol("binary frame is too short".to_owned()));
        }
        let kind = BinaryKind::try_from_byte(bytes[0])?;
        let id = read_be_u128(bytes, 1);
        let request_id = ulid_text(id);
        let sequence = read_be_u32(bytes, 17);
        let total_sequences = read_be_u32(bytes, 21);
        let payload_len = read_be_u32(bytes, 25);
        if (n as u64) != 29u64 + (payload_len as u64) {
            let mut m = "binary frame payload length mismatch: header=".to_owned();
            push_decimal(&mut m, payload_len as u64);
            m.append(", actual=");
            push_decimal(&mut m, (n - 29) as u64);
            return Err(RcwError::Protocol(m));
        }
        let mut payload: Vec<u8> = Vec::new();
        let mut i: usize = 29;
        while i < n
            invariant
                n == bytes@.len(),
                29 <= i <= n,
                payload@ == bytes@.subrange(29, i as int),
            decreases n - i,
        {
            payload.push(bytes[i]);
            i = i + 1;
            assert(payload@ =~= bytes@.subrange(29, i as int));
        }
        Ok(BinaryFrame { kind, request_id, sequence, total_sequences, payload })
    }
}

/// `f` is what the frame `bytes` holds: its kind, the ULID text of its
/// request id (which decodes back to the id in the header), its sequence
/// numbers and its payload.
pub open spec fn decoded_as(bytes: Seq<u8>, f: BinaryFrame) -> bool {
    &&& kind_of_byte(bytes[0]) == Some(f.kind)
    &&& f.request_id@ == ulid_encode(u128_from_be(bytes.subrange(1, 17)))
    &&& ulid_decode(f.request_id@) == Some(u128_from_be(bytes.subrange(1, 17)))
    &&& f.sequence == u32_from_be(bytes.subrange(17, 21))
    &&& f.total_sequences == u32_from_be(bytes.subrange(21, 25))
    &&& f.payload@ == bytes.subrange(29, bytes.len() as int)
}

/// Encoding what a well-formed frame decodes to gives the frame's bytes
/// back: [`BinaryFrame::encode`] succeeds on it and returns `bytes`.
pub proof fn lemma_decode_then_encode(bytes: Seq<u8>, f: BinaryFrame)
    requires
        frame_well_formed(bytes),
        decoded_as(bytes, f),
    ensures
        ulid_decode(f.request_id@) is Some,
        f.payload@.len() <= u32::MAX,
        frame_bytes(f.kind, ulid_decode(f.request_id@)->0, f.sequence, f.total_sequences, f.payload@) == bytes,
{
    let n = bytes.len();
    lemma_be_u128_of_bytes(bytes.subrange(1, 17));
    lemma_be_u32_of_bytes(bytes.subrange(17, 21));
    lemma_be_u32_of_bytes(bytes.subrange(21, 25));
    lemma_be_u32_of_bytes(bytes.subrange(25, 29));
    assert(header_payload_len(bytes) == u32_from_be(bytes.subrange(25, 29)));
    assert(f.payload@.len() == header_payload_len(bytes));
    let b = frame_bytes(f.kind, ulid_decode(f.request_id@)->0, f.sequence, f.total_sequences, f.payload@);
    assert(b =~= bytes);
}

/// Decoding the encoding of a frame gives the frame back: the same kind,
/// sequence numbers and payload, and the canonical text of its request id,
/// which is the request id itself when that was written canonically.
pub proof fn lemma_encode_then_decode(f: BinaryFrame, id: u128, g: BinaryFrame)
    requires
        ulid_decode(f.request_id@) == Some(id),
        f.payload@.len() <= u32::MAX,
        decoded_as(frame_bytes(f.kind, id, f.sequence, f.total_sequences, f.payload@), g),
    ensures
        frame_well_formed(frame_bytes(f.kind, id, f.sequence, f.total_sequences, f.payload@)),
        frame_bytes(f.kind, id, f.sequence, f.total_sequences, f.payload@).len() == 29 + f.payload@.len(),
        g.kind == f.kind,
        g.sequence == f.sequence,
        g.total_sequences == f.total_sequences,
        g.payload@ == f.payload@,
        g.request_id@ == ulid_encode(id),
        ulid_encode(id) == f.request_id@ ==> g.request_id@ == f.request_id@,
{
    lemma_frame_round_trip(f.kind, id, f.sequence, f.total_sequences, f.payload@);
}

/// Decoding the encoding of a frame gives back its kind, sequence numbers,
/// payload and the ULID of its request id.
pub proof fn lemma_frame_round_trip(kind: BinaryKind, id: u128, sequence: u32, total: u32, payload: Seq<u8>)
    requires
        payload.len() <= u32::MAX,
    ensures
        frame_well_formed(frame_bytes(kind, id, sequence, total, payload)),
        ({
            let b = frame_bytes(kind, id, sequence, total, payload);
            &&& kind_of_byte(b[0]) == Some(kind)
            &&& u128_from_be(b.subrange(1, 17)) == id
            &&& u32_from_be(b.subrange(17, 21)) == sequence
            &&& u32_from_be(b.subrange(21, 25)) == total
            &&& b.subrange(29, b.len() as int) == payload
        }),
{
    let b = frame_bytes(kind, id, sequence, total, payload);
    lemma_u128_round_trip(id);
    lemma_u32_round_trip(sequence);
    lemma_u32_round_trip(total);
    lemma_u32_round_trip(payload.len() as u32);
    assert(b.subrange(1, 17) =~= be_u128(id));
    assert(b.subrange(17, 21) =~= be_u32(sequence));
    assert(b.subrange(21, 25) =~= be_u32(total));
    assert(b.subrange(25, 29) =~= be_u32(payload.len() as u32));
    assert(b.subrange(29, b.len() as int) =~= payload);
}

/// Number of frames a transfer of `len` bytes is split into (at least one).
pub open spec fn chunk_count(len: nat) -> nat {
    if len == 0 {
        1
    } else if len % (CHUNK_SIZE as nat) == 0 {
        len / (CHUNK_SIZE as nat)
    } else {
        len / (CHUNK_SIZE as nat) + 1
    }
}

/// Frame count for a transfer of `len` bytes; fails when it exceeds `u32`.
pub fn total_sequences_for_len(len: u64) -> (r: RcwResult<u32>)
    ensures
        r is Ok <==> chunk_count(len as nat) <= u32::MAX,
        r matches Ok(n) ==> n == chunk_count(len as nat),
        r matches Err(e) ==> e@ == (RcwErrorKind::Protocol, "too many chunks for u32 sequence count"@),
{
    let c: u64 = 65536;
    let total: u64 = if len == 0 {
        1
    } else if len % c == 0 {
        len / c
    } else {
        len / c + 1
    };
    if total > 4294967295u64 {
        Err(RcwError::Protocol("too many chunks for u32 sequence count".to_owned()))
    } else {
        Ok(total as u32)
    }
}

/// The bytes carried by frame `index` of a transfer of `data`.
pub open spec fn chunk_payload(data: Seq<u8>, index: nat) -> Seq<u8> {
    let start = index * (CHUNK_SIZE as nat);
    let end = if start + (CHUNK_SIZE as nat) <= data.len() { start + CHUNK_SIZE as nat } else { data.len() };
    if data.len() == 0 { seq![] } else { data.subrange(start as int, end as int) }
}

proof fn lemma_chunk_count_exact(n: nat, k: nat)
    requires
        n > 0,
        k > 0,
        (k - 1) * 65536 < n,
        n <= k * 65536,
    ensures
        chunk_count(n) == k,
{
    assert(chunk_count(n) == k) by (nonlinear_arith)
        requires
            n > 0,
            k > 0,
            (k - 1) * 65536 < n,
            n <= k * 65536,
            chunk_count(n) == if n % 65536 == 0 { n / 65536 } else { n / 65536 + 1 },
    ;
}

proof fn lemma_chunk_count_bounds(n: nat, k: nat)
    requires
        n > 0,
        k * 65536 < n,
    ensures
        k < chunk_count(n),
{
    assert(k < chunk_count(n)) by (nonlinear_arith)
        requires
            n > 0,
            k * 65536 < n,
            chunk_count(n) == if n % 65536 == 0 { n / 65536 } else { n / 65536 + 1 },
    ;
}

/// Splits `bytes` into encoded frames of at most `CHUNK_SIZE` payload bytes;
/// an empty transfer is a single empty frame.
pub fn chunk_binary(request_id: &str, kind: BinaryKind, bytes: &[u8]) -> (r: RcwResult<Vec<Vec<u8>>>)
    ensures
        r is Ok <==> (ulid_decode(request_id@) is Some && chunk_count(bytes@.len()) <= u32::MAX),
        r matches Ok(frames) ==> {
            &&& frames@.len() == chunk_count(bytes@.len())
            &&& forall|i: int|
                0 <= i < frames@.len() ==> #[trigger] frames@[i]@ == frame_bytes(
                    kind,
                    ulid_decode(request_id@)->0,
                    i as u32,
                    chunk_count(bytes@.len()) as u32,
                    chunk_payload(bytes@, i as nat),
                )
        },
{
    let n = bytes.len();
    let total = total_sequences_for_len(n as u64)?;
    let mut frames: Vec<Vec<u8>> = Vec::new();
    if n == 0 {
        let frame = BinaryFrame {
            kind,
            request_id: request_id.to_owned(),
            sequence: 0,
            total_sequences: total,
            payload: Vec::new(),
        }.encode()?;
        frames.push(frame);
        assert(chunk_payload(bytes@, 0) =~= Seq::<u8>::empty());
        return Ok(frames);
    }
    let mut index: usize = 0;
    let mut start: usize = 0;
    while start < n
        invariant
            n == bytes@.len(),
            n > 0,
            total == chunk_count(n as nat),
            start <= n,
            start <= index * CHUNK_SIZE,
            start < n ==> start == index * CHUNK_SIZE,
            index > 0 ==> (index - 1) * CHUNK_SIZE < n,
            start < n ==> index < total,
            frames@.len() == index,
            ulid_decode(request_id@) is Some || index == 0,
            forall|i: int|
                0 <= i < index ==> #[trigger] frames@[i]@ == frame_bytes(
                    kind,
                    ulid_decode(request_id@)->0,
                    i as u32,
                    total,
                    chunk_payload(bytes@, i as nat),
                ),
        decreases n - start,
    {
        let end = if n - start >= 65536 { start + 65536 } else { n };
        let mut payload: Vec<u8> = Vec::new();
        let mut j: usize = start;
        while j < end
            invariant
                start <= j <= end <= n,
                n == bytes@.len(),
                payload@ == bytes@.subrange(start as int, j as int),
            decreases end - j,
        {
            payload.push(bytes[j]);
            j = j + 1;
            assert(payload@ =~= bytes@.subrange(start as int, j as int));
        }
        assert(payload@ == chunk_payload(bytes@, index as nat));
        let frame = BinaryFrame {
            kind,
            request_id: request_id.to_owned(),
            sequence: index as u32,
            total_sequences: total,
            payload,
        }.encode()?;
        frames.push(frame);
        index = index + 1;
        start = end;
        proof {
            if start < n {
                lemma_chunk_count_bounds(n as nat, index as nat);
            }
        }
    }
    proof {
        lemma_chunk_count_exact(n as nat, index as nat);
    }
    Ok(frames)
}

/// Lower-case hex SHA-256 of `bytes`.
pub fn sha256_bytes(bytes: &[u8]) -> (r: String)
    ensures
        r@ == hex_lower(sha256_digest(bytes@)),
{
    let digest = sha256(bytes);
    hex_encode(digest.as_slice())
}

} // verus!
