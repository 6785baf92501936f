//! Length-prefixed framing of protocol messages.
//!
//! Wire format per message: `[u32 big-endian payload length][payload]`.
//! A ceiling on the payload length guards against hostile or corrupt
//! streams.

use vstd::prelude::*;

verus! {

/// 64 MiB: a generous ceiling for a 4K RGB frame (~24 MiB) with headroom.
pub const MAX_MESSAGE_BYTES: u32 = 67108864u32;

/// Why a frame could not be built or read.
#[derive(Debug, Clone, Copy, PartialEq, Eq, Structural)]
pub enum FrameError {
    /// The payload (or the announced payload) exceeds the ceiling; carries
    /// the offending length.
    TooLarge(u64),
    /// Fewer bytes are available than the header and its payload need.
    Incomplete,
}

/// Big-endian bytes of a 32-bit length.
pub open spec fn be_bytes(n: u32) -> Seq<u8> {
    seq![
        (n / 16777216) as u8,
        ((n / 65536) % 256) as u8,
        ((n / 256) % 256) as u8,
        (n % 256) as u8,
    ]
}

/// The number that four big-endian bytes denote.
pub open spec fn be_value(b0: u8, b1: u8, b2: u8, b3: u8) -> int {
    b0 * 16777216 + b1 * 65536 + b2 * 256 + b3
}

/// The frame of a payload: its length in four big-endian bytes, then the
/// payload itself.
pub open spec fn framed(payload: Seq<u8>) -> Seq<u8>
    recommends
        payload.len() <= u32::MAX,
{
    be_bytes(payload.len() as u32) + payload
}

/// Encoding a length and reading it back gives the length.
pub proof fn lemma_be_roundtrip(n: u32)
    ensures
        be_value(be_bytes(n)[0], be_bytes(n)[1], be_bytes(n)[2], be_bytes(n)[3]) == n,
{
    let b = be_bytes(n);
    assert(b[0] == n / 16777216);
    assert(b[1] == (n / 65536) % 256);
    assert(b[2] == (n / 256) % 256);
    assert(b[3] == n % 256);
    assert((n / 16777216) * 16777216 + ((n / 65536) % 256) * 65536 + ((n / 256) % 256) * 256
        + n % 256 == n) by (nonlinear_arith);
}

/// The four header bytes announcing `n` payload bytes.
pub fn encode_len(n: u32) -> (r: [u8; 4])
    ensures
        r@ == be_bytes(n),
{
    let r = [(n / 16777216) as u8, ((n / 65536) % 256) as u8, ((n / 256) % 256) as u8, (n % 256) as u8];
    assert(r@ =~= be_bytes(n));
    r
}

/// The payload length a header announces.
pub fn decode_len(header: [u8; 4]) -> (n: u32)
    ensures
        n as int == be_value(header@[0], header@[1], header@[2], header@[3]),
{
    (header[0] as u32) * 16777216 + (header[1] as u32) * 65536 + (header[2] as u32) * 256
        + (header[3] as u32)
}

/// Frame one payload for the wire. Payloads above the ceiling are refused
/// with their length.
pub fn frame_payload(payload: &Vec<u8>) -> (r: Result<Vec<u8>, FrameError>)
    ensures
        payload@.len() > MAX_MESSAGE_BYTES ==> r == Err::<Vec<u8>, FrameError>(
            FrameError::TooLarge(payload@.len() as u64),
        ),
        payload@.len() <= MAX_MESSAGE_BYTES ==> r is Ok && r->Ok_0@ == framed(payload@),
{
    let n = payload.len();
    if n > MAX_MESSAGE_BYTES as usize {
        return Err(FrameError::TooLarge(n as u64));
    }
    let header = encode_len(n as u32);
    let mut out: Vec<u8> = Vec::new();
    out.push(header[0]);
    out.push(header[1]);
    out.push(header[2]);
    out.push(header[3]);
    let mut i: usize = 0;
    while i < n
        invariant
            n == payload@.len(),
            i <= n,
            out@ == be_bytes(n as u32) + payload@.subrange(0, i as int),
        decreases n - i,
    {
        out.push(payload[i]);
        i = i + 1;
        assert(payload@.subrange(0, i as int) =~= payload@.subrange(0, i - 1).push(payload@[i - 1]));
    }
    assert(payload@.subrange(0, n as int) =~= payload@);
    Ok(out)
}

/// What reading one frame from the front of `bytes` yields: the payload and
/// the number of bytes the frame spans, or why it cannot be read.
pub open spec fn unframed(bytes: Seq<u8>) -> Result<(Seq<u8>, nat), FrameError> {
    if bytes.len() < 4 {
        Err(FrameError::Incomplete)
    } else {
        let n = be_value(bytes[0], bytes[1], bytes[2], bytes[3]);
        if n > MAX_MESSAGE_BYTES {
            Err(FrameError::TooLarge(n as u64))
        } else if bytes.len() < 4 + n {
            Err(FrameError::Incomplete)
        } else {
            Ok((bytes.subrange(4, 4 + n), (4 + n) as nat))
        }
    }
}

/// Read one frame from the front of `bytes`: the header is checked against
/// the ceiling before any payload byte is taken; trailing bytes belong to
/// later frames.
pub fn unframe(bytes: &[u8]) -> (r: Result<(Vec<u8>, usize), FrameError>)
    ensures
        match (r, unframed(bytes@)) {
            (Ok((p, used)), Ok((sp, sused))) => p@ == sp && used == sused,
            (Err(e), Err(se)) => e == se,
            _ => false,
        },
{
    if bytes.len() < 4 {
        return Err(FrameError::Incomplete);
    }
    let n = decode_len([bytes[0], bytes[1], bytes[2], bytes[3]]);
    if n > MAX_MESSAGE_BYTES {
        return Err(FrameError::TooLarge(n as u64));
    }
    let len = n as usize;
    if bytes.len() - 4 < len {
        return Err(FrameError::Incomplete);
    }
    let mut out: Vec<u8> = Vec::new();
    let mut i: usize = 0;
    while i < len
        invariant
            4 + len <= bytes.len(),
            i <= len,
            out@ == bytes@.subrange(4, 4 + i),
        decreases len - i,
    {
        out.push(bytes[4 + i]);
        i = i + 1;
        assert(bytes@.subrange(4, 4 + i) =~= bytes@.subrange(4, 4 + i - 1).push(bytes@[4 + i - 1]));
    }
    Ok((out, 4 + len))
}

/// Reading back a frame gives exactly the framed payload and consumes exactly
/// the frame, whatever follows it on the stream.
pub proof fn lemma_frame_roundtrip(payload: Seq<u8>, rest: Seq<u8>)
    requires
        payload.len() <= MAX_MESSAGE_BYTES,
    ensures
        unframed(framed(payload) + rest) == Ok::<(Seq<u8>, nat), FrameError>(
            (payload, (4 + payload.len()) as nat),
        ),
{
    let n = payload.len() as u32;
    let bytes = framed(payload) + rest;
    lemma_be_roundtrip(n);
    assert(bytes[0] == be_bytes(n)[0]);
    assert(bytes[1] == be_bytes(n)[1]);
    assert(bytes[2] == be_bytes(n)[2]);
    assert(bytes[3] == be_bytes(n)[3]);
    assert(bytes.subrange(4, 4 + payload.len() as int) =~= payload);
}

/// The frames of several payloads, one after another on the stream.
pub open spec fn framed_all(ps: Seq<Seq<u8>>) -> Seq<u8>
    decreases ps.len(),
{
    if ps.len() == 0 {
        Seq::empty()
    } else {
        framed(ps[0]) + framed_all(ps.drop_first())
    }
}

/// Reading `count` frames one after another off the front of `bytes`: the
/// payloads in order, or `None` when one of them cannot be read.
pub open spec fn read_frames(bytes: Seq<u8>, count: nat) -> Option<Seq<Seq<u8>>>
    decreases count,
{
    if count == 0 {
        Some(Seq::empty())
    } else {
        match unframed(bytes) {
            Ok((p, used)) => match read_frames(bytes.subrange(used as int, bytes.len() as int), (count - 1) as nat) {
                Some(more) => Some(seq![p] + more),
                None => None,
            },
            Err(_) => None,
        }
    }
}

/// A stream of frames reads back as the payloads that were framed, in the
/// order they were sent, whatever follows them.
pub proof fn lemma_stream_roundtrip(ps: Seq<Seq<u8>>, rest: Seq<u8>)
    requires
        forall|i: int| 0 <= i < ps.len() ==> (#[trigger] ps[i]).len() <= MAX_MESSAGE_BYTES,
    ensures
        read_frames(framed_all(ps) + rest, ps.len()) == Some(ps),
    decreases ps.len(),
{
    if ps.len() > 0 {
        let p0 = ps[0];
        let tail = ps.drop_first();
        let after = framed_all(tail) + rest;
        let bytes = framed_all(ps) + rest;
        assert(bytes =~= framed(p0) + after);
        lemma_frame_roundtrip(p0, after);
        let used = 4 + p0.len();
        assert(framed(p0).len() == used);
        assert(bytes.subrange(used as int, bytes.len() as int) =~= after);
        assert forall|i: int| 0 <= i < tail.len() implies (#[trigger] tail[i]).len() <= MAX_MESSAGE_BYTES by {
            assert(tail[i] == ps[i + 1]);
        }
        lemma_stream_roundtrip(tail, rest);
        assert(seq![p0] + tail =~= ps);
    } else {
        assert(ps =~= Seq::<Seq<u8>>::empty());
    }
}

} // verus!
