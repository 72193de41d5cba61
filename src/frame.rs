//! Frames on a byte stream: a 4-byte big-endian length, then exactly that
//! many payload bytes.
use vstd::prelude::*;

verus! {

/// Largest payload that a frame header can describe.
pub const MAX_PAYLOAD_LEN: u64 = 4294967295;

/// Number of bytes in a frame header.
pub const HEADER_LEN: usize = 4;

/// Why a frame could not be built or taken apart.
#[derive(Debug, Clone, Copy, PartialEq, Eq, Structural)]
pub enum FrameError {
    /// The payload is longer than `MAX_PAYLOAD_LEN` bytes.
    Oversize,
    /// The bytes end before the frame does.
    Truncated,
}

/// The four big-endian bytes of `n`.
pub open spec fn be32(n: nat) -> Seq<u8>
    recommends
        n <= MAX_PAYLOAD_LEN,
{
    seq![
        (n / 16777216) as u8,
        ((n / 65536) % 256) as u8,
        ((n / 256) % 256) as u8,
        (n % 256) as u8,
    ]
}

/// The number that four big-endian bytes stand for.
pub open spec fn be32_value(b: Seq<u8>) -> nat
    recommends
        b.len() == 4,
{
    (b[0] as nat) * 16777216 + (b[1] as nat) * 65536 + (b[2] as nat) * 256 + (b[3] as nat)
}

/// The bytes of the frame that carries `payload`.
pub open spec fn frame_bytes(payload: Seq<u8>) -> Seq<u8> {
    be32(payload.len()) + payload
}

/// Reading back the header of a length gives that length.
pub proof fn lemma_be32_round_trip(n: nat)
    requires
        n <= MAX_PAYLOAD_LEN,
    ensures
        be32(n).len() == 4,
        be32_value(be32(n)) == n,
{
    let b = be32(n);
    assert(b[0] as nat == n / 16777216);
    assert(b[1] as nat == (n / 65536) % 256);
    assert(b[2] as nat == (n / 256) % 256);
    assert(b[3] as nat == n % 256);
    assert(be32_value(b) == n) by (nonlinear_arith)
        requires
            b[0] as nat == n / 16777216,
            b[1] as nat == (n / 65536) % 256,
            b[2] as nat == (n / 256) % 256,
            b[3] as nat == n % 256,
            be32_value(b) == (b[0] as nat) * 16777216 + (b[1] as nat) * 65536 + (b[2] as nat)
                * 256 + (b[3] as nat),
    ;
}

/// The header bytes of a payload of `len` bytes.
pub fn encode_header(len: u32) -> (r: [u8; 4])
    ensures
        r@ == be32(len as nat),
{
    let r = [
        (len / 16777216) as u8,
        ((len / 65536) % 256) as u8,
        ((len / 256) % 256) as u8,
        (len % 256) as u8,
    ];
    assert(r@ =~= be32(len as nat));
    r
}

/// The payload length that a frame header announces.
pub fn decode_header(header: [u8; 4]) -> (r: u32)
    ensures
        r as nat == be32_value(header@),
{
    let r = (header[0] as u32) * 16777216 + (header[1] as u32) * 65536 + (header[2] as u32) * 256
        + (header[3] as u32);
    r
}

/// Appends the frame that carries `payload` to `out`. An oversize payload
/// leaves `out` as it was: no byte of a frame that cannot be described is
/// ever written.
pub fn write_frame(payload: &[u8], out: &mut Vec<u8>) -> (r: Result<(), FrameError>)
    ensures
        payload@.len() > MAX_PAYLOAD_LEN ==> r == Err::<(), FrameError>(FrameError::Oversize)
            && final(out)@ == old(out)@,
        payload@.len() <= MAX_PAYLOAD_LEN ==> r is Ok && final(out)@ == old(out)@ + frame_bytes(
            payload@,
        ),
{
    if payload.len() as u64 > MAX_PAYLOAD_LEN {
        return Err(FrameError::Oversize);
    }
    let header = encode_header(payload.len() as u32);
    let ghost start = out@;
    let mut i: usize = 0;
    while i < 4
        invariant
            0 <= i <= 4,
            out@ == start + header@.subrange(0, i as int),
        decreases 4 - i,
    {
        out.push(header[i]);
        i = i + 1;
        assert(out@ =~= start + header@.subrange(0, i as int));
    }
    let mut j: usize = 0;
    while j < payload.len()
        invariant
            0 <= j <= payload@.len(),
            out@ == start + header@ + payload@.subrange(0, j as int),
        decreases payload@.len() - j,
    {
        out.push(payload[j]);
        j = j + 1;
        assert(out@ =~= start + header@ + payload@.subrange(0, j as int));
    }
    assert(payload@.subrange(0, payload@.len() as int) =~= payload@);
    assert(out@ =~= start + frame_bytes(payload@));
    Ok(())
}

/// The frame that carries `payload`, or `Oversize` where its length does not
/// fit in a header.
pub fn encode_frame(payload: &[u8]) -> (r: Result<Vec<u8>, FrameError>)
    ensures
        payload@.len() > MAX_PAYLOAD_LEN <==> r == Err::<Vec<u8>, FrameError>(FrameError::Oversize),
        payload@.len() <= MAX_PAYLOAD_LEN ==> r is Ok,
        r matches Ok(bytes) ==> bytes@ == frame_bytes(payload@),
{
    let mut out: Vec<u8> = Vec::new();
    match write_frame(payload, &mut out) {
        Ok(()) => Ok(out),
        Err(e) => Err(e),
    }
}

/// Takes the first frame off the front of `bytes`: its payload and the
/// number of bytes that the frame took, or `Truncated` where `bytes` end
/// before the frame does.
pub fn decode_frame(bytes: &[u8]) -> (r: Result<(Vec<u8>, usize), FrameError>)
    ensures
        bytes@.len() < 4 || bytes@.len() < 4 + be32_value(bytes@.subrange(0, 4)) <==> r
            == Err::<(Vec<u8>, usize), FrameError>(FrameError::Truncated),
        !(bytes@.len() < 4 || bytes@.len() < 4 + be32_value(bytes@.subrange(0, 4))) ==> r is Ok,
        r matches Ok((payload, used)) ==> {
            &&& used == 4 + payload@.len()
            &&& payload@.len() == be32_value(bytes@.subrange(0, 4))
            &&& bytes@.subrange(0, used as int) == frame_bytes(payload@)
        },
{
    if bytes.len() < 4 {
        return Err(FrameError::Truncated);
    }
    let header: [u8; 4] = [bytes[0], bytes[1], bytes[2], bytes[3]];
    assert(header@ =~= bytes@.subrange(0, 4));
    let len = decode_header(header);
    if bytes.len() - 4 < len as usize {
        return Err(FrameError::Truncated);
    }
    let end: usize = 4 + len as usize;
    let mut payload: Vec<u8> = Vec::new();
    let mut i: usize = 4;
    while i < end
        invariant
            4 <= i <= end <= bytes@.len(),
            payload@ == bytes@.subrange(4, i as int),
        decreases end - i,
    {
        payload.push(bytes[i]);
        i = i + 1;
        assert(payload@ =~= bytes@.subrange(4, i as int));
    }
    proof {
        lemma_be32_of_value(header@);
        assert(bytes@.subrange(0, end as int) =~= header@ + payload@);
    }
    Ok((payload, end))
}

/// Four bytes are the header of the length that they announce.
pub proof fn lemma_be32_of_value(b: Seq<u8>)
    requires
        b.len() == 4,
    ensures
        be32_value(b) <= MAX_PAYLOAD_LEN,
        be32(be32_value(b)) == b,
{
    let n = be32_value(b);
    let (b0, b1, b2, b3) = (b[0] as nat, b[1] as nat, b[2] as nat, b[3] as nat);
    assert(n / 16777216 == b0 && (n / 65536) % 256 == b1 && (n / 256) % 256 == b2 && n % 256
        == b3) by (nonlinear_arith)
        requires
            n == b0 * 16777216 + b1 * 65536 + b2 * 256 + b3,
            b0 < 256,
            b1 < 256,
            b2 < 256,
            b3 < 256,
    ;
    assert(be32(n) =~= b);
}

/// A frame, taken off the front of a stream, gives back its payload.
pub proof fn lemma_frame_round_trip(payload: Seq<u8>, rest: Seq<u8>)
    requires
        payload.len() <= MAX_PAYLOAD_LEN,
    ensures
        (frame_bytes(payload) + rest).subrange(0, 4) == be32(payload.len()),
        be32_value((frame_bytes(payload) + rest).subrange(0, 4)) == payload.len(),
        (frame_bytes(payload) + rest).subrange(4, 4 + payload.len() as int) == payload,
{
    lemma_be32_round_trip(payload.len());
    let s = frame_bytes(payload) + rest;
    assert(s.subrange(0, 4) =~= be32(payload.len()));
    assert(s.subrange(4, 4 + payload.len() as int) =~= payload);
}

} // verus!
