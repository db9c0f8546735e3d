//! Wire format of the layer-2 relay stream: each frame is a 4-byte
//! big-endian length followed by that many bytes of Ethernet frame.
use vstd::prelude::*;

verus! {

/// Bytes of the length prefix in front of each frame.
pub const FRAME_PREFIX_LEN: usize = 4;

/// The big-endian bytes of `n`.
pub open spec fn be_bytes(n: u32) -> Seq<u8> {
    seq![(n >> 24u32) as u8, ((n >> 16u32) & 0xff) as u8, ((n >> 8u32) & 0xff) as u8, (n & 0xff) as u8]
}

/// The number whose big-endian bytes are `b[0..4]`.
pub open spec fn be_value(b: Seq<u8>) -> u32 {
    ((b[0] as u32) << 24u32) | ((b[1] as u32) << 16u32) | ((b[2] as u32) << 8u32) | (b[3] as u32)
}

/// The stream bytes for a frame whose body is `body`.
pub open spec fn wire_frame(body: Seq<u8>) -> Seq<u8> {
    be_bytes(body.len() as u32) + body
}

/// What a reader takes out of `wire`: the body announced by the prefix, if
/// all of it is there.
pub open spec fn read_body(wire: Seq<u8>) -> Option<Seq<u8>> {
    if wire.len() < 4 {
        None
    } else if wire.len() - 4 < be_value(wire) {
        None
    } else {
        Some(wire.subrange(4, 4 + be_value(wire)))
    }
}

proof fn lemma_be_round_trip(n: u32)
    ensures
        be_value(be_bytes(n)) == n,
{
    let b = be_bytes(n);
    let b0 = (n >> 24u32) as u8;
    let b1 = ((n >> 16u32) & 0xff) as u8;
    let b2 = ((n >> 8u32) & 0xff) as u8;
    let b3 = (n & 0xff) as u8;
    assert(b[0] == b0 && b[1] == b1 && b[2] == b2 && b[3] == b3);
    assert(((b0 as u32) << 24u32) | ((b1 as u32) << 16u32) | ((b2 as u32) << 8u32) | (b3 as u32) == n)
        by (bit_vector)
        requires
            b0 == (n >> 24u32) as u8,
            b1 == ((n >> 16u32) & 0xff) as u8,
            b2 == ((n >> 8u32) & 0xff) as u8,
            b3 == (n & 0xff) as u8,
    ;
}

/// The big-endian bytes of `n`.
pub fn be_u32_bytes(n: u32) -> (r: [u8; 4])
    ensures
        r@ == be_bytes(n),
{
    let r = [(n >> 24u32) as u8, ((n >> 16u32) & 0xff) as u8, ((n >> 8u32) & 0xff) as u8, (n & 0xff) as u8];
    assert(r@ =~= be_bytes(n));
    r
}

/// The length announced by a frame prefix.
pub fn frame_length(prefix: [u8; 4]) -> (r: u32)
    ensures
        r == be_value(prefix@),
{
    ((prefix[0] as u32) << 24u32) | ((prefix[1] as u32) << 16u32) | ((prefix[2] as u32) << 8u32) | (prefix[3] as u32)
}

/// Frames the body of `buf` for the stream: `buf[..hdr_len]` holds headers
/// of the caller, of which the last four bytes give way to the length
/// prefix. Returns the bytes to send, `buf[hdr_len - 4..]` with the prefix
/// written in.
pub fn write_frame(hdr_len: usize, buf: &[u8]) -> (r: Vec<u8>)
    requires
        hdr_len >= FRAME_PREFIX_LEN,
        buf@.len() > hdr_len,
        buf@.len() - hdr_len <= u32::MAX,
    ensures
        r@ == wire_frame(buf@.subrange(hdr_len as int, buf@.len() as int)),
{
    let frame_len = (buf.len() - hdr_len) as u32;
    let prefix = be_u32_bytes(frame_len);
    let mut out: Vec<u8> = Vec::new();
    out.push(prefix[0]);
    out.push(prefix[1]);
    out.push(prefix[2]);
    out.push(prefix[3]);
    let ghost body = buf@.subrange(hdr_len as int, buf@.len() as int);
    assert(out@ =~= be_bytes(frame_len));
    let mut i: usize = hdr_len;
    while i < buf.len()
        invariant
            hdr_len <= i <= buf@.len(),
            frame_len == body.len(),
            body == buf@.subrange(hdr_len as int, buf@.len() as int),
            out@ == be_bytes(frame_len) + buf@.subrange(hdr_len as int, i as int),
        decreases buf@.len() - i,
    {
        out.push(buf[i]);
        i += 1;
        assert(out@ =~= be_bytes(frame_len) + buf@.subrange(hdr_len as int, i as int));
    }
    out
}

/// Reads one frame from the start of `wire`: the body that the prefix
/// announces, or `None` when the prefix or the body is cut short.
pub fn read_frame(wire: &[u8]) -> (r: Option<Vec<u8>>)
    ensures
        r.is_some() == read_body(wire@).is_some(),
        r.is_some() ==> r.unwrap()@ == read_body(wire@).unwrap(),
{
    if wire.len() < FRAME_PREFIX_LEN {
        return None;
    }
    let len = frame_length([wire[0], wire[1], wire[2], wire[3]]);
    assert(len == be_value(wire@));
    if ((wire.len() - 4) as u64) < len as u64 {
        return None;
    }
    let end = 4 + len as usize;
    let mut body: Vec<u8> = Vec::new();
    let mut i: usize = 4;
    while i < end
        invariant
            4 <= i <= end,
            end <= wire@.len(),
            body@ == wire@.subrange(4, i as int),
        decreases end - i,
    {
        body.push(wire[i]);
        i += 1;
        assert(body@ =~= wire@.subrange(4, i as int));
    }
    Some(body)
}

/// A body framed by the writer is read back whole by the reader, and the
/// stream holds exactly the big-endian length followed by the body.
pub proof fn lemma_frame_round_trip(hdr: Seq<u8>, body: Seq<u8>)
    requires
        hdr.len() == FRAME_PREFIX_LEN,
        body.len() > 0,
        body.len() <= u32::MAX,
    ensures
        (hdr + body).subrange(FRAME_PREFIX_LEN as int, (hdr + body).len() as int) == body,
        wire_frame(body) == be_bytes(body.len() as u32) + body,
        read_body(wire_frame(body)) == Some(body),
{
    assert((hdr + body).subrange(4, (hdr + body).len() as int) =~= body);
    let w = wire_frame(body);
    lemma_be_round_trip(body.len() as u32);
    assert(w.subrange(0, 4) =~= be_bytes(body.len() as u32));
    assert(be_value(w) == be_value(be_bytes(body.len() as u32)));
    assert(w.subrange(4, 4 + body.len() as int) =~= body);
}

} // verus!
