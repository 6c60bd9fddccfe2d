//! Audio datagram framing: an 8-byte big-endian sequence number, one
//! control byte, then the payload.

use vstd::prelude::*;
use vstd::slice::{slice_subrange, slice_to_vec};

verus! {

/// Control byte of a packet that carries audio.
pub const CTRL_AUDIO: u8 = 0;

/// Control byte of the packet that ends a transmission.
pub const CTRL_END: u8 = 1;

/// Control byte of the once-a-second keep-alive packet.
pub const CTRL_PING: u8 = 2;

/// Length of the frame header (sequence number and control byte).
pub const HEADER_LEN: usize = 9;

/// The eight big-endian bytes of `x`.
pub open spec fn be_bytes_u64(x: u64) -> Seq<u8> {
    seq![
        (x >> 56u64) as u8, (x >> 48u64) as u8, (x >> 40u64) as u8, (x >> 32u64) as u8,
        (x >> 24u64) as u8, (x >> 16u64) as u8, (x >> 8u64) as u8, x as u8,
    ]
}

/// The value of eight bytes read as a big-endian number.
pub open spec fn u64_from_be(b: Seq<u8>) -> u64
    recommends
        b.len() == 8,
{
    ((b[0] as u64) << 56u64) | ((b[1] as u64) << 48u64) | ((b[2] as u64) << 40u64) | ((
    b[3] as u64) << 32u64) | ((b[4] as u64) << 24u64) | ((b[5] as u64) << 16u64) | ((
    b[6] as u64) << 8u64) | (b[7] as u64)
}

/// The bytes of the frame that carries `data` with sequence number `seq`
/// and control byte `ctrl`.
pub open spec fn frame_bytes(seq: u64, ctrl: u8, data: Seq<u8>) -> Seq<u8> {
    be_bytes_u64(seq) + seq![ctrl] + data
}

/// What a buffer holds when read as a frame: nothing when it is shorter
/// than the header, else its sequence number, control byte and payload.
pub open spec fn parse_frame(buf: Seq<u8>) -> Option<(u64, u8, Seq<u8>)> {
    if buf.len() < 9 {
        None
    } else {
        Some((u64_from_be(buf.take(8)), buf[8], buf.skip(9)))
    }
}

/// Reading the eight big-endian bytes of a number gives the number back.
pub proof fn lemma_be_u64_roundtrip(x: u64)
    ensures
        u64_from_be(be_bytes_u64(x)) == x,
{
    let b = be_bytes_u64(x);
    let (b0, b1, b2, b3, b4, b5, b6, b7) = (b[0], b[1], b[2], b[3], b[4], b[5], b[6], b[7]);
    assert(((b0 as u64) << 56u64) | ((b1 as u64) << 48u64) | ((b2 as u64) << 40u64) | ((
    b3 as u64) << 32u64) | ((b4 as u64) << 24u64) | ((b5 as u64) << 16u64) | ((b6 as u64)
        << 8u64) | (b7 as u64) == x) by (bit_vector)
        requires
            b0 == (x >> 56u64) as u8,
            b1 == (x >> 48u64) as u8,
            b2 == (x >> 40u64) as u8,
            b3 == (x >> 32u64) as u8,
            b4 == (x >> 24u64) as u8,
            b5 == (x >> 16u64) as u8,
            b6 == (x >> 8u64) as u8,
            b7 == x as u8,
    ;
}

/// Eight bytes read as a big-endian number and written back are the same
/// eight bytes.
pub proof fn lemma_be_bytes_roundtrip(b: Seq<u8>)
    requires
        b.len() == 8,
    ensures
        be_bytes_u64(u64_from_be(b)) == b,
{
    let (b0, b1, b2, b3, b4, b5, b6, b7) = (b[0], b[1], b[2], b[3], b[4], b[5], b[6], b[7]);
    let x = u64_from_be(b);
    assert(b0 == (x >> 56u64) as u8 && b1 == (x >> 48u64) as u8 && b2 == (x >> 40u64) as u8
        && b3 == (x >> 32u64) as u8 && b4 == (x >> 24u64) as u8 && b5 == (x >> 16u64) as u8
        && b6 == (x >> 8u64) as u8 && b7 == x as u8) by (bit_vector)
        requires
            x == ((b0 as u64) << 56u64) | ((b1 as u64) << 48u64) | ((b2 as u64) << 40u64) | ((
            b3 as u64) << 32u64) | ((b4 as u64) << 24u64) | ((b5 as u64) << 16u64) | ((
            b6 as u64) << 8u64) | (b7 as u64),
    ;
    assert(be_bytes_u64(x) =~= b);
}

/// Builds the datagram that carries `data` with sequence number `seq` and
/// control byte `ctrl`.
pub fn pack_bin(seq: u64, ctrl: u8, data: &[u8]) -> (r: Vec<u8>)
    ensures
        r@ == frame_bytes(seq, ctrl, data@),
{
    let mut v: Vec<u8> = Vec::new();
    v.push((seq >> 56u64) as u8);
    v.push((seq >> 48u64) as u8);
    v.push((seq >> 40u64) as u8);
    v.push((seq >> 32u64) as u8);
    v.push((seq >> 24u64) as u8);
    v.push((seq >> 16u64) as u8);
    v.push((seq >> 8u64) as u8);
    v.push(seq as u8);
    v.push(ctrl);
    assert(v@ =~= be_bytes_u64(seq) + seq![ctrl]);
    let ghost head = v@;
    let n = data.len();
    let mut i: usize = 0;
    while i < n
        invariant
            n == data@.len(),
            i <= n,
            v@ =~= head + data@.take(i as int),
        decreases n - i,
    {
        v.push(data[i]);
        i = i + 1;
    }
    assert(data@.take(n as int) =~= data@);
    v
}

/// Reads a datagram: `None` when it is shorter than the nine header bytes,
/// else its sequence number, control byte and payload.
pub fn unpack_bin(buf: &[u8]) -> (r: Option<(u64, u8, Vec<u8>)>)
    ensures
        match r {
            None => parse_frame(buf@) is None,
            Some((s, c, d)) => parse_frame(buf@) == Some((s, c, d@)),
        },
{
    if buf.len() < 9 {
        return None;
    }
    let seq: u64 = ((buf[0] as u64) << 56u64) | ((buf[1] as u64) << 48u64) | ((buf[2] as u64)
        << 40u64) | ((buf[3] as u64) << 32u64) | ((buf[4] as u64) << 24u64) | ((buf[5] as u64)
        << 16u64) | ((buf[6] as u64) << 8u64) | (buf[7] as u64);
    let ctrl = buf[8];
    let data = slice_to_vec(slice_subrange(buf, 9, buf.len()));
    assert(buf@.take(8)[0] == buf@[0] && buf@.take(8)[1] == buf@[1] && buf@.take(8)[2] == buf@[2]
        && buf@.take(8)[3] == buf@[3] && buf@.take(8)[4] == buf@[4] && buf@.take(8)[5] == buf@[5]
        && buf@.take(8)[6] == buf@[6] && buf@.take(8)[7] == buf@[7]);
    assert(data@ =~= buf@.skip(9));
    Some((seq, ctrl, data))
}

/// A frame built by `pack_bin` reads back, through `unpack_bin`, as the
/// sequence number, control byte and payload it was built from.
pub proof fn lemma_frame_roundtrip(seq: u64, ctrl: u8, data: Seq<u8>)
    ensures
        parse_frame(frame_bytes(seq, ctrl, data)) == Some((seq, ctrl, data)),
{
    let f = frame_bytes(seq, ctrl, data);
    lemma_be_u64_roundtrip(seq);
    assert(f.take(8) =~= be_bytes_u64(seq));
    assert(f.skip(9) =~= data);
}

/// Any buffer that reads as a frame is exactly the frame built from what it
/// reads as; a buffer reads as a frame exactly when it holds at least the
/// nine header bytes.
pub proof fn lemma_parse_then_build(buf: Seq<u8>)
    ensures
        parse_frame(buf) is Some <==> buf.len() >= 9,
        parse_frame(buf) matches Some((s, c, d)) ==> frame_bytes(s, c, d) == buf,
{
    if buf.len() >= 9 {
        lemma_be_bytes_roundtrip(buf.take(8));
        assert(frame_bytes(u64_from_be(buf.take(8)), buf[8], buf.skip(9)) =~= buf);
    }
}

} // verus!
