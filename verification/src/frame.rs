//! The framing of messages between the editor and its server: each message
//! is sent as its length, eight bytes big-endian, followed by its bytes.
use vstd::prelude::*;

verus! {

/// The number that eight bytes stand for, most significant first.
pub open spec fn be_u64(b: Seq<u8>) -> u64
    recommends
        b.len() == 8,
{
    ((b[0] as u64) << 56u64) | ((b[1] as u64) << 48u64) | ((b[2] as u64) << 40u64) | ((
    b[3] as u64) << 32u64) | ((b[4] as u64) << 24u64) | ((b[5] as u64) << 16u64) | ((
    b[6] as u64) << 8u64) | (b[7] as u64)
}

/// The header of a frame whose message is `len` bytes long.
pub fn encode_frame_header(len: u64) -> (h: Vec<u8>)
    ensures
        h@.len() == 8,
        be_u64(h@) == len,
{
    let b0 = (len >> 56u64) as u8;
    let b1 = ((len >> 48u64) & 0xff) as u8;
    let b2 = ((len >> 40u64) & 0xff) as u8;
    let b3 = ((len >> 32u64) & 0xff) as u8;
    let b4 = ((len >> 24u64) & 0xff) as u8;
    let b5 = ((len >> 16u64) & 0xff) as u8;
    let b6 = ((len >> 8u64) & 0xff) as u8;
    let b7 = (len & 0xff) as u8;
    assert((((b0 as u64) << 56u64) | ((b1 as u64) << 48u64) | ((b2 as u64) << 40u64) | ((
    b3 as u64) << 32u64) | ((b4 as u64) << 24u64) | ((b5 as u64) << 16u64) | ((b6 as u64)
        << 8u64) | (b7 as u64)) == len) by (bit_vector)
        requires
            b0 == (len >> 56u64) as u8,
            b1 == ((len >> 48u64) & 0xff) as u8,
            b2 == ((len >> 40u64) & 0xff) as u8,
            b3 == ((len >> 32u64) & 0xff) as u8,
            b4 == ((len >> 24u64) & 0xff) as u8,
            b5 == ((len >> 16u64) & 0xff) as u8,
            b6 == ((len >> 8u64) & 0xff) as u8,
            b7 == (len & 0xff) as u8,
    ;
    let mut h: Vec<u8> = Vec::new();
    h.push(b0);
    h.push(b1);
    h.push(b2);
    h.push(b3);
    h.push(b4);
    h.push(b5);
    h.push(b6);
    h.push(b7);
    h
}

/// The length of the message that a frame header announces.
pub fn decode_frame_header(h: &[u8]) -> (len: u64)
    requires
        h@.len() == 8,
    ensures
        len == be_u64(h@),
{
    ((h[0] as u64) << 56u64) | ((h[1] as u64) << 48u64) | ((h[2] as u64) << 40u64) | ((
    h[3] as u64) << 32u64) | ((h[4] as u64) << 24u64) | ((h[5] as u64) << 16u64) | ((
    h[6] as u64) << 8u64) | (h[7] as u64)
}

/// Two headers that announce the same length are the same bytes: reading a
/// header back gives the length it was written for, and no other header
/// stands for that length.
pub proof fn law_frame_header_is_exact(h: Seq<u8>, g: Seq<u8>)
    requires
        h.len() == 8,
        g.len() == 8,
        be_u64(h) == be_u64(g),
    ensures
        h == g,
{
    let (h0, h1, h2, h3, h4, h5, h6, h7) = (h[0], h[1], h[2], h[3], h[4], h[5], h[6], h[7]);
    let (g0, g1, g2, g3, g4, g5, g6, g7) = (g[0], g[1], g[2], g[3], g[4], g[5], g[6], g[7]);
    assert(h0 == g0 && h1 == g1 && h2 == g2 && h3 == g3 && h4 == g4 && h5 == g5 && h6 == g6 && h7
        == g7) by (bit_vector)
        requires
            ((h0 as u64) << 56u64) | ((h1 as u64) << 48u64) | ((h2 as u64) << 40u64) | ((
            h3 as u64) << 32u64) | ((h4 as u64) << 24u64) | ((h5 as u64) << 16u64) | ((
            h6 as u64) << 8u64) | (h7 as u64) == ((g0 as u64) << 56u64) | ((g1 as u64) << 48u64)
                | ((g2 as u64) << 40u64) | ((g3 as u64) << 32u64) | ((g4 as u64) << 24u64) | ((
            g5 as u64) << 16u64) | ((g6 as u64) << 8u64) | (g7 as u64),
    ;
    assert(h =~= g);
}

} // verus!
