//! The canonical 8-byte little-endian buffer and the words read from it.

use vstd::prelude::*;

verus! {

/// The eight bytes of `v`, least significant first.
pub open spec fn le_bytes(v: u64) -> Seq<u8> {
    seq![
        (v & 0xff) as u8,
        ((v >> 8) & 0xff) as u8,
        ((v >> 16) & 0xff) as u8,
        ((v >> 24) & 0xff) as u8,
        ((v >> 32) & 0xff) as u8,
        ((v >> 40) & 0xff) as u8,
        ((v >> 48) & 0xff) as u8,
        ((v >> 56) & 0xff) as u8,
    ]
}

/// The unsigned 16-bit word stored in the two lowest bytes of `b`.
pub open spec fn word16(b: Seq<u8>) -> u16 {
    (b[0] as u16) | ((b[1] as u16) << 8)
}

/// The unsigned 32-bit word stored in the four lowest bytes of `b`.
pub open spec fn word32(b: Seq<u8>) -> u32 {
    (b[0] as u32) | ((b[1] as u32) << 8) | ((b[2] as u32) << 16) | ((b[3] as u32) << 24)
}

/// The unsigned 64-bit word stored in the eight bytes of `b`.
pub open spec fn word64(b: Seq<u8>) -> u64 {
    (b[0] as u64) | ((b[1] as u64) << 8) | ((b[2] as u64) << 16) | ((b[3] as u64) << 24)
        | ((b[4] as u64) << 32) | ((b[5] as u64) << 40) | ((b[6] as u64) << 48)
        | ((b[7] as u64) << 56)
}

/// The 32-bit pattern `w` read as a signed number, widened to 64 bits with
/// its sign, as an unsigned 64-bit pattern.
pub open spec fn sign_extended(w: u32) -> u64 {
    if w & 0x8000_0000 == 0 {
        w as u64
    } else {
        (w as u64) | 0xffff_ffff_0000_0000
    }
}

/// Encoding a word and reading it back gives the word.
pub proof fn lemma_word64_of_le_bytes(v: u64)
    ensures
        le_bytes(v).len() == 8,
        word64(le_bytes(v)) == v,
{
    let b = le_bytes(v);
    assert(b[0] == (v & 0xff) as u8);
    assert(b[7] == ((v >> 56) & 0xff) as u8);
    assert(((v & 0xff) as u8 as u64) | ((((v >> 8) & 0xff) as u8 as u64) << 8) | ((((v >> 16)
        & 0xff) as u8 as u64) << 16) | ((((v >> 24) & 0xff) as u8 as u64) << 24) | ((((v >> 32)
        & 0xff) as u8 as u64) << 32) | ((((v >> 40) & 0xff) as u8 as u64) << 40) | ((((v >> 48)
        & 0xff) as u8 as u64) << 48) | ((((v >> 56) & 0xff) as u8 as u64) << 56) == v)
        by (bit_vector);
}

/// Reading a buffer as a word and encoding the word gives the buffer.
pub proof fn lemma_le_bytes_of_word64(b: Seq<u8>)
    requires
        b.len() == 8,
    ensures
        le_bytes(word64(b)) == b,
{
    let (b0, b1, b2, b3, b4, b5, b6, b7) = (b[0], b[1], b[2], b[3], b[4], b[5], b[6], b[7]);
    let v = word64(b);
    assert(v == (b0 as u64) | ((b1 as u64) << 8) | ((b2 as u64) << 16) | ((b3 as u64) << 24) | ((
    b4 as u64) << 32) | ((b5 as u64) << 40) | ((b6 as u64) << 48) | ((b7 as u64) << 56));
    assert(v == (b0 as u64) | ((b1 as u64) << 8) | ((b2 as u64) << 16) | ((b3 as u64) << 24) | ((
    b4 as u64) << 32) | ((b5 as u64) << 40) | ((b6 as u64) << 48) | ((b7 as u64) << 56) ==> (v
        & 0xff) as u8 == b0 && ((v >> 8) & 0xff) as u8 == b1 && ((v >> 16) & 0xff) as u8 == b2 && ((
    v >> 24) & 0xff) as u8 == b3 && ((v >> 32) & 0xff) as u8 == b4 && ((v >> 40) & 0xff) as u8
        == b5 && ((v >> 48) & 0xff) as u8 == b6 && ((v >> 56) & 0xff) as u8 == b7)
        by (bit_vector);
    assert(le_bytes(v) =~= b);
}

/// The canonical buffer of `v`: its eight bytes, least significant first.
pub fn encode_le(v: u64) -> (r: [u8; 8])
    ensures
        r@ == le_bytes(v),
{
    let r: [u8; 8] = [
        (v & 0xff) as u8,
        ((v >> 8) & 0xff) as u8,
        ((v >> 16) & 0xff) as u8,
        ((v >> 24) & 0xff) as u8,
        ((v >> 32) & 0xff) as u8,
        ((v >> 40) & 0xff) as u8,
        ((v >> 48) & 0xff) as u8,
        ((v >> 56) & 0xff) as u8,
    ];
    assert(r@ =~= le_bytes(v));
    r
}

/// Widens the 32-bit pattern `w`, read as a signed number, to 64 bits.
pub fn sign_extend(w: u32) -> (r: u64)
    ensures
        r == sign_extended(w),
{
    if w & 0x8000_0000 == 0 {
        w as u64
    } else {
        (w as u64) | 0xffff_ffff_0000_0000
    }
}

} // verus!
