//! Framing of messages to the OLA daemon: each RPC message is preceded by a
//! four-byte little-endian header that carries the protocol version in its top
//! four bits and the message size in the other twenty-eight.
use vstd::prelude::*;

verus! {

pub const PROTOCOL_VERSION: u32 = 1;
pub const VERSION_MASK: u32 = 0xf000_0000;
pub const SIZE_MASK: u32 = 0x0fff_ffff;

/// The header as a number: the version shifted into the top bits, and the
/// size (cut to 32 bits) masked to the rest.
pub open spec fn header_word(length: usize) -> u32 {
    ((PROTOCOL_VERSION << 28u32) & VERSION_MASK) | ((length as u32) & SIZE_MASK)
}

/// The bytes of a number, least significant first.
pub open spec fn le_bytes(w: u32) -> Seq<u8> {
    seq![(w & 0xff) as u8, ((w >> 8u32) & 0xff) as u8, ((w >> 16u32) & 0xff) as u8, ((w >> 24u32) & 0xff) as u8]
}

/// The header that goes before a message of `length` bytes.
pub fn new_header(length: usize) -> (h: [u8; 4])
    ensures
        h@ == le_bytes(header_word(length)),
{
    #[verifier::truncate]
    let size = length as u32;
    let w: u32 = ((PROTOCOL_VERSION << 28u32) & VERSION_MASK) | (size & SIZE_MASK);
    let h: [u8; 4] = [(w & 0xff) as u8, ((w >> 8u32) & 0xff) as u8, ((w >> 16u32) & 0xff) as u8, ((w >> 24u32) & 0xff) as u8];
    assert(h@ =~= le_bytes(header_word(length)));
    h
}

/// A header for a message shorter than 2^28 bytes gives back the protocol
/// version from its top bits and the message's size from the others.
pub proof fn lemma_header_fields(length: usize)
    requires
        length < 0x1000_0000,
    ensures
        header_word(length) >> 28u32 == PROTOCOL_VERSION,
        header_word(length) & SIZE_MASK == length,
{
    let l = length as u32;
    assert(l == length);
    assert((((1u32 << 28u32) & 0xf000_0000u32) | (l & 0x0fff_ffffu32)) >> 28u32 == 1u32) by (bit_vector)
        requires l < 0x1000_0000u32;
    assert((((1u32 << 28u32) & 0xf000_0000u32) | (l & 0x0fff_ffffu32)) & 0x0fff_ffffu32 == l) by (bit_vector)
        requires l < 0x1000_0000u32;
}

} // verus!
