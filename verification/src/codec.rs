//! Byte-level encoding helpers: the gauge speaks little-endian 16-bit words.

use vstd::prelude::*;

verus! {

/// Little-endian reading of a two-byte register response.
pub open spec fn le16(b: Seq<u8>) -> u16
    recommends
        b.len() == 2,
{
    (b[0] + 256 * b[1]) as u16
}

/// Low byte of a 16-bit word: the byte that travels first on the bus.
pub open spec fn low_byte(x: u16) -> u8 {
    (x % 256) as u8
}

/// High byte of a 16-bit word: the byte that travels second on the bus.
pub open spec fn high_byte(x: u16) -> u8 {
    (x / 256) as u8
}

/// Decode a two-byte response, least significant byte first.
pub fn decode_le16(lo: u8, hi: u8) -> (r: u16)
    ensures
        r == le16(seq![lo, hi]),
{
    lo as u16 + 256 * (hi as u16)
}

/// Split a 16-bit subcommand into the (low, high) byte pair that frames it
/// on the bus.
pub fn split_word(x: u16) -> (r: (u8, u8))
    ensures
        r.0 == low_byte(x),
        r.1 == high_byte(x),
        le16(seq![r.0, r.1]) == x,
{
    ((x % 256) as u8, (x / 256) as u8)
}

} // verus!
