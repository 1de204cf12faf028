//! Encoders for the primitive wire values, each appending to a buffer.

use vstd::prelude::*;
use crate::protocol::Rgb;
use crate::wire::{color_bytes, le_u16, le_u32, u16_bytes, u32_bytes};

verus! {

/// Reading back the bytes of a 16-bit integer gives the integer.
pub proof fn lemma_u16_round_trip(x: u16)
    ensures
        le_u16(u16_bytes(x)[0], u16_bytes(x)[1]) == x,
{
    let b0 = (x & 0xffu16) as u8;
    let b1 = (x >> 8u16) as u8;
    assert((b0 as u16) | ((b1 as u16) << 8u16) == x) by (bit_vector)
        requires
            b0 == (x & 0xffu16) as u8,
            b1 == (x >> 8u16) as u8,
    ;
}

/// Reading back the bytes of a 32-bit integer gives the integer.
pub proof fn lemma_u32_round_trip(x: u32)
    ensures
        le_u32(u32_bytes(x)[0], u32_bytes(x)[1], u32_bytes(x)[2], u32_bytes(x)[3]) == x,
{
    let b0 = (x & 0xffu32) as u8;
    let b1 = ((x >> 8u32) & 0xffu32) as u8;
    let b2 = ((x >> 16u32) & 0xffu32) as u8;
    let b3 = (x >> 24u32) as u8;
    assert((b0 as u32) | ((b1 as u32) << 8u32) | ((b2 as u32) << 16u32) | ((b3 as u32) << 24u32)
        == x) by (bit_vector)
        requires
            b0 == (x & 0xffu32) as u8,
            b1 == ((x >> 8u32) & 0xffu32) as u8,
            b2 == ((x >> 16u32) & 0xffu32) as u8,
            b3 == (x >> 24u32) as u8,
    ;
}

/// Appends a 16-bit integer, least significant byte first.
pub fn u16(x: u16, output: &mut Vec<u8>)
    ensures
        final(output)@ == old(output)@ + u16_bytes(x),
{
    output.push((x & 0xff) as u8);
    output.push((x >> 8) as u8);
    assert(output@ =~= old(output)@ + u16_bytes(x));
}

/// Appends a 32-bit integer, least significant byte first.
pub fn u32(x: u32, output: &mut Vec<u8>)
    ensures
        final(output)@ == old(output)@ + u32_bytes(x),
{
    output.push((x & 0xff) as u8);
    output.push(((x >> 8) & 0xff) as u8);
    output.push(((x >> 16) & 0xff) as u8);
    output.push((x >> 24) as u8);
    assert(output@ =~= old(output)@ + u32_bytes(x));
}

/// Appends a color packed in a 32-bit word: red, green, blue, then zero.
pub fn color(c: Rgb, output: &mut Vec<u8>)
    ensures
        final(output)@ == old(output)@ + color_bytes(c),
{
    let r = c.0;
    let g = c.1;
    let b = c.2;
    let word: u32 = (r as u32) | ((g as u32) << 8u32) | ((b as u32) << 16u32);
    assert(u32_bytes(word) =~= color_bytes(c)) by {
        assert((word & 0xffu32) as u8 == r && ((word >> 8u32) & 0xffu32) as u8 == g
            && ((word >> 16u32) & 0xffu32) as u8 == b && (word >> 24u32) as u8 == 0u8)
            by (bit_vector)
            requires
                word == (r as u32) | ((g as u32) << 8u32) | ((b as u32) << 16u32),
        ;
    }
    u32(word, output);
}

} // verus!
