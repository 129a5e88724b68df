//! Packed-color conversions.
//!
//! The SDK passes colors as 32-bit integers whose low three bytes are the
//! red, green and blue channels in that order (byte 0 is red); the high
//! byte is ignored.

use vstd::prelude::*;

verus! {

/// An 8-bit-per-channel RGB color.
#[derive(Clone, Copy, Debug, PartialEq, Eq, Structural)]
pub struct Color {
    pub r: u8,
    pub g: u8,
    pub b: u8,
}

/// The color a packed 32-bit value denotes: byte 0 is red, byte 1 green,
/// byte 2 blue; byte 3 is ignored.
pub open spec fn spec_unpack(packed: u32) -> Color {
    Color {
        r: (packed & 0xff) as u8,
        g: ((packed >> 8) & 0xff) as u8,
        b: ((packed >> 16) & 0xff) as u8,
    }
}

/// The packed form of a color: the three channels in the low three bytes,
/// high byte zero.
pub open spec fn spec_pack(c: Color) -> u32 {
    (c.r as u32) | ((c.g as u32) << 8) | ((c.b as u32) << 16)
}

impl Color {
    /// Unpacks a 32-bit SDK color into its three channels.
    pub fn unpack(packed: u32) -> (c: Color)
        ensures
            c == spec_unpack(packed),
    {
        proof {
            assert(packed & 0xff < 256 && (packed >> 8) & 0xff < 256 && (packed >> 16) & 0xff
                < 256) by (bit_vector);
        }
        Color { r: (packed & 0xff) as u8, g: ((packed >> 8) & 0xff) as u8, b: ((packed >> 16)
            & 0xff) as u8 }
    }

    /// Packs the three channels into a 32-bit SDK color with high byte zero.
    pub fn pack(self) -> (p: u32)
        ensures
            p == spec_pack(self),
    {
        (self.r as u32) | ((self.g as u32) << 8) | ((self.b as u32) << 16)
    }
}

/// Law: unpacking and then repacking any 32-bit value whose high byte is
/// zero gives the value back unchanged.
pub proof fn lemma_color_round_trip(packed: u32)
    requires
        packed >> 24 == 0,
    ensures
        spec_pack(spec_unpack(packed)) == packed,
{
    assert(packed >> 24 == 0 ==> ((((packed & 0xff) as u8) as u32) | (((((packed >> 8)
        & 0xff) as u8) as u32) << 8) | (((((packed >> 16) & 0xff) as u8) as u32) << 16))
        == packed) by (bit_vector);
}

/// Law: packing always yields a value with high byte zero, and unpacking it
/// recovers the channels; so pack and unpack are mutually inverse.
pub proof fn lemma_color_pack_round_trip(c: Color)
    ensures
        spec_pack(c) >> 24 == 0,
        spec_unpack(spec_pack(c)) == c,
{
    let r = c.r;
    let g = c.g;
    let b = c.b;
    assert(((r as u32) | ((g as u32) << 8) | ((b as u32) << 16)) >> 24 == 0) by (bit_vector);
    let p = spec_pack(c);
    assert(p == ((r as u32) | ((g as u32) << 8) | ((b as u32) << 16)) ==> ((p & 0xff) as u8)
        == r && (((p >> 8) & 0xff) as u8) == g && (((p >> 16) & 0xff) as u8) == b)
        by (bit_vector);
}

} // verus!
