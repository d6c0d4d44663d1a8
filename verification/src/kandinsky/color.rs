use vstd::prelude::*;

verus! {

/// A pixel colour in the display's native 16-bit layout: five bits of red in
/// the high bits, six bits of green in the middle, five bits of blue in the
/// low bits.
#[derive(Clone, Copy, PartialEq, Eq, PartialOrd, Ord, Debug, Hash, Default, Structural)]
pub struct Color(pub u16);

/// The packed value of the colour whose channels are `r`, `g` and `b`.
///
/// Red and blue keep their five most significant bits, green keeps six; the
/// bits below are dropped.
pub open spec fn rgb565(r: u8, g: u8, b: u8) -> int {
    (r / 8) * 2048 + (g / 4) * 32 + b / 8
}

impl Color {
    /// Packs three eight-bit channels, red first, into one colour.
    pub fn from_rgb(rgb: [u8; 3]) -> (color: Color)
        ensures
            color.0 == rgb565(rgb[0], rgb[1], rgb[2]),
    {
        let r0: u8 = rgb[0];
        let g0: u8 = rgb[1];
        let b0: u8 = rgb[2];
        let r: u16 = ((r0 & 0b1111_1000) as u16) << 8;
        let g: u16 = ((g0 & 0b1111_1100) as u16) << 3;
        let b: u16 = (b0 >> 3) as u16;
        assert((((r0 & 0b1111_1000) as u16) << 8) | (((g0 & 0b1111_1100) as u16) << 3) | ((b0
            >> 3) as u16) == (r0 / 8) * 2048 + (g0 / 4) * 32 + b0 / 8) by (bit_vector);
        Color(r | g | b)
    }
}

/// The bits that `from_rgb` drops do not matter: clearing them beforehand
/// gives the same colour.
pub proof fn lemma_rgb565_ignores_low_bits(r: u8, g: u8, b: u8)
    ensures
        rgb565(r & 0xF8, g & 0xFC, b & 0xF8) == rgb565(r, g, b),
{
    assert((r & 0xF8) / 8 == r / 8) by (bit_vector);
    assert((g & 0xFC) / 4 == g / 4) by (bit_vector);
    assert((b & 0xF8) / 8 == b / 8) by (bit_vector);
}

} // verus!
