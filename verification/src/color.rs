//! Colors for tile rendering, as integer channels.
//!
//! Each channel is a byte: 255 stands for full intensity, so a channel value
//! stands for a fractional intensity of that many 255ths.

use vstd::prelude::*;

verus! {

/// What blending a foreground channel `fg` with alpha `alpha` over a
/// background channel `bg` yields.
pub open spec fn blend_channel(alpha: int, fg: int, bg: int) -> int {
    (alpha * fg + (255 - alpha) * bg) / 255
}

/// A color: red, green, blue and alpha channels, each a byte.
#[derive(Clone, Copy, Debug, PartialEq, Eq, Structural)]
pub struct Color {
    /// Red channel.
    pub red: u8,
    /// Green channel.
    pub green: u8,
    /// Blue channel.
    pub blue: u8,
    /// Alpha channel.
    pub alpha: u8,
}

impl Color {
    /// Build a fully opaque-free color (alpha 0) from its three channels.
    pub fn rgb(red: u8, green: u8, blue: u8) -> (r: Color)
        ensures
            r == (Color { red, green, blue, alpha: 0u8 }),
    {
        Color { red, green, blue, alpha: 0 }
    }

    /// Build a color from all four channels.
    pub fn rgba(red: u8, green: u8, blue: u8, alpha: u8) -> (r: Color)
        ensures
            r == (Color { red, green, blue, alpha }),
    {
        Color { red, green, blue, alpha }
    }

    /// The packed 0xAARRGGBB framebuffer representation.
    pub fn as_u32(&self) -> (r: u32)
        ensures
            r == self.alpha * 0x100_0000 + self.red * 0x1_0000 + self.green * 0x100
                + self.blue,
    {
        (self.alpha as u32) * 0x100_0000 + (self.red as u32) * 0x1_0000
            + (self.green as u32) * 0x100 + (self.blue as u32)
    }

    /// The color whose packed representation is `val` (the inverse of
    /// [`Color::as_u32`]).
    pub fn from_u32(val: u32) -> (r: Color)
        ensures
            r.alpha == (val / 0x100_0000) % 0x100,
            r.red == (val / 0x1_0000) % 0x100,
            r.green == (val / 0x100) % 0x100,
            r.blue == val % 0x100,
    {
        Color {
            alpha: ((val / 0x100_0000) % 0x100) as u8,
            red: ((val / 0x1_0000) % 0x100) as u8,
            green: ((val / 0x100) % 0x100) as u8,
            blue: (val % 0x100) as u8,
        }
    }

    /// Blend the red, green and blue channels over `background`, weighting by
    /// this color's alpha channel; the alpha channel itself is kept.
    pub fn linear_alpha_blend(&mut self, background: Color)
        ensures
            final(self).red == blend_channel(old(self).alpha as int, old(self).red as int, background.red as int),
            final(self).green == blend_channel(old(self).alpha as int, old(self).green as int, background.green as int),
            final(self).blue == blend_channel(old(self).alpha as int, old(self).blue as int, background.blue as int),
            final(self).alpha == old(self).alpha,
    {
        let a = self.alpha as u32;
        self.red = blend_one(a, self.red as u32, background.red as u32);
        self.green = blend_one(a, self.green as u32, background.green as u32);
        self.blue = blend_one(a, self.blue as u32, background.blue as u32);
    }
}

/// One channel of the linear alpha blend.
fn blend_one(alpha: u32, fg: u32, bg: u32) -> (r: u8)
    requires
        alpha <= 255,
        fg <= 255,
        bg <= 255,
    ensures
        r == blend_channel(alpha as int, fg as int, bg as int),
{
    proof {
        assert(alpha * fg + (255 - alpha) * bg <= 255 * 255) by (nonlinear_arith)
            requires 0 <= alpha <= 255 && 0 <= fg <= 255 && 0 <= bg <= 255;
    }
    let num: u32 = alpha * fg + (255 - alpha) * bg;
    (num / 255) as u8
}

} // verus!
