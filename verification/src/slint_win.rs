//! The pixels of a window with transparent parts.
use vstd::prelude::*;

verus! {

/// A pixel: blue, green and red as far as the pixel covers, and how far that is.
#[derive(Clone, Copy, Debug, PartialEq, Eq, Structural)]
pub struct PreBgra {
    pub b: u8,
    pub g: u8,
    pub r: u8,
    pub a: u8,
}

/// A colour: red, green and blue as far as it covers, and how far that is.
#[derive(Clone, Copy, Debug, PartialEq, Eq, Structural)]
pub struct CoveringColor {
    pub red: u8,
    pub green: u8,
    pub blue: u8,
    pub alpha: u8,
}

/// What is left of a part under a colour that covers so far.
pub open spec fn left_under(part: u8, alpha: u8) -> int {
    part as int * (255 - alpha) / 255
}

fn remains(part: u8, alpha: u8) -> (n: u8)
    ensures
        n as int == left_under(part, alpha),
        n <= 255 - alpha,
{
    let inv: u16 = (255 - alpha) as u16;
    assert(0 <= part as int * inv as int <= 255 * 255) by (nonlinear_arith)
        requires
            0 <= part <= 255,
            0 <= inv <= 255,
    ;
    assert(part as int * inv as int / 255 <= inv as int) by (nonlinear_arith)
        requires
            0 <= part <= 255,
            0 <= inv <= 255,
    ;
    (part as u16 * inv / 255) as u8
}

impl CoveringColor {
    /// No part exceeds how far the colour covers.
    pub open spec fn valid(self) -> bool {
        self.red <= self.alpha && self.green <= self.alpha && self.blue <= self.alpha
    }
}

impl PreBgra {
    /// No part exceeds how far the pixel covers.
    pub open spec fn valid(self) -> bool {
        self.r <= self.a && self.g <= self.a && self.b <= self.a
    }

    /// The pixel under a colour.
    pub open spec fn under(self, color: CoveringColor) -> PreBgra {
        PreBgra {
            b: (left_under(self.b, color.alpha) + color.blue) as u8,
            g: (left_under(self.g, color.alpha) + color.green) as u8,
            r: (left_under(self.r, color.alpha) + color.red) as u8,
            a: (left_under(self.a, color.alpha) + color.alpha) as u8,
        }
    }

    pub fn blend(&mut self, color: CoveringColor)
        requires
            color.valid(),
        ensures
            *final(self) == old(self).under(color),
    {
        self.r = remains(self.r, color.alpha) + color.red;
        self.g = remains(self.g, color.alpha) + color.green;
        self.b = remains(self.b, color.alpha) + color.blue;
        self.a = remains(self.a, color.alpha) + color.alpha;
    }

    pub fn from_rgb(red: u8, green: u8, blue: u8) -> (pixel: Self)
        ensures
            pixel == (PreBgra { b: blue, g: green, r: red, a: 255 }),
    {
        PreBgra { b: blue, g: green, r: red, a: 255 }
    }

    /// The transparent pixel.
    pub fn background() -> (pixel: Self)
        ensures
            pixel == (PreBgra { b: 0, g: 0, r: 0, a: 0 }),
    {
        PreBgra { b: 0, g: 0, r: 0, a: 0 }
    }
}

/// A colour over a pixel makes a pixel again; an opaque colour hides what is under it, and one that
/// does not cover changes nothing.
pub proof fn law_blending_keeps_pixels_valid(pixel: PreBgra, color: CoveringColor)
    requires
        pixel.valid(),
        color.valid(),
    ensures
        pixel.under(color).valid(),
        color.alpha == 255 ==> pixel.under(color) == (PreBgra {
            b: color.blue,
            g: color.green,
            r: color.red,
            a: 255,
        }),
        color.alpha == 0 ==> pixel.under(color) == pixel,
{
    lemma_left(pixel.r, pixel.a, color.alpha);
    lemma_left(pixel.g, pixel.a, color.alpha);
    lemma_left(pixel.b, pixel.a, color.alpha);
}

proof fn lemma_left(part: u8, whole: u8, alpha: u8)
    requires
        part <= whole,
    ensures
        0 <= left_under(part, alpha) <= left_under(whole, alpha) <= 255 - alpha,
        alpha == 0 ==> left_under(part, alpha) == part && left_under(whole, alpha) == whole,
        alpha == 255 ==> left_under(part, alpha) == 0 && left_under(whole, alpha) == 0,
{
    let inv = 255 - alpha;
    assert(0 <= part as int * inv / 255 && part as int * inv / 255 <= whole as int * inv / 255
        && whole as int * inv / 255 <= inv) by (nonlinear_arith)
        requires
            0 <= part <= whole <= 255,
            0 <= inv <= 255,
    ;
    if alpha == 0 {
        assert(part as int * inv / 255 == part && whole as int * inv / 255 == whole)
            by (nonlinear_arith)
            requires
                inv == 255,
        ;
    }
    if alpha == 255 {
        assert(part as int * inv == 0 && whole as int * inv == 0) by (nonlinear_arith)
            requires
                inv == 0,
        ;
    }
}

/// Each part of a pixel is blended by itself, and has at least the part of the colour over it. What
/// covers fully does so under any colour, and over what does not cover there is the colour alone.
pub proof fn law_parts_are_blended_each_by_itself(
    pixel: PreBgra,
    other: PreBgra,
    color: CoveringColor,
)
    requires
        pixel.valid(),
        other.valid(),
        color.valid(),
    ensures
        pixel.r == other.r ==> pixel.under(color).r == other.under(color).r,
        pixel.g == other.g ==> pixel.under(color).g == other.under(color).g,
        pixel.b == other.b ==> pixel.under(color).b == other.under(color).b,
        pixel.a == other.a ==> pixel.under(color).a == other.under(color).a,
        pixel.under(color).r >= color.red,
        pixel.under(color).g >= color.green,
        pixel.under(color).b >= color.blue,
        pixel.under(color).a >= color.alpha,
        pixel.a == 255 ==> pixel.under(color).a == 255,
        pixel.a == 0 ==> pixel.under(color) == (PreBgra {
            b: color.blue,
            g: color.green,
            r: color.red,
            a: color.alpha,
        }),
{
    lemma_left(pixel.r, pixel.a, color.alpha);
    lemma_left(pixel.g, pixel.a, color.alpha);
    lemma_left(pixel.b, pixel.a, color.alpha);
    assert(pixel.a == 255 ==> left_under(pixel.a, color.alpha) == 255 - color.alpha);
    assert(pixel.a == 0 ==> left_under(pixel.a, color.alpha) == 0);
}

} // verus!
