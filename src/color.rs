use vstd::prelude::*;

verus! {

/// An RGBA color; `alpha` is the opacity in 255ths (0 transparent, 255 opaque).
#[derive(Clone, Copy, Debug, PartialEq, Eq, Structural)]
pub struct Color {
    pub r: u8,
    pub g: u8,
    pub b: u8,
    pub alpha: u8,
}

impl Color {
    pub fn new(r: u8, g: u8, b: u8, alpha: u8) -> (c: Self)
        ensures
            c == (Color { r, g, b, alpha }),
    {
        Color { r, g, b, alpha }
    }
}

/// Fully transparent black.
pub open spec fn transparent() -> Color {
    Color { r: 0, g: 0, b: 0, alpha: 0 }
}

/// Fully transparent black: what erasing and cutting leave behind.
pub fn transparent_color() -> (c: Color)
    ensures
        c == transparent(),
{
    Color { r: 0, g: 0, b: 0, alpha: 0 }
}

} // verus!
