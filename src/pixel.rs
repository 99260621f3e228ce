use vstd::prelude::*;
use crate::color::Color;

verus! {

/// One addressable canvas cell: canvas-local coordinates and its color.
#[derive(Clone, Copy, Debug, PartialEq, Eq, Structural)]
pub struct Pixel {
    pub x: u32,
    pub y: u32,
    pub color: Color,
}

impl Pixel {
    pub fn new(x: u32, y: u32, color: Color) -> (p: Self)
        ensures
            p == (Pixel { x, y, color }),
    {
        Pixel { x, y, color }
    }
}

} // verus!
