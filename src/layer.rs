use vstd::prelude::*;
use crate::canvas::Canvas;
use crate::color::Color;

verus! {

/// A named canvas in the project's paint order.
pub struct Layer {
    pub id: usize,
    pub title: String,
    pub is_locked: bool,
    pub canvas: Canvas,
    pub is_visible: bool,
}

impl Layer {
    /// Locked or hidden layers refuse the tools' edits.
    pub open spec fn editable(&self) -> bool {
        !self.is_locked && self.is_visible
    }

    /// A visible, unlocked layer whose canvas is filled with `background_color`.
    pub fn new(id: usize, title: String, width: u32, height: u32, background_color: Color) -> (l: Self)
        requires
            width as int * height as int <= usize::MAX,
        ensures
            l.id == id,
            l.title@ == title@,
            !l.is_locked,
            l.is_visible,
            l.canvas.wf(),
            l.canvas.width == width,
            l.canvas.height == height,
            l.canvas.background_color == background_color,
            l.canvas.content@ == Seq::new((width as int * height as int) as nat, |_i: int| background_color),
    {
        Layer {
            id,
            title,
            is_locked: false,
            canvas: Canvas::new(width, height, background_color),
            is_visible: true,
        }
    }
}

} // verus!
