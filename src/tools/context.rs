use vstd::prelude::*;
use crate::view::{canvas_coord, screen_to_canvas};

verus! {

/// One pointer event, in screen (CSS pixel) coordinates.
#[derive(Clone, Copy, Debug, PartialEq, Eq, Structural)]
pub struct PointerInput {
    pub pointer_id: i32,
    pub button: i16,
    pub client_x: i32,
    pub client_y: i32,
}

/// What a tool reads besides the project for one event: where the drawing
/// surface sits, the view's zoom and pan, the active layer and brush size.
#[derive(Clone, Copy, Debug, PartialEq, Eq, Structural)]
pub struct ToolContext {
    pub origin_x: i32,
    pub origin_y: i32,
    pub zoom_percent: u32,
    pub pan_x: i32,
    pub pan_y: i32,
    pub selected_layer: Option<usize>,
    pub brush_size: u32,
}

impl ToolContext {
    pub open spec fn wf(&self) -> bool {
        self.zoom_percent > 0
    }

    /// The canvas cell under the event.
    pub open spec fn point_of(&self, e: PointerInput) -> (i32, i32) {
        (
            canvas_coord(e.client_x as int, self.origin_x as int, self.pan_x as int, self.zoom_percent as int),
            canvas_coord(e.client_y as int, self.origin_y as int, self.pan_y as int, self.zoom_percent as int),
        )
    }

    pub fn canvas_point(&self, e: &PointerInput) -> (r: (i32, i32))
        requires
            self.wf(),
        ensures
            r == self.point_of(*e),
    {
        screen_to_canvas(
            e.client_x,
            e.client_y,
            self.origin_x,
            self.origin_y,
            self.zoom_percent,
            self.pan_x,
            self.pan_y,
        )
    }
}

} // verus!
