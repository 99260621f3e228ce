use vstd::prelude::*;
use crate::project::{first_with_id, Project};
use crate::tools::context::{PointerInput, ToolContext};

verus! {

/// The color picker: pressing takes the active layer's color under the
/// pointer as the drawing color.
#[derive(Clone, Copy, Debug, PartialEq, Eq, Structural)]
pub struct EyedropperState {}

/// A press takes the color under the pointer on the active, editable layer
/// as the drawing color; off that layer nothing changes.
pub open spec fn eyedropper_pressed(e: PointerInput, ctx: ToolContext, p0: Project, p1: Project) -> bool {
    let p = ctx.point_of(e);
    let id = ctx.selected_layer.unwrap();
    if ctx.selected_layer.is_some() && exists|i: int|
        first_with_id(p0.layers@, id, i) && p0.layers@[i].editable() && p0.layers@[i].canvas.in_bounds(p.0 as int, p.1 as int) {
        let i = choose|i: int| first_with_id(p0.layers@, id, i);
        p1 == (Project { current_color: p0.layers@[i].canvas.color_at(p.0 as int, p.1 as int), ..p0 })
    } else {
        p1 == p0
    }
}

impl EyedropperState {
    pub fn new() -> (s: Self)
        ensures
            s == (EyedropperState {}),
    {
        EyedropperState {}
    }

    /// Samples the cell under the pointer of the active, editable layer.
    pub fn on_pointer_down(&mut self, e: &PointerInput, ctx: &ToolContext, project: &mut Project)
        requires
            ctx.wf(),
            old(project).wf(),
        ensures
            final(project).wf(),
            eyedropper_pressed(*e, *ctx, *old(project), *final(project)),
    {
        let (x, y) = ctx.canvas_point(e);
        let layer_id = match ctx.selected_layer {
            Some(id) => id,
            None => return,
        };
        let i = match project.editable_layer(layer_id) {
            Some(i) => i,
            None => return,
        };
        proof {
            assert forall|j: int| first_with_id(project.layers@, layer_id, j) implies j == i by {}
        }
        if x >= 0 && y >= 0 {
            match project.layers[i].canvas.get_pixel(x as u32, y as u32) {
                Ok(pixel) => {
                    project.current_color = pixel.color;
                },
                Err(_) => {},
            }
        }
    }

    /// Nothing is under way between a press and the next event.
    pub fn cancel(&mut self)
        ensures
            *final(self) == *old(self),
    {
    }

    pub fn cursor(&self) -> (r: &'static str)
        ensures
            r@ == "copy"@,
    {
        "copy"
    }
}

} // verus!
