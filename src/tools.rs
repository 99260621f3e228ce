//! The drawing tools, each a state machine driven by pointer events.
use vstd::prelude::*;
use crate::project::Project;
use crate::tools::brush::{
    brush_cancelled, brush_moved, brush_pressed, brush_released, eraser_cancelled, eraser_moved,
    eraser_pressed, eraser_released, BrushState, EraserState,
};
use crate::tools::bucket::{bucket_idle, bucket_released, BucketState};
use crate::tools::context::{PointerInput, ToolContext};
use crate::tools::eyedropper::{eyedropper_pressed, EyedropperState};
use crate::tools::line::{line_cancelled, line_pressed, line_released, LineState};
use crate::tools::pan::{pan_cancelled, pan_moved, pan_pressed, pan_released, PanAction, PanTool};
use crate::tools::pen::{pen_cancelled, pen_moved, pen_pressed, pen_released, PenState};
use crate::tools::select_state::{
    select_cancelled, select_cursor, select_moved, select_pressed, select_released, SelectState,
};
use crate::tools::selection::commit_effect;

pub mod context;
pub mod stroke;
pub mod pen;
pub mod bucket;
pub mod brush;
pub mod line;
pub mod eyedropper;
pub mod pan;
pub mod select;
pub mod selection;
pub mod select_state;

verus! {

/// The active tool and its state; exactly one is active at a time.
pub enum Tool {
    Pen(PenState),
    Pan(PanTool),
    Select(SelectState),
    Bucket(BucketState),
    EyeDropper(EyedropperState),
    Eraser(EraserState),
    Brush(BrushState),
    Line(LineState),
}

impl Tool {
    pub open spec fn wf(&self) -> bool {
        match self {
            Tool::Select(s) => s.wf(),
            Tool::Bucket(b) => b.current_stroke@.len() == 0,
            Tool::Line(l) => l.current_stroke@.len() == 0,
            _ => true,
        }
    }

    /// Which tool this is, as a number.
    pub open spec fn kind(&self) -> nat {
        match self {
            Tool::Pen(_) => 0,
            Tool::Pan(_) => 1,
            Tool::Select(_) => 2,
            Tool::Bucket(_) => 3,
            Tool::EyeDropper(_) => 4,
            Tool::Eraser(_) => 5,
            Tool::Brush(_) => 6,
            Tool::Line(_) => 7,
        }
    }

    pub fn is_pan(&self) -> (r: bool)
        ensures
            r == (self.kind() == 1),
    {
        match self {
            Tool::Pan(_) => true,
            _ => false,
        }
    }

    /// Hands a press to the active tool; the hand tool answers with what
    /// the view should do.
    pub fn on_pointer_down(&mut self, e: &PointerInput, ctx: &ToolContext, project: &mut Project) -> (r: Option<PanAction>)
        requires
            old(self).wf(),
            ctx.wf(),
            old(project).wf(),
        ensures
            final(self).wf(),
            final(project).wf(),
            final(self).kind() == old(self).kind(),
            match (*old(self), *final(self)) {
                (Tool::Pen(_), Tool::Pen(b)) => pen_pressed(b) && *final(project) == *old(project) && r.is_none(),
                (Tool::Pan(a), Tool::Pan(b)) => pan_pressed(a, b, e.button, e.pointer_id, e.client_x, e.client_y, r)
                    && *final(project) == *old(project),
                (Tool::Select(a), Tool::Select(b)) => select_pressed(a, b, *e, *ctx, *old(project), *final(project))
                    && r.is_none(),
                (Tool::Bucket(_), Tool::Bucket(b)) => bucket_idle(b) && *final(project) == *old(project) && r.is_none(),
                (Tool::EyeDropper(a), Tool::EyeDropper(b)) => b == a && eyedropper_pressed(*e, *ctx, *old(project), *final(project))
                    && r.is_none(),
                (Tool::Eraser(_), Tool::Eraser(b)) => eraser_pressed(b, *e, *ctx, *old(project), *final(project)) && r.is_none(),
                (Tool::Brush(_), Tool::Brush(b)) => brush_pressed(b, *e, *ctx, *old(project), *final(project)) && r.is_none(),
                (Tool::Line(a), Tool::Line(b)) => line_pressed(a, b, *e, *ctx, *old(project), *final(project)) && r.is_none(),
                _ => false,
            },
    {
        match self {
            Tool::Pen(s) => {
                s.on_pointer_down();
                None
            },
            Tool::Pan(s) => s.on_pointer_down(e.button, e.pointer_id, e.client_x, e.client_y),
            Tool::Select(s) => {
                s.on_pointer_down(e, ctx, project);
                None
            },
            Tool::Bucket(s) => {
                s.on_pointer_down();
                None
            },
            Tool::EyeDropper(s) => {
                s.on_pointer_down(e, ctx, project);
                None
            },
            Tool::Eraser(s) => {
                s.on_pointer_down(e, ctx, project);
                None
            },
            Tool::Brush(s) => {
                s.on_pointer_down(e, ctx, project);
                None
            },
            Tool::Line(s) => {
                s.on_pointer_down(e, ctx, project);
                None
            },
        }
    }

    /// Hands a pointer move to the active tool.
    pub fn on_pointer_move(&mut self, e: &PointerInput, ctx: &ToolContext, project: &mut Project) -> (r: Option<PanAction>)
        requires
            old(self).wf(),
            ctx.wf(),
            old(project).wf(),
        ensures
            final(self).wf(),
            final(project).wf(),
            final(self).kind() == old(self).kind(),
            match (*old(self), *final(self)) {
                (Tool::Pen(a), Tool::Pen(b)) => pen_moved(a, b, *e, *ctx, *old(project), *final(project)) && r.is_none(),
                (Tool::Pan(a), Tool::Pan(b)) => pan_moved(a, b, e.pointer_id, e.client_x, e.client_y, r)
                    && *final(project) == *old(project),
                (Tool::Select(a), Tool::Select(b)) => select_moved(a, b, *e, *ctx) && *final(project) == *old(project)
                    && r.is_none(),
                (Tool::Eraser(a), Tool::Eraser(b)) => eraser_moved(a, b, *e, *ctx, *old(project), *final(project)) && r.is_none(),
                (Tool::Brush(a), Tool::Brush(b)) => brush_moved(a, b, *e, *ctx, *old(project), *final(project)) && r.is_none(),
                (Tool::Bucket(_), Tool::Bucket(_)) | (Tool::EyeDropper(_), Tool::EyeDropper(_)) | (Tool::Line(_), Tool::Line(_))
                    => *final(self) == *old(self) && *final(project) == *old(project) && r.is_none(),
                _ => false,
            },
    {
        match self {
            Tool::Pen(s) => {
                s.on_pointer_move(e, ctx, project);
                None
            },
            Tool::Pan(s) => s.on_pointer_move(e.pointer_id, e.client_x, e.client_y),
            Tool::Select(s) => {
                s.on_pointer_move(e, ctx);
                None
            },
            Tool::Eraser(s) => {
                s.on_pointer_move(e, ctx, project);
                None
            },
            Tool::Brush(s) => {
                s.on_pointer_move(e, ctx, project);
                None
            },
            _ => None,
        }
    }

    /// Hands a release to the active tool.
    pub fn on_pointer_up(&mut self, e: &PointerInput, ctx: &ToolContext, project: &mut Project) -> (r: Option<PanAction>)
        requires
            old(self).wf(),
            ctx.wf(),
            old(project).wf(),
        ensures
            final(self).wf(),
            final(project).wf(),
            final(self).kind() == old(self).kind(),
            match (*old(self), *final(self)) {
                (Tool::Pen(a), Tool::Pen(b)) => pen_released(a, b, *ctx, *old(project), *final(project)) && r.is_none(),
                (Tool::Pan(a), Tool::Pan(b)) => pan_released(a, b, e.pointer_id, r) && *final(project) == *old(project),
                (Tool::Select(a), Tool::Select(b)) => select_released(a, b, *e) && *final(project) == *old(project)
                    && r.is_none(),
                (Tool::Bucket(_), Tool::Bucket(b)) => bucket_released(b, *e, *ctx, *old(project), *final(project)) && r.is_none(),
                (Tool::EyeDropper(a), Tool::EyeDropper(b)) => b == a && *final(project) == *old(project) && r.is_none(),
                (Tool::Eraser(a), Tool::Eraser(b)) => eraser_released(a, b, *ctx, *old(project), *final(project)) && r.is_none(),
                (Tool::Brush(a), Tool::Brush(b)) => brush_released(a, b, *ctx, *old(project), *final(project)) && r.is_none(),
                (Tool::Line(a), Tool::Line(b)) => line_released(a, b) && *final(project) == *old(project) && r.is_none(),
                _ => false,
            },
    {
        match self {
            Tool::Pen(s) => {
                s.on_pointer_up(ctx, project);
                None
            },
            Tool::Pan(s) => s.on_pointer_up(e.pointer_id),
            Tool::Select(s) => {
                s.on_pointer_up(e);
                None
            },
            Tool::Bucket(s) => {
                s.on_pointer_up(e, ctx, project);
                None
            },
            Tool::Eraser(s) => {
                s.on_pointer_up(ctx, project);
                None
            },
            Tool::Brush(s) => {
                s.on_pointer_up(ctx, project);
                None
            },
            Tool::Line(s) => {
                s.on_pointer_up();
                None
            },
            Tool::EyeDropper(_) => None,
        }
    }

    /// Abandons whatever gesture the active tool has under way.
    pub fn on_pointer_cancel(&mut self)
        requires
            old(self).wf(),
        ensures
            final(self).wf(),
            final(self).kind() == old(self).kind(),
            match (*old(self), *final(self)) {
                (Tool::Pen(_), Tool::Pen(b)) => pen_cancelled(b),
                (Tool::Pan(a), Tool::Pan(b)) => pan_cancelled(a, b),
                (Tool::Select(a), Tool::Select(b)) => select_cancelled(a, b),
                (Tool::Bucket(_), Tool::Bucket(b)) => bucket_idle(b),
                (Tool::EyeDropper(a), Tool::EyeDropper(b)) => b == a,
                (Tool::Eraser(_), Tool::Eraser(b)) => eraser_cancelled(b),
                (Tool::Brush(_), Tool::Brush(b)) => brush_cancelled(b),
                (Tool::Line(_), Tool::Line(b)) => line_cancelled(b),
                _ => false,
            },
    {
        match self {
            Tool::Pen(s) => s.cancel(),
            Tool::Pan(s) => s.cancel(),
            Tool::Select(s) => s.cancel(),
            Tool::Bucket(s) => s.cancel(),
            Tool::EyeDropper(s) => s.cancel(),
            Tool::Eraser(s) => s.cancel(),
            Tool::Brush(s) => s.cancel(),
            Tool::Line(s) => s.cancel(),
        }
    }

    /// The pointer shape of the active tool.
    pub fn cursor(&self) -> (r: &'static str)
        ensures
            r@ == match *self {
                Tool::Pen(_) => "default"@,
                Tool::Pan(s) => if s.is_panning {
                    "grabbing"@
                } else {
                    "grab"@
                },
                Tool::Select(s) => select_cursor(s),
                Tool::Bucket(_) => "cell"@,
                Tool::EyeDropper(_) => "copy"@,
                Tool::Eraser(_) | Tool::Brush(_) | Tool::Line(_) => "crosshair"@,
            },
    {
        match self {
            Tool::Pen(s) => s.cursor(),
            Tool::Pan(s) => s.cursor(),
            Tool::Select(s) => s.cursor(),
            Tool::Bucket(s) => s.cursor(),
            Tool::EyeDropper(s) => s.cursor(),
            Tool::Eraser(s) => s.cursor(),
            Tool::Brush(s) => s.cursor(),
            Tool::Line(s) => s.cursor(),
        }
    }
}

/// Which layer and tool are active.
pub struct WorkspaceState {
    pub selected_layer_id: Option<usize>,
    pub current_tool: Tool,
}

impl WorkspaceState {
    /// The bottom layer with the pen.
    pub fn new() -> (w: Self)
        ensures
            w.selected_layer_id == Some(0usize),
            w.current_tool.kind() == 0,
            w.current_tool.wf(),
    {
        WorkspaceState { selected_layer_id: Some(0), current_tool: Tool::Pen(PenState::new()) }
    }

    /// Switches tools; an open selection is committed first.
    pub fn set_tool(&mut self, tool: Tool, project: &mut Project)
        requires
            old(self).current_tool.wf(),
            old(project).wf(),
        ensures
            final(project).wf(),
            final(self).current_tool == tool,
            final(self).selected_layer_id == old(self).selected_layer_id,
            ({
                match old(self).current_tool {
                    Tool::Select(s) => if s.selection.is_some() {
                        commit_effect(*old(project), *final(project), s.selection.unwrap())
                    } else {
                        *final(project) == *old(project)
                    },
                    _ => *final(project) == *old(project),
                }
            }),
    {
        match &mut self.current_tool {
            Tool::Select(s) => s.deselect(project),
            _ => {},
        }
        self.current_tool = tool;
    }

    /// Makes another layer active; a selection open on a different layer is
    /// committed first.
    pub fn set_selected_layer(&mut self, id: Option<usize>, project: &mut Project)
        requires
            old(self).current_tool.wf(),
            old(project).wf(),
        ensures
            final(project).wf(),
            final(self).current_tool.wf(),
            final(self).selected_layer_id == id,
            final(self).current_tool.kind() == old(self).current_tool.kind(),
            ({
                match old(self).current_tool {
                    Tool::Select(s) => if s.selection.is_some() && Some(s.selection.unwrap().layer_id) != id {
                        commit_effect(*old(project), *final(project), s.selection.unwrap())
                    } else {
                        *final(project) == *old(project)
                    },
                    _ => *final(project) == *old(project),
                }
            }),
    {
        match &mut self.current_tool {
            Tool::Select(s) => {
                let other = match &s.selection {
                    Some(sel) => Some(sel.layer_id) != id,
                    None => false,
                };
                if other {
                    s.deselect(project);
                }
            },
            _ => {},
        }
        self.selected_layer_id = id;
    }
}

} // verus!
