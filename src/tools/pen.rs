use vstd::prelude::*;
use crate::geometry::{line_cells, line_seq};
use crate::history::{PixelDiff, StrokeDiff};
use crate::project::{on_project, paint_on_layer, painted_move, stroke_recorded, Project};
use crate::tools::context::{PointerInput, ToolContext};

verus! {

/// The cells a move paints: the segment from the previous position, or the
/// single cell where there is none.
pub open spec fn pen_targets(last: Option<(i32, i32)>, p: (i32, i32)) -> Seq<(i64, i64)> {
    match last {
        Some(l) => line_seq(l.0 as int, l.1 as int, p.0 as int, p.1 as int),
        None => seq![(p.0 as i64, p.1 as i64)],
    }
}

/// The pending diffs `s0` went to the history as one stroke on layer `id`
/// and `s1` is empty; where there were none, or no layer, nothing changed.
pub open spec fn flushed(s0: Vec<PixelDiff>, s1: Vec<PixelDiff>, id: Option<usize>, p0: Project, p1: Project) -> bool {
    &&& (s0@.len() == 0 || id.is_none()) ==> p1 == p0 && s1 == s0
    &&& (s0@.len() > 0 && id.is_some()) ==> s1@.len() == 0 && stroke_recorded(p0, p1, id.unwrap(), s0@)
}

/// A press starts a stroke.
pub open spec fn pen_pressed(b: PenState) -> bool {
    b.is_drawing && b.last_pos.is_none() && b.current_stroke@.len() == 0
}

/// A move while drawing paints the active color from the previous position
/// to the cell under the pointer on the active layer.
pub open spec fn pen_moved(a: PenState, b: PenState, e: PointerInput, ctx: ToolContext, p0: Project, p1: Project) -> bool {
    let p = ctx.point_of(e);
    &&& b.is_drawing == a.is_drawing
    &&& if !a.is_drawing || ctx.selected_layer.is_none() || !on_project(p0, p) {
        b == a && p1 == p0
    } else {
        &&& b.last_pos == Some(p)
        &&& painted_move(
            p0,
            p1,
            a.current_stroke@,
            b.current_stroke@,
            ctx.selected_layer.unwrap(),
            pen_targets(a.last_pos, p),
            p0.current_color,
        )
    }
}

/// A release ends the stroke and records it, if it changed anything.
pub open spec fn pen_released(a: PenState, b: PenState, ctx: ToolContext, p0: Project, p1: Project) -> bool {
    !b.is_drawing && b.last_pos.is_none() && flushed(a.current_stroke, b.current_stroke, ctx.selected_layer, p0, p1)
}

/// Cancelling leaves the pen idle with nothing pending.
pub open spec fn pen_cancelled(b: PenState) -> bool {
    !b.is_drawing && b.last_pos.is_none() && b.current_stroke@.len() == 0
}

/// Hands the pending diffs to the history as one stroke on layer `id`,
/// unless there are none; the pending list is left empty.
pub fn flush_stroke(project: &mut Project, id: Option<usize>, stroke: &mut Vec<PixelDiff>)
    ensures
        flushed(*old(stroke), *final(stroke), id, *old(project), *final(project)),
{
    if stroke.len() == 0 {
        return;
    }
    let layer_id = match id {
        Some(l) => l,
        None => return,
    };
    let mut pixels: Vec<PixelDiff> = Vec::new();
    std::mem::swap(&mut pixels, stroke);
    project.history.add(StrokeDiff::new(layer_id, pixels));
}

/// The freehand pen: paints single cells joined by line segments.
pub struct PenState {
    pub is_drawing: bool,
    pub last_pos: Option<(i32, i32)>,
    pub current_stroke: Vec<PixelDiff>,
}

impl PenState {
    pub fn new() -> (s: Self)
        ensures
            !s.is_drawing,
            s.last_pos.is_none(),
            s.current_stroke@.len() == 0,
    {
        PenState { is_drawing: false, last_pos: None, current_stroke: Vec::new() }
    }

    /// Starts a stroke.
    pub fn on_pointer_down(&mut self)
        ensures
            pen_pressed(*final(self)),
    {
        self.is_drawing = true;
        self.last_pos = None;
        self.current_stroke.clear();
    }

    /// While drawing, paints the active color from the previous position to
    /// the cell under the pointer on the active layer.
    pub fn on_pointer_move(&mut self, e: &PointerInput, ctx: &ToolContext, project: &mut Project)
        requires
            ctx.wf(),
            old(project).wf(),
        ensures
            final(project).wf(),
            pen_moved(*old(self), *final(self), *e, *ctx, *old(project), *final(project)),
    {
        if !self.is_drawing {
            return;
        }
        let layer_id = match ctx.selected_layer {
            Some(id) => id,
            None => return,
        };
        let (x, y) = ctx.canvas_point(e);
        if x < 0 || y < 0 || x as u32 >= project.width || y as u32 >= project.height {
            return;
        }
        let color = project.current_color;
        let pts = match self.last_pos {
            Some((lx, ly)) => line_cells(lx, ly, x, y),
            None => {
                let mut v: Vec<(i64, i64)> = Vec::new();
                v.push((x as i64, y as i64));
                assert(v@ =~= seq![(x as i64, y as i64)]);
                v
            },
        };
        paint_on_layer(project, layer_id, &pts, color, &mut self.current_stroke);
        self.last_pos = Some((x, y));
    }

    /// Ends the stroke and records it, if it changed anything.
    pub fn on_pointer_up(&mut self, ctx: &ToolContext, project: &mut Project)
        ensures
            pen_released(*old(self), *final(self), *ctx, *old(project), *final(project)),
    {
        self.is_drawing = false;
        self.last_pos = None;
        flush_stroke(project, ctx.selected_layer, &mut self.current_stroke);
    }

    /// Drops the stroke in progress.
    pub fn cancel(&mut self)
        ensures
            pen_cancelled(*final(self)),
    {
        self.is_drawing = false;
        self.last_pos = None;
        self.current_stroke.clear();
    }

    pub fn cursor(&self) -> (r: &'static str)
        ensures
            r@ == "default"@,
    {
        "default"
    }
}

} // verus!
