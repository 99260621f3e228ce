use vstd::prelude::*;
use crate::color::{transparent, transparent_color, Color};
use crate::geometry::{draw_line, line_seq32};
use crate::history::PixelDiff;
use crate::project::{first_with_id, paint_on_layer, painted_move, stroke_recorded, Project};
use crate::tools::context::{PointerInput, ToolContext};
use crate::tools::pen::{flush_stroke, flushed};
use crate::tools::stroke::{disk_stamp, stamp_targets};

verus! {

/// Tip radius of a round brush of the given size: twice the size, at least
/// one cell.
pub open spec fn brush_radius(size: u32) -> int {
    if size == 0 {
        1
    } else {
        2 * size
    }
}

/// Radius of the brush tip for a size, and four times its square.
fn brush_tip(size: u32) -> (r: (u64, u128))
    ensures
        r.0 == brush_radius(size),
        r.1 == 4 * r.0 * r.0,
{
    let r: u64 = if size == 0 { 1 } else { 2 * (size as u64) };
    assert(4 * r * r <= 4 * 0x2_0000_0000 * 0x2_0000_0000) by (nonlinear_arith)
        requires
            r <= 0x2_0000_0000,
    ;
    (r, 4 * (r as u128) * (r as u128))
}

/// The cells a round tip is stamped on for a move to `p`: the segment from
/// the previous position, or `p` alone.
pub open spec fn tip_targets(last: Option<(i32, i32)>, p: (i32, i32)) -> Seq<(i32, i32)> {
    match last {
        Some(l) => line_seq32(l.0 as int, l.1 as int, p.0 as int, p.1 as int),
        None => seq![p],
    }
}

/// The segment to `p` (or `p` alone) as a vector.
pub fn tip_cells(last: Option<(i32, i32)>, p: (i32, i32)) -> (r: Vec<(i32, i32)>)
    ensures
        r@ == tip_targets(last, p),
{
    match last {
        Some((lx, ly)) => draw_line(lx, ly, p.0, p.1),
        None => {
            let mut v: Vec<(i32, i32)> = Vec::new();
            v.push(p);
            assert(v@ =~= seq![p]);
            v
        },
    }
}

/// One step of a round-tipped stroke from `(l0, s0)` to `(l1, s1)` (last
/// position, pending diffs): where the active layer can be edited and the
/// stamps fit in memory, `color` is stamped with a tip of radius `r` (cells
/// with `4 * (dx * dx + dy * dy) <= q`) along the way to the cell under the
/// pointer, which is remembered; otherwise nothing changes.
pub open spec fn tip_step(
    l0: Option<(i32, i32)>,
    s0: Seq<PixelDiff>,
    l1: Option<(i32, i32)>,
    s1: Seq<PixelDiff>,
    e: PointerInput,
    ctx: ToolContext,
    p0: Project,
    p1: Project,
    color: Color,
    r: int,
    q: int,
) -> bool {
    let p = ctx.point_of(e);
    let id = ctx.selected_layer.unwrap();
    if ctx.selected_layer.is_none() || !(exists|i: int| first_with_id(p0.layers@, id, i) && p0.layers@[i].editable())
        || tip_targets(l0, p).len() * ((2 * r + 1) * (2 * r + 1)) > usize::MAX {
        l1 == l0 && s1 == s0 && p1 == p0
    } else {
        &&& l1 == Some(p)
        &&& painted_move(p0, p1, s0, s1, id, disk_stamp(tip_targets(l0, p), r, q), color)
    }
}

/// A press of a round-tipped tool: a new stroke, stamped at the pressed cell.
pub open spec fn tip_pressed(
    drawing: bool,
    l1: Option<(i32, i32)>,
    s1: Seq<PixelDiff>,
    e: PointerInput,
    ctx: ToolContext,
    p0: Project,
    p1: Project,
    color: Color,
) -> bool {
    let r = brush_radius(ctx.brush_size);
    drawing && tip_step(None, Seq::empty(), l1, s1, e, ctx, p0, p1, color, r, 4 * r * r)
}

/// A move of a round-tipped tool: while drawing, a stamped step.
pub open spec fn tip_moved(
    d0: bool,
    l0: Option<(i32, i32)>,
    s0: Seq<PixelDiff>,
    d1: bool,
    l1: Option<(i32, i32)>,
    s1: Seq<PixelDiff>,
    e: PointerInput,
    ctx: ToolContext,
    p0: Project,
    p1: Project,
    color: Color,
) -> bool {
    let r = brush_radius(ctx.brush_size);
    &&& d1 == d0
    &&& !d0 ==> l1 == l0 && s1 == s0 && p1 == p0
    &&& d0 ==> tip_step(l0, s0, l1, s1, e, ctx, p0, p1, color, r, 4 * r * r)
}

pub open spec fn brush_pressed(b: BrushState, e: PointerInput, ctx: ToolContext, p0: Project, p1: Project) -> bool {
    tip_pressed(b.is_drawing, b.last_pos, b.current_stroke@, e, ctx, p0, p1, p0.current_color)
}

pub open spec fn brush_moved(a: BrushState, b: BrushState, e: PointerInput, ctx: ToolContext, p0: Project, p1: Project) -> bool {
    tip_moved(a.is_drawing, a.last_pos, a.current_stroke@, b.is_drawing, b.last_pos, b.current_stroke@, e, ctx, p0, p1, p0.current_color)
}

pub open spec fn brush_released(a: BrushState, b: BrushState, ctx: ToolContext, p0: Project, p1: Project) -> bool {
    !b.is_drawing && b.last_pos.is_none() && flushed(a.current_stroke, b.current_stroke, ctx.selected_layer, p0, p1)
}

pub open spec fn brush_cancelled(b: BrushState) -> bool {
    !b.is_drawing && b.last_pos.is_none() && b.current_stroke@.len() == 0
}

pub open spec fn eraser_pressed(b: EraserState, e: PointerInput, ctx: ToolContext, p0: Project, p1: Project) -> bool {
    tip_pressed(b.is_drawing, b.last_pos, b.current_stroke@, e, ctx, p0, p1, transparent())
}

pub open spec fn eraser_moved(a: EraserState, b: EraserState, e: PointerInput, ctx: ToolContext, p0: Project, p1: Project) -> bool {
    tip_moved(a.is_drawing, a.last_pos, a.current_stroke@, b.is_drawing, b.last_pos, b.current_stroke@, e, ctx, p0, p1, transparent())
}

pub open spec fn eraser_released(a: EraserState, b: EraserState, ctx: ToolContext, p0: Project, p1: Project) -> bool {
    !b.is_drawing && b.last_pos.is_none() && flushed(a.current_stroke, b.current_stroke, ctx.selected_layer, p0, p1)
}

pub open spec fn eraser_cancelled(b: EraserState) -> bool {
    !b.is_drawing && b.last_pos.is_none() && b.current_stroke@.len() == 0
}

/// One step of a round-tipped stroke: where the active layer can be
/// edited, stamps `color` with a tip of radius `r` along the way to the
/// cell under the pointer and remembers that cell.
pub fn stamp_move(
    last_pos: &mut Option<(i32, i32)>,
    stroke: &mut Vec<PixelDiff>,
    e: &PointerInput,
    ctx: &ToolContext,
    project: &mut Project,
    color: Color,
    r: u64,
    q: u128,
)
    requires
        ctx.wf(),
        old(project).wf(),
    ensures
        final(project).wf(),
        tip_step(
            *old(last_pos),
            old(stroke)@,
            *final(last_pos),
            final(stroke)@,
            *e,
            *ctx,
            *old(project),
            *final(project),
            color,
            r as int,
            q as int,
        ),
{
    let layer_id = match ctx.selected_layer {
        Some(id) => id,
        None => return,
    };
    let p = ctx.canvas_point(e);
    match project.editable_layer(layer_id) {
        Some(_) => {},
        None => return,
    }
    let targets = tip_cells(*last_pos, p);
    let pts = match stamp_targets(&targets, r, q) {
        Some(pts) => pts,
        None => return,
    };
    paint_on_layer(project, layer_id, &pts, color, stroke);
    *last_pos = Some(p);
}

/// The round brush: stamps the active color along the pointer's path.
pub struct BrushState {
    pub is_drawing: bool,
    pub last_pos: Option<(i32, i32)>,
    pub current_stroke: Vec<PixelDiff>,
}

impl BrushState {
    pub fn new() -> (s: Self)
        ensures
            !s.is_drawing,
            s.last_pos.is_none(),
            s.current_stroke@.len() == 0,
    {
        BrushState { is_drawing: false, last_pos: None, current_stroke: Vec::new() }
    }

    /// Starts a stroke and stamps the pressed cell.
    pub fn on_pointer_down(&mut self, e: &PointerInput, ctx: &ToolContext, project: &mut Project)
        requires
            ctx.wf(),
            old(project).wf(),
        ensures
            final(project).wf(),
            brush_pressed(*final(self), *e, *ctx, *old(project), *final(project)),
    {
        self.is_drawing = true;
        self.last_pos = None;
        self.current_stroke.clear();
        self.apply_at(e, ctx, project);
    }

    /// While drawing, stamps the way from the previous cell to the one
    /// under the pointer.
    pub fn on_pointer_move(&mut self, e: &PointerInput, ctx: &ToolContext, project: &mut Project)
        requires
            ctx.wf(),
            old(project).wf(),
        ensures
            final(project).wf(),
            brush_moved(*old(self), *final(self), *e, *ctx, *old(project), *final(project)),
    {
        if !self.is_drawing {
            return;
        }
        self.apply_at(e, ctx, project);
    }

    /// Ends the stroke and records it, if it changed anything.
    pub fn on_pointer_up(&mut self, ctx: &ToolContext, project: &mut Project)
        ensures
            brush_released(*old(self), *final(self), *ctx, *old(project), *final(project)),
    {
        self.is_drawing = false;
        self.last_pos = None;
        flush_stroke(project, ctx.selected_layer, &mut self.current_stroke);
    }

    fn apply_at(&mut self, e: &PointerInput, ctx: &ToolContext, project: &mut Project)
        requires
            ctx.wf(),
            old(project).wf(),
        ensures
            final(project).wf(),
            final(self).is_drawing == old(self).is_drawing,
            ({
                let r = brush_radius(ctx.brush_size);
                tip_step(
                    old(self).last_pos,
                    old(self).current_stroke@,
                    final(self).last_pos,
                    final(self).current_stroke@,
                    *e,
                    *ctx,
                    *old(project),
                    *final(project),
                    old(project).current_color,
                    r,
                    4 * r * r,
                )
            }),
    {
        let (r, q) = brush_tip(ctx.brush_size);
        let color = project.current_color;
        stamp_move(&mut self.last_pos, &mut self.current_stroke, e, ctx, project, color, r, q);
    }

    /// Drops the stroke in progress.
    pub fn cancel(&mut self)
        ensures
            brush_cancelled(*final(self)),
    {
        self.is_drawing = false;
        self.last_pos = None;
        self.current_stroke.clear();
    }

    pub fn cursor(&self) -> (r: &'static str)
        ensures
            r@ == "crosshair"@,
    {
        "crosshair"
    }
}

/// The eraser: the round brush, painting full transparency.
pub struct EraserState {
    pub is_drawing: bool,
    pub last_pos: Option<(i32, i32)>,
    pub current_stroke: Vec<PixelDiff>,
}

impl EraserState {
    pub fn new() -> (s: Self)
        ensures
            !s.is_drawing,
            s.last_pos.is_none(),
            s.current_stroke@.len() == 0,
    {
        EraserState { is_drawing: false, last_pos: None, current_stroke: Vec::new() }
    }

    /// Starts a stroke and erases around the pressed cell.
    pub fn on_pointer_down(&mut self, e: &PointerInput, ctx: &ToolContext, project: &mut Project)
        requires
            ctx.wf(),
            old(project).wf(),
        ensures
            final(project).wf(),
            eraser_pressed(*final(self), *e, *ctx, *old(project), *final(project)),
    {
        self.is_drawing = true;
        self.last_pos = None;
        self.current_stroke.clear();
        let (r, q) = brush_tip(ctx.brush_size);
        stamp_move(&mut self.last_pos, &mut self.current_stroke, e, ctx, project, transparent_color(), r, q);
    }

    /// While drawing, erases the way from the previous cell to the one
    /// under the pointer.
    pub fn on_pointer_move(&mut self, e: &PointerInput, ctx: &ToolContext, project: &mut Project)
        requires
            ctx.wf(),
            old(project).wf(),
        ensures
            final(project).wf(),
            eraser_moved(*old(self), *final(self), *e, *ctx, *old(project), *final(project)),
    {
        if !self.is_drawing {
            return;
        }
        let (r, q) = brush_tip(ctx.brush_size);
        stamp_move(&mut self.last_pos, &mut self.current_stroke, e, ctx, project, transparent_color(), r, q);
    }

    /// Ends the stroke and records it, if it changed anything.
    pub fn on_pointer_up(&mut self, ctx: &ToolContext, project: &mut Project)
        ensures
            eraser_released(*old(self), *final(self), *ctx, *old(project), *final(project)),
    {
        self.is_drawing = false;
        self.last_pos = None;
        flush_stroke(project, ctx.selected_layer, &mut self.current_stroke);
    }

    /// Drops the stroke in progress.
    pub fn cancel(&mut self)
        ensures
            eraser_cancelled(*final(self)),
    {
        self.is_drawing = false;
        self.last_pos = None;
        self.current_stroke.clear();
    }

    pub fn cursor(&self) -> (r: &'static str)
        ensures
            r@ == "crosshair"@,
    {
        "crosshair"
    }
}

} // verus!
