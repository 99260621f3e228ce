use vstd::prelude::*;
use crate::geometry::{draw_line, line_seq32};
use crate::history::PixelDiff;
use crate::project::{first_with_id, paint_on_layer, painted_move, Project};
use crate::tools::context::{PointerInput, ToolContext};
use crate::tools::pen::flush_stroke;
use crate::tools::stroke::{disk_stamp, stamp_targets};

verus! {

/// The straight-line tool: a first press sets the start, a second one draws
/// the segment with a round tip of diameter `brush_size` and records it.
pub struct LineState {
    pub start_point: Option<(i32, i32)>,
    pub current_stroke: Vec<PixelDiff>,
}

/// A press sets the start point, or draws from it to the pressed cell and
/// records the stroke.
pub open spec fn line_pressed(a: LineState, b: LineState, e: PointerInput, ctx: ToolContext, p0: Project, p1: Project) -> bool {
    &&& b.current_stroke@.len() == 0
    &&& ({
        let p = ctx.point_of(e);
        let id = ctx.selected_layer.unwrap();
        let size = ctx.brush_size as int;
        match a.start_point {
            None => b.start_point == Some(p) && p1 == p0,
            Some(s) => if ctx.selected_layer.is_none() {
                b.start_point == a.start_point && p1 == p0
            } else {
                let pts = disk_stamp(line_seq32(s.0 as int, s.1 as int, p.0 as int, p.1 as int), size / 2, size * size);
                &&& b.start_point.is_none()
                &&& if (exists|i: int| first_with_id(p0.layers@, id, i) && p0.layers@[i].editable())
                    && line_seq32(s.0 as int, s.1 as int, p.0 as int, p.1 as int).len() * ((2 * (size / 2) + 1) * (2 * (size / 2) + 1)) <= usize::MAX {
                    exists|mid: Project, ds: Seq<PixelDiff>|
                        #[trigger] painted_move(p0, mid, Seq::empty(), ds, id, pts, p0.current_color)
                        && (ds.len() == 0 ==> p1 == mid)
                        && (ds.len() > 0 ==> crate::project::stroke_recorded(mid, p1, id, ds))
                } else {
                    p1 == p0
                }
            },
        }
    })
}

/// A release keeps the start point and drops pending diffs.
pub open spec fn line_released(a: LineState, b: LineState) -> bool {
    b.start_point == a.start_point && b.current_stroke@.len() == 0
}

/// Cancelling forgets the start point.
pub open spec fn line_cancelled(b: LineState) -> bool {
    b.start_point.is_none() && b.current_stroke@.len() == 0
}

impl LineState {
    pub fn new() -> (s: Self)
        ensures
            s.start_point.is_none(),
            s.current_stroke@.len() == 0,
    {
        LineState { start_point: None, current_stroke: Vec::new() }
    }

    /// Sets the start point, or draws from it to the pressed cell.
    pub fn on_pointer_down(&mut self, e: &PointerInput, ctx: &ToolContext, project: &mut Project)
        requires
            ctx.wf(),
            old(project).wf(),
            old(self).current_stroke@.len() == 0,
        ensures
            final(project).wf(),
            line_pressed(*old(self), *final(self), *e, *ctx, *old(project), *final(project)),
    {
        let (x, y) = ctx.canvas_point(e);
        let (sx, sy) = match self.start_point {
            None => {
                self.start_point = Some((x, y));
                return;
            },
            Some(s) => s,
        };
        let layer_id = match ctx.selected_layer {
            Some(id) => id,
            None => return,
        };
        let size = ctx.brush_size;
        assert((size as u128) * (size as u128) <= 0xffff_ffff * 0xffff_ffff) by (nonlinear_arith)
            requires
                size <= 0xffff_ffff,
        ;
        let color = project.current_color;
        let targets = draw_line(sx, sy, x, y);
        match project.editable_layer(layer_id) {
            Some(_) => {
                match stamp_targets(&targets, (size / 2) as u64, (size as u128) * (size as u128)) {
                    Some(pts) => {
                        let ghost p0 = *project;
                        assert(self.current_stroke@ =~= Seq::<PixelDiff>::empty());
                        paint_on_layer(project, layer_id, &pts, color, &mut self.current_stroke);
                        let ghost mid = *project;
                        let ghost ds = self.current_stroke@;
                        assert(ds.subrange(0, 0) =~= Seq::<PixelDiff>::empty());
                        assert(ds.subrange(0, ds.len() as int) =~= ds);
                        flush_stroke(project, Some(layer_id), &mut self.current_stroke);
                        self.current_stroke.clear();
                        assert(pts@ == disk_stamp(line_seq32(sx as int, sy as int, x as int, y as int), (size / 2) as int, (size * size) as int));
                        assert(exists|m: Project, d: Seq<PixelDiff>|
                            #[trigger] painted_move(p0, m, Seq::empty(), d, layer_id, pts@, color)
                            && (d.len() == 0 ==> *project == m)
                            && (d.len() > 0 ==> crate::project::stroke_recorded(m, *project, layer_id, d)));
                    },
                    None => {},
                }
            },
            None => {},
        }
        self.start_point = None;
    }

    /// Releasing keeps the start point and drops pending diffs.
    pub fn on_pointer_up(&mut self)
        ensures
            line_released(*old(self), *final(self)),
    {
        self.current_stroke.clear();
    }

    /// Forgets the start point.
    pub fn cancel(&mut self)
        ensures
            line_cancelled(*final(self)),
    {
        self.start_point = None;
        self.current_stroke.clear();
    }

    pub fn cursor(&self) -> (r: &'static str)
        ensures
            r@ == "crosshair"@,
    {
        "crosshair"
    }
}

} // verus!
