use vstd::prelude::*;
use crate::project::{first_with_id, Project};
use crate::tools::context::{PointerInput, ToolContext};
use crate::tools::select::{
    cursor_for_handle, extracted, handle_cursor, points_rect, handle_at, ordered_records, pasted, point_in_limits, resize_rect,
    resized_rect, scale_buffer, scaled, span_h, span_w, spec_handle_at, ResizeHandle, SelectionRect,
    COORD_LIMIT,
};
use crate::tools::selection::{commit_effect, commit_selection, cut_buffer, layer_content_set, SelectionState};

verus! {

/// What the pointer is doing to the selection.
#[derive(Clone, Copy, Debug)]
pub enum SelectMode {
    Idle,
    Creating { start: (i32, i32) },
    Moving { start: (i32, i32), orig: SelectionRect },
    Resizing { start: (i32, i32), orig: SelectionRect, handle: ResizeHandle },
}

/// The rectangular selection tool, holding the open selection.
pub struct SelectState {
    pub pointer_id: Option<i32>,
    pub mode: SelectMode,
    pub hover_handle: Option<ResizeHandle>,
    pub hover_inside: bool,
    pub selection: Option<SelectionState>,
}

/// The first layer carrying `id` exists and can be edited.
pub open spec fn layer_editable(p: Project, id: usize) -> bool {
    exists|i: int| first_with_id(p.layers@, id, i) && p.layers@[i].editable()
}

/// A press at `p` grabs the open selection on layer `id`: by a grip or by
/// its body.
pub open spec fn grabs(sel: Option<SelectionState>, id: usize, p: (i32, i32), zoom_percent: int) -> bool {
    &&& sel.is_some()
    &&& sel.unwrap().layer_id == id
    &&& (spec_handle_at(sel.unwrap().rect, p.0 as int, p.1 as int, zoom_percent).is_some()
        || sel.unwrap().rect.spec_contains(p.0 as int, p.1 as int))
}

/// The one-cell rectangle at `p`.
pub open spec fn cell_rect(p: (i32, i32)) -> SelectionRect {
    SelectionRect { x: p.0, y: p.1, w: 1, h: 1 }
}

/// The selection with its rectangle replaced.
pub open spec fn with_rect(sel: Option<SelectionState>, r: SelectionRect) -> Option<SelectionState> {
    match sel {
        Some(s) => Some(SelectionState { rect: r, ..s }),
        None => None,
    }
}

/// `(x, y, w, h)` fits the tool's coordinate bound.
pub open spec fn fits(r: (int, int, int, int)) -> bool {
    &&& -COORD_LIMIT <= r.0 <= COORD_LIMIT
    &&& -COORD_LIMIT <= r.1 <= COORD_LIMIT
    &&& 0 <= r.2 <= 2 * COORD_LIMIT + 1
    &&& 0 <= r.3 <= 2 * COORD_LIMIT + 1
}

pub open spec fn as_rect(r: (int, int, int, int)) -> SelectionRect {
    SelectionRect { x: r.0 as i32, y: r.1 as i32, w: r.2 as i32, h: r.3 as i32 }
}

/// `orig` moved by the pointer's travel from `start` to `p`.
pub open spec fn moved_rect(orig: SelectionRect, start: (i32, i32), p: (i32, i32)) -> (int, int, int, int) {
    (orig.x + (p.0 - start.0), orig.y + (p.1 - start.1), orig.w as int, orig.h as int)
}

/// The rectangle a drag to `p` makes in `mode`, where the drag is the
/// tool's own and stays in bounds.
pub open spec fn dragged_rect(mode: SelectMode, p: (i32, i32)) -> Option<SelectionRect> {
    match mode {
        SelectMode::Idle => None,
        SelectMode::Creating { start } => Some(points_rect(start, p)),
        SelectMode::Moving { start, orig } => if fits(moved_rect(orig, start, p)) {
            Some(as_rect(moved_rect(orig, start, p)))
        } else {
            None
        },
        SelectMode::Resizing { start, orig, handle } => {
            let r = resized_rect(orig, handle, p.0 - start.0, p.1 - start.1);
            if fits(r) {
                Some(as_rect(r))
            } else {
                None
            }
        },
    }
}

/// A press grabs the open selection (by a grip to resize it, by its body
/// to move it, lifting its pixels on the first grab) or commits it and
/// starts a new one at the pressed cell.
pub open spec fn select_pressed(a: SelectState, b: SelectState, e: PointerInput, ctx: ToolContext, p0: Project, p1: Project) -> bool {
    &&& b.hover_handle == a.hover_handle
    &&& b.hover_inside == a.hover_inside
    &&& ({
        let p = ctx.point_of(e);
        let id = ctx.selected_layer.unwrap();
        let z = ctx.zoom_percent as int;
        let sel = a.selection;
        if a.pointer_id.is_some() || ctx.selected_layer.is_none()
            || !layer_editable(p0, id) || !point_in_limits(p)
            || (grabs(sel, id, p, z) && sel.unwrap().buffer.is_none()
                && span_w(sel.unwrap().rect) * span_h(sel.unwrap().rect) > usize::MAX) {
            b == a && p1 == p0
        } else if grabs(sel, id, p, z) {
            let s0 = sel.unwrap();
            let s1 = b.selection.unwrap();
            let handle = spec_handle_at(s0.rect, p.0 as int, p.1 as int, z);
            &&& b.pointer_id == Some(e.pointer_id)
            &&& b.mode == match handle {
                Some(hd) => SelectMode::Resizing { start: p, orig: s0.rect, handle: hd },
                None => SelectMode::Moving { start: p, orig: s0.rect },
            }
            &&& b.selection.is_some()
            &&& s1.layer_id == s0.layer_id
            &&& s1.rect == s0.rect
            &&& s1.buffer.is_some()
            &&& s0.buffer.is_some() ==> s1 == s0 && p1 == p0
            &&& s0.buffer.is_none() ==> {
                let i = choose|i: int| first_with_id(p0.layers@, id, i);
                let c = p0.layers@[i].canvas;
                let cut = pasted(c.content@, c.width as int, s0.rect, 0, Seq::empty());
                &&& s1.buffer.unwrap().width == span_w(s0.rect)
                &&& s1.buffer.unwrap().height == span_h(s0.rect)
                &&& s1.buffer.unwrap().pixels@ == extracted(c.content@, c.width as int, c.height as int, s0.rect)
                &&& layer_content_set(p0.layers@, p1.layers@, i, cut)
                &&& p1.history == p0.history
                &&& ordered_records(c.content@, cut, c.width as int, c.height as int, s1.original_pixels@)
            }
        } else {
            &&& b.pointer_id == Some(e.pointer_id)
            &&& b.mode == SelectMode::Creating { start: p }
            &&& b.selection.is_some()
            &&& b.selection.unwrap().layer_id == id
            &&& b.selection.unwrap().rect == cell_rect(p)
            &&& b.selection.unwrap().buffer.is_none()
            &&& b.selection.unwrap().original_pixels@.len() == 0
            &&& sel.is_some() ==> commit_effect(p0, p1, sel.unwrap())
            &&& sel.is_none() ==> p1 == p0
        }
    })
}

/// A move reshapes the selection during the tool's drag, or tracks the
/// hovered grip.
pub open spec fn select_moved(a: SelectState, b: SelectState, e: PointerInput, ctx: ToolContext) -> bool {
    &&& b.pointer_id == a.pointer_id
    &&& b.mode == a.mode
    &&& ({
        let p = ctx.point_of(e);
        let sel = a.selection;
        match a.mode {
            SelectMode::Idle => {
                &&& b.selection == sel
                &&& b.hover_handle == if sel.is_some() {
                    spec_handle_at(sel.unwrap().rect, p.0 as int, p.1 as int, ctx.zoom_percent as int)
                } else {
                    None
                }
                &&& b.hover_inside == (sel.is_some() && sel.unwrap().rect.spec_contains(p.0 as int, p.1 as int))
            },
            _ => {
                &&& b.hover_handle == a.hover_handle
                &&& b.hover_inside == a.hover_inside
                &&& if a.pointer_id == Some(e.pointer_id) && point_in_limits(p)
                    && dragged_rect(a.mode, p).is_some() {
                    b.selection == with_rect(sel, dragged_rect(a.mode, p).unwrap())
                } else {
                    b.selection == sel
                }
            },
        }
    })
}

/// A release ends the tool's drag.
pub open spec fn select_released(a: SelectState, b: SelectState, e: PointerInput) -> bool {
    &&& b.hover_handle == a.hover_handle
    &&& b.hover_inside == a.hover_inside
    &&& a.pointer_id != Some(e.pointer_id) ==> b == a
    &&& a.pointer_id == Some(e.pointer_id) ==> {
        let sel = a.selection;
        &&& b.pointer_id.is_none()
        &&& b.mode == SelectMode::Idle
        &&& match a.mode {
            SelectMode::Creating { start } => if sel.is_some() && (sel.unwrap().rect.w <= 0
                || sel.unwrap().rect.h <= 0 || sel.unwrap().rect == cell_rect(start)) {
                b.selection.is_none()
            } else {
                b.selection == sel
            },
            SelectMode::Resizing { .. } => if sel.is_some() && sel.unwrap().buffer.is_some()
                && span_w(sel.unwrap().rect) * span_h(sel.unwrap().rect) <= usize::MAX {
                let s0 = sel.unwrap();
                let b0 = s0.buffer.unwrap();
                let s1 = b.selection.unwrap();
                &&& b.selection.is_some()
                &&& s1.layer_id == s0.layer_id
                &&& s1.rect == s0.rect
                &&& s1.original_pixels == s0.original_pixels
                &&& s1.buffer.is_some()
                &&& s1.buffer.unwrap().width == span_w(s0.rect)
                &&& s1.buffer.unwrap().height == span_h(s0.rect)
                &&& s1.buffer.unwrap().pixels@ == scaled(b0.width as int, b0.height as int, b0.pixels@, span_w(s0.rect), span_h(s0.rect))
            } else {
                b.selection == sel
            },
            _ => b.selection == sel,
        }
    }
}

/// Cancelling ends the drag; the selection stays open.
pub open spec fn select_cancelled(a: SelectState, b: SelectState) -> bool {
    b == (SelectState { pointer_id: None, mode: SelectMode::Idle, ..a })
}

/// The pointer shape: the grip's arrow while resizing or hovering a grip,
/// the move cross while moving or hovering the body, else a crosshair.
pub open spec fn select_cursor(a: SelectState) -> Seq<char> {
    match a.mode {
        SelectMode::Resizing { handle, .. } => handle_cursor(handle),
        SelectMode::Moving { .. } => "move"@,
        _ => if a.hover_handle.is_some() {
            handle_cursor(a.hover_handle.unwrap())
        } else if a.hover_inside {
            "move"@
        } else {
            "crosshair"@
        },
    }
}

impl SelectState {
    pub open spec fn wf(&self) -> bool {
        &&& self.selection.is_some() ==> self.selection.unwrap().rect.in_limits()
        &&& match self.mode {
            SelectMode::Idle => true,
            SelectMode::Creating { start } => point_in_limits(start),
            SelectMode::Moving { start, orig } => point_in_limits(start) && orig.in_limits(),
            SelectMode::Resizing { start, orig, handle } => point_in_limits(start) && orig.in_limits(),
        }
    }

    /// No selection, nothing under way.
    pub fn new() -> (s: Self)
        ensures
            s.wf(),
            s.pointer_id.is_none(),
            s.mode == SelectMode::Idle,
            s.hover_handle.is_none(),
            !s.hover_inside,
            s.selection.is_none(),
    {
        SelectState { pointer_id: None, mode: SelectMode::Idle, hover_handle: None, hover_inside: false, selection: None }
    }

    /// A press either grabs the open selection (by a grip to resize it, by
    /// its body to move it, lifting its pixels on the first grab) or
    /// commits it and starts a new one at the pressed cell.
    pub fn on_pointer_down(&mut self, e: &PointerInput, ctx: &ToolContext, project: &mut Project)
        requires
            ctx.wf(),
            old(project).wf(),
            old(self).wf(),
        ensures
            final(project).wf(),
            final(self).wf(),
            select_pressed(*old(self), *final(self), *e, *ctx, *old(project), *final(project)),
    {
        if self.pointer_id.is_some() {
            return;
        }
        let layer_id = match ctx.selected_layer {
            Some(id) => id,
            None => return,
        };
        match project.editable_layer(layer_id) {
            Some(_) => {},
            None => return,
        }
        let (x, y) = ctx.canvas_point(e);
        if x < -COORD_LIMIT || x > COORD_LIMIT || y < -COORD_LIMIT || y > COORD_LIMIT {
            return;
        }
        let mut grabbed: Option<Option<ResizeHandle>> = None;
        let mut needs_cut = false;
        match &self.selection {
            Some(sel) => {
                if sel.layer_id == layer_id {
                    let handle = handle_at(sel.rect, x, y, ctx.zoom_percent);
                    if handle.is_some() || sel.rect.contains(x, y) {
                        grabbed = Some(handle);
                        needs_cut = sel.buffer.is_none();
                    }
                }
            },
            None => {},
        }
        match grabbed {
            Some(handle) => {
                let mut sel = self.selection.take().unwrap();
                let rect = sel.rect;
                if needs_cut {
                    let bw: u64 = if rect.w < 1 { 1 } else { rect.w as u64 };
                    let bh: u64 = if rect.h < 1 { 1 } else { rect.h as u64 };
                    assert(bw * bh <= 0x4000_0001 * 0x4000_0001) by (nonlinear_arith)
                        requires
                            bw <= 0x4000_0001,
                            bh <= 0x4000_0001,
                    ;
                    if bw * bh > usize::MAX as u64 {
                        self.selection = Some(sel);
                        return;
                    }
                    let (buffer, diffs) = cut_buffer(project, layer_id, rect);
                    sel.buffer = Some(buffer);
                    sel.original_pixels = diffs;
                    proof {
                        let p0 = *old(project);
                        let i = choose|i: int| first_with_id(p0.layers@, layer_id, i) && p0.layers@[i].editable();
                        let c = p0.layers@[i].canvas;
                        let cut = pasted(c.content@, c.width as int, rect, 0, Seq::empty());
                        let j = choose|j: int| first_with_id(p0.layers@, layer_id, j);
                        assert(i == j);
                    }
                }
                self.selection = Some(sel);
                self.pointer_id = Some(e.pointer_id);
                self.mode = match handle {
                    Some(hd) => SelectMode::Resizing { start: (x, y), orig: rect, handle: hd },
                    None => SelectMode::Moving { start: (x, y), orig: rect },
                };
            },
            None => {
                match &self.selection {
                    Some(sel) => commit_selection(project, sel),
                    None => {},
                }
                let rect = SelectionRect::from_points((x, y), (x, y));
                self.selection = Some(SelectionState { layer_id, rect, buffer: None, original_pixels: Vec::new() });
                self.pointer_id = Some(e.pointer_id);
                self.mode = SelectMode::Creating { start: (x, y) };
            },
        }
    }

    /// While the tool's pointer drags, reshapes the selection: spans it
    /// from the press point, moves it, or drags the grabbed grip. With no
    /// drag under way, tracks which grip or body the pointer hovers over.
    pub fn on_pointer_move(&mut self, e: &PointerInput, ctx: &ToolContext)
        requires
            ctx.wf(),
            old(self).wf(),
        ensures
            final(self).wf(),
            select_moved(*old(self), *final(self), *e, *ctx),
    {
        let (x, y) = ctx.canvas_point(e);
        let in_limits = -COORD_LIMIT <= x && x <= COORD_LIMIT && -COORD_LIMIT <= y && y <= COORD_LIMIT;
        let rect = match self.mode {
            SelectMode::Idle => {
                self.update_hover(ctx, x, y);
                return;
            },
            SelectMode::Creating { start } => {
                if self.pointer_id != Some(e.pointer_id) || !in_limits {
                    return;
                }
                SelectionRect::from_points(start, (x, y))
            },
            SelectMode::Moving { start, orig } => {
                if self.pointer_id != Some(e.pointer_id) || !in_limits {
                    return;
                }
                let nx = orig.x as i64 + (x as i64 - start.0 as i64);
                let ny = orig.y as i64 + (y as i64 - start.1 as i64);
                if nx < -(COORD_LIMIT as i64) || nx > COORD_LIMIT as i64 || ny < -(COORD_LIMIT as i64) || ny > COORD_LIMIT as i64 {
                    return;
                }
                SelectionRect { x: nx as i32, y: ny as i32, w: orig.w, h: orig.h }
            },
            SelectMode::Resizing { start, orig, handle } => {
                if self.pointer_id != Some(e.pointer_id) || !in_limits {
                    return;
                }
                let r = resize_rect(orig, handle, x - start.0, y - start.1);
                if r.x < -COORD_LIMIT || r.x > COORD_LIMIT || r.y < -COORD_LIMIT || r.y > COORD_LIMIT
                    || r.w < 0 || r.w > 2 * COORD_LIMIT + 1 || r.h < 0 || r.h > 2 * COORD_LIMIT + 1 {
                    return;
                }
                r
            },
        };
        let taken = self.selection.take();
        self.selection = match taken {
            Some(sel) => Some(SelectionState { rect, ..sel }),
            None => None,
        };
    }

    fn update_hover(&mut self, ctx: &ToolContext, x: i32, y: i32)
        ensures
            final(self).pointer_id == old(self).pointer_id,
            final(self).mode == old(self).mode,
            final(self).selection == old(self).selection,
            final(self).hover_handle == if old(self).selection.is_some() {
                spec_handle_at(old(self).selection.unwrap().rect, x as int, y as int, ctx.zoom_percent as int)
            } else {
                None
            },
            final(self).hover_inside == (old(self).selection.is_some() && old(self).selection.unwrap().rect.spec_contains(x as int, y as int)),
    {
        let mut handle: Option<ResizeHandle> = None;
        let mut inside = false;
        match &self.selection {
            Some(sel) => {
                handle = handle_at(sel.rect, x, y, ctx.zoom_percent);
                inside = sel.rect.contains(x, y);
            },
            None => {},
        }
        self.hover_handle = handle;
        self.hover_inside = inside;
    }

    /// Ends the tool's drag. A selection spanned by a click without a drag
    /// (or with no area) is dropped; after a resize the held pixels are
    /// resampled to the new size.
    pub fn on_pointer_up(&mut self, e: &PointerInput)
        requires
            old(self).wf(),
        ensures
            final(self).wf(),
            select_released(*old(self), *final(self), *e),
    {
        if self.pointer_id != Some(e.pointer_id) {
            return;
        }
        match self.mode {
            SelectMode::Creating { start } => {
                let drop = match &self.selection {
                    Some(sel) => sel.rect.is_empty() || sel.rect == SelectionRect { x: start.0, y: start.1, w: 1, h: 1 },
                    None => false,
                };
                if drop {
                    self.selection = None;
                }
            },
            SelectMode::Resizing { .. } => {
                let taken = self.selection.take();
                self.selection = match taken {
                    Some(sel) => {
                        let rect = sel.rect;
                        let bw: u64 = if rect.w < 1 { 1 } else { rect.w as u64 };
                        let bh: u64 = if rect.h < 1 { 1 } else { rect.h as u64 };
                        assert(bw * bh <= 0x4000_0001 * 0x4000_0001) by (nonlinear_arith)
                            requires
                                bw <= 0x4000_0001,
                                bh <= 0x4000_0001,
                        ;
                        if bw * bh <= usize::MAX as u64 {
                            match &sel.buffer {
                                Some(b) => {
                                    let scaled_buffer = scale_buffer(b, rect.w as u32, rect.h as u32);
                                    Some(SelectionState { buffer: Some(scaled_buffer), ..sel })
                                },
                                None => Some(sel),
                            }
                        } else {
                            Some(sel)
                        }
                    },
                    None => None,
                };
            },
            _ => {},
        }
        self.pointer_id = None;
        self.mode = SelectMode::Idle;
    }

    /// Abandons the drag in progress; the selection stays open.
    pub fn cancel(&mut self)
        requires
            old(self).wf(),
        ensures
            final(self).wf(),
            select_cancelled(*old(self), *final(self)),
    {
        self.pointer_id = None;
        self.mode = SelectMode::Idle;
    }

    /// Commits the open selection, if any, and closes it.
    pub fn deselect(&mut self, project: &mut Project)
        requires
            old(self).wf(),
            old(project).wf(),
        ensures
            final(self).wf(),
            final(project).wf(),
            final(self).selection.is_none(),
            final(self).pointer_id.is_none(),
            final(self).mode == SelectMode::Idle,
            old(self).selection.is_some() ==> commit_effect(*old(project), *final(project), old(self).selection.unwrap()),
            old(self).selection.is_none() ==> *final(project) == *old(project),
    {
        match &self.selection {
            Some(sel) => commit_selection(project, sel),
            None => {},
        }
        self.selection = None;
        self.pointer_id = None;
        self.mode = SelectMode::Idle;
    }

    /// The pointer shape: the grip's arrow while resizing or hovering a
    /// grip, the move cross while moving or hovering the body, else a
    /// crosshair.
    pub fn cursor(&self) -> (r: &'static str)
        ensures
            r@ == select_cursor(*self),
    {
        match self.mode {
            SelectMode::Resizing { handle, .. } => {
                return cursor_for_handle(handle);
            },
            SelectMode::Moving { .. } => {
                return "move";
            },
            _ => {},
        }
        match self.hover_handle {
            Some(handle) => cursor_for_handle(handle),
            None => if self.hover_inside {
                "move"
            } else {
                "crosshair"
            },
        }
    }
}

} // verus!
