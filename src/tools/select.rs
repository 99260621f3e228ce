use vstd::prelude::*;
use crate::canvas::{cell, lemma_cell_in_bounds, lemma_cell_of_index, Canvas};
use crate::color::{transparent, transparent_color, Color};
use crate::history::PixelDiff;
use crate::layer::Layer;
use crate::pixel::Pixel;

verus! {

/// Bound on the coordinates the selection tool works with; points farther
/// out are ignored, which keeps every rectangle computation within `i32`.
pub const COORD_LIMIT: i32 = 0x1000_0000;

/// One of the eight grips of a selection: four corners, four edge midpoints.
#[derive(Clone, Copy, Debug, PartialEq, Eq, Structural)]
pub enum ResizeHandle {
    Nw,
    Ne,
    Se,
    Sw,
    N,
    E,
    S,
    W,
}

/// A rectangle of canvas cells: top-left corner and size.
#[derive(Clone, Copy, Debug, PartialEq, Eq, Structural)]
pub struct SelectionRect {
    pub x: i32,
    pub y: i32,
    pub w: i32,
    pub h: i32,
}

pub open spec fn point_in_limits(p: (i32, i32)) -> bool {
    -COORD_LIMIT <= p.0 <= COORD_LIMIT && -COORD_LIMIT <= p.1 <= COORD_LIMIT
}

/// The smallest rectangle holding both cells.
pub open spec fn points_rect(a: (i32, i32), b: (i32, i32)) -> SelectionRect {
    SelectionRect {
        x: if a.0 <= b.0 { a.0 } else { b.0 },
        y: if a.1 <= b.1 { a.1 } else { b.1 },
        w: ((if a.0 <= b.0 { b.0 - a.0 } else { a.0 - b.0 }) + 1) as i32,
        h: ((if a.1 <= b.1 { b.1 - a.1 } else { a.1 - b.1 }) + 1) as i32,
    }
}

impl SelectionRect {
    /// Position and size stay within the tool's coordinate bound.
    pub open spec fn in_limits(&self) -> bool {
        &&& -COORD_LIMIT <= self.x <= COORD_LIMIT
        &&& -COORD_LIMIT <= self.y <= COORD_LIMIT
        &&& 0 <= self.w <= 2 * COORD_LIMIT + 1
        &&& 0 <= self.h <= 2 * COORD_LIMIT + 1
    }

    pub open spec fn spec_contains(&self, x: int, y: int) -> bool {
        self.x <= x < self.x + self.w && self.y <= y < self.y + self.h
    }

    pub fn is_empty(&self) -> (r: bool)
        ensures
            r == (self.w <= 0 || self.h <= 0),
    {
        self.w <= 0 || self.h <= 0
    }

    pub fn contains(&self, x: i32, y: i32) -> (r: bool)
        ensures
            r == self.spec_contains(x as int, y as int),
    {
        let (px, py) = (x as i64, y as i64);
        px >= self.x as i64 && py >= self.y as i64 && px < self.x as i64 + self.w as i64 && py
            < self.y as i64 + self.h as i64
    }

    /// The smallest rectangle holding both cells, whichever way round they
    /// are given.
    pub fn from_points(a: (i32, i32), b: (i32, i32)) -> (r: Self)
        requires
            point_in_limits(a),
            point_in_limits(b),
        ensures
            r.in_limits(),
            r == points_rect(a, b),
            r.x == if a.0 <= b.0 { a.0 } else { b.0 },
            r.y == if a.1 <= b.1 { a.1 } else { b.1 },
            r.w == (if a.0 <= b.0 { b.0 - a.0 } else { a.0 - b.0 }) + 1,
            r.h == (if a.1 <= b.1 { b.1 - a.1 } else { a.1 - b.1 }) + 1,
    {
        let x0 = if a.0 <= b.0 { a.0 } else { b.0 };
        let y0 = if a.1 <= b.1 { a.1 } else { b.1 };
        let x1 = if a.0 <= b.0 { b.0 } else { a.0 };
        let y1 = if a.1 <= b.1 { b.1 } else { a.1 };
        SelectionRect { x: x0, y: y0, w: x1 - x0 + 1, h: y1 - y0 + 1 }
    }
}

/// The rectangle `orig` with the edges that `handle` grabs moved by
/// `(dx, dy)`, the opposite edges pinned; an edge dragged past its opposite
/// stops on it, leaving a rectangle of zero width or height there.
pub open spec fn resized_rect(orig: SelectionRect, handle: ResizeHandle, dx: int, dy: int) -> (int, int, int, int) {
    let moves_left = handle == ResizeHandle::Nw || handle == ResizeHandle::Sw || handle == ResizeHandle::W;
    let moves_right = handle == ResizeHandle::Ne || handle == ResizeHandle::Se || handle == ResizeHandle::E;
    let moves_top = handle == ResizeHandle::Nw || handle == ResizeHandle::Ne || handle == ResizeHandle::N;
    let moves_bottom = handle == ResizeHandle::Se || handle == ResizeHandle::Sw || handle == ResizeHandle::S;
    let left0 = if moves_left { orig.x + dx } else { orig.x as int };
    let right0 = if moves_right { orig.x + orig.w + dx } else { orig.x + orig.w };
    let top0 = if moves_top { orig.y + dy } else { orig.y as int };
    let bottom0 = if moves_bottom { orig.y + orig.h + dy } else { orig.y + orig.h };
    let left = if right0 < left0 && moves_left { right0 } else { left0 };
    let right = if right0 < left0 && !moves_left { left0 } else { right0 };
    let top = if bottom0 < top0 && moves_top { bottom0 } else { top0 };
    let bottom = if bottom0 < top0 && !moves_top { top0 } else { bottom0 };
    (left, top, right - left, bottom - top)
}

/// Drags the grabbed edges of `orig` by `(dx, dy)`.
pub fn resize_rect(orig: SelectionRect, handle: ResizeHandle, dx: i32, dy: i32) -> (r: SelectionRect)
    requires
        orig.in_limits(),
        -2 * COORD_LIMIT <= dx <= 2 * COORD_LIMIT,
        -2 * COORD_LIMIT <= dy <= 2 * COORD_LIMIT,
    ensures
        (r.x as int, r.y as int, r.w as int, r.h as int) == resized_rect(orig, handle, dx as int, dy as int),
{
    let moves_left = matches!(handle, ResizeHandle::Nw | ResizeHandle::Sw | ResizeHandle::W);
    let moves_right = matches!(handle, ResizeHandle::Ne | ResizeHandle::Se | ResizeHandle::E);
    let moves_top = matches!(handle, ResizeHandle::Nw | ResizeHandle::Ne | ResizeHandle::N);
    let moves_bottom = matches!(handle, ResizeHandle::Se | ResizeHandle::Sw | ResizeHandle::S);
    let mut left: i32 = orig.x;
    let mut right: i32 = orig.x + orig.w;
    let mut top: i32 = orig.y;
    let mut bottom: i32 = orig.y + orig.h;
    if moves_left {
        left = left + dx;
    }
    if moves_right {
        right = right + dx;
    }
    if moves_top {
        top = top + dy;
    }
    if moves_bottom {
        bottom = bottom + dy;
    }
    if right < left {
        if moves_left {
            left = right;
        } else {
            right = left;
        }
    }
    if bottom < top {
        if moves_top {
            top = bottom;
        } else {
            bottom = top;
        }
    }
    SelectionRect { x: left, y: top, w: right - left, h: bottom - top }
}

/// `v` is within the grab tolerance of `edge`: six screen pixels, that is
/// `600 / zoom_percent` canvas cells.
pub open spec fn near(v: int, edge: int, zoom_percent: int) -> bool {
    (if v >= edge { v - edge } else { edge - v }) * zoom_percent <= 600
}

/// `v` lies strictly between `lo` and `hi`, clear of both by more than the
/// grab tolerance.
pub open spec fn well_between(v: int, lo: int, hi: int, zoom_percent: int) -> bool {
    (v - lo) * zoom_percent > 600 && (hi - v) * zoom_percent > 600
}

/// The grip under `(x, y)`, if any: corners first, then edges.
pub open spec fn spec_handle_at(rect: SelectionRect, x: int, y: int, z: int) -> Option<ResizeHandle> {
    let left = rect.x as int;
    let right = rect.x + rect.w;
    let top = rect.y as int;
    let bottom = rect.y + rect.h;
    if rect.w <= 0 || rect.h <= 0 {
        None
    } else if near(x, left, z) && near(y, top, z) {
        Some(ResizeHandle::Nw)
    } else if near(x, right, z) && near(y, top, z) {
        Some(ResizeHandle::Ne)
    } else if near(x, right, z) && near(y, bottom, z) {
        Some(ResizeHandle::Se)
    } else if near(x, left, z) && near(y, bottom, z) {
        Some(ResizeHandle::Sw)
    } else if near(x, left, z) && well_between(y, top, bottom, z) {
        Some(ResizeHandle::W)
    } else if near(x, right, z) && well_between(y, top, bottom, z) {
        Some(ResizeHandle::E)
    } else if near(y, top, z) && well_between(x, left, right, z) {
        Some(ResizeHandle::N)
    } else if near(y, bottom, z) && well_between(x, left, right, z) {
        Some(ResizeHandle::S)
    } else {
        None
    }
}

fn near_exec(v: i64, edge: i64, zoom_percent: u32) -> (r: bool)
    requires
        -0x1_0000_0000 <= v <= 0x1_0000_0000,
        -0x1_0000_0000 <= edge <= 0x1_0000_0000,
    ensures
        r == near(v as int, edge as int, zoom_percent as int),
{
    let d = if v >= edge { v - edge } else { edge - v };
    assert(d * zoom_percent <= 0x2_0000_0000 * 0xffff_ffff) by (nonlinear_arith)
        requires
            0 <= d <= 0x2_0000_0000,
            zoom_percent <= 0xffff_ffff,
    ;
    (d as i128) * (zoom_percent as i128) <= 600
}

fn well_between_exec(v: i64, lo: i64, hi: i64, zoom_percent: u32) -> (r: bool)
    requires
        -0x1_0000_0000 <= v <= 0x1_0000_0000,
        -0x1_0000_0000 <= lo <= 0x1_0000_0000,
        -0x1_0000_0000 <= hi <= 0x1_0000_0000,
    ensures
        r == well_between(v as int, lo as int, hi as int, zoom_percent as int),
{
    assert((v - lo) * zoom_percent <= 0x2_0000_0000 * 0xffff_ffff && (v - lo) * zoom_percent >= -0x2_0000_0000 * 0xffff_ffff) by (nonlinear_arith)
        requires
            -0x2_0000_0000 <= v - lo <= 0x2_0000_0000,
            0 <= zoom_percent <= 0xffff_ffff,
    ;
    assert((hi - v) * zoom_percent <= 0x2_0000_0000 * 0xffff_ffff && (hi - v) * zoom_percent >= -0x2_0000_0000 * 0xffff_ffff) by (nonlinear_arith)
        requires
            -0x2_0000_0000 <= hi - v <= 0x2_0000_0000,
            0 <= zoom_percent <= 0xffff_ffff,
    ;
    ((v - lo) as i128) * (zoom_percent as i128) > 600 && ((hi - v) as i128) * (zoom_percent as i128)
        > 600
}

/// The grip of `rect` under the cell `(x, y)` at the given zoom; the grab
/// tolerance is constant on screen.
pub fn handle_at(rect: SelectionRect, x: i32, y: i32, zoom_percent: u32) -> (r: Option<ResizeHandle>)
    ensures
        r == spec_handle_at(rect, x as int, y as int, zoom_percent as int),
{
    if rect.w <= 0 || rect.h <= 0 {
        return None;
    }
    let xi = x as i64;
    let yi = y as i64;
    let left = rect.x as i64;
    let right = rect.x as i64 + rect.w as i64;
    let top = rect.y as i64;
    let bottom = rect.y as i64 + rect.h as i64;
    let near_left = near_exec(xi, left, zoom_percent);
    let near_right = near_exec(xi, right, zoom_percent);
    let near_top = near_exec(yi, top, zoom_percent);
    let near_bottom = near_exec(yi, bottom, zoom_percent);
    if near_left && near_top {
        return Some(ResizeHandle::Nw);
    }
    if near_right && near_top {
        return Some(ResizeHandle::Ne);
    }
    if near_right && near_bottom {
        return Some(ResizeHandle::Se);
    }
    if near_left && near_bottom {
        return Some(ResizeHandle::Sw);
    }
    let between_h = well_between_exec(yi, top, bottom, zoom_percent);
    let between_w = well_between_exec(xi, left, right, zoom_percent);
    if near_left && between_h {
        return Some(ResizeHandle::W);
    }
    if near_right && between_h {
        return Some(ResizeHandle::E);
    }
    if near_top && between_w {
        return Some(ResizeHandle::N);
    }
    if near_bottom && between_w {
        return Some(ResizeHandle::S);
    }
    None
}

/// The pointer shape for a grip: the resize arrow along its axis.
pub open spec fn handle_cursor(handle: ResizeHandle) -> Seq<char> {
    match handle {
        ResizeHandle::Nw | ResizeHandle::Se => "nwse-resize"@,
        ResizeHandle::Ne | ResizeHandle::Sw => "nesw-resize"@,
        ResizeHandle::N | ResizeHandle::S => "ns-resize"@,
        ResizeHandle::E | ResizeHandle::W => "ew-resize"@,
    }
}

/// The pointer shape shown over a grip.
pub fn cursor_for_handle(handle: ResizeHandle) -> (r: &'static str)
    ensures
        r@ == handle_cursor(handle),
{
    match handle {
        ResizeHandle::Nw | ResizeHandle::Se => "nwse-resize",
        ResizeHandle::Ne | ResizeHandle::Sw => "nesw-resize",
        ResizeHandle::N | ResizeHandle::S => "ns-resize",
        ResizeHandle::E | ResizeHandle::W => "ew-resize",
    }
}


/// Pixels lifted out of a canvas, row-major, `width` by `height`.
pub struct SelectionBuffer {
    pub width: u32,
    pub height: u32,
    pub pixels: Vec<Color>,
}

/// Width of the area a rectangle acts on: at least one column.
pub open spec fn span_w(r: SelectionRect) -> int {
    if r.w < 1 {
        1
    } else {
        r.w as int
    }
}

/// Height of the area a rectangle acts on: at least one row.
pub open spec fn span_h(r: SelectionRect) -> int {
    if r.h < 1 {
        1
    } else {
        r.h as int
    }
}

/// `(x, y)` lies in the area the rectangle acts on.
pub open spec fn in_span(r: SelectionRect, x: int, y: int) -> bool {
    r.x <= x < r.x + span_w(r) && r.y <= y < r.y + span_h(r)
}

/// Color at `(bx, by)` of a buffer `bw` wide, read at row-major position
/// `by * bw + bx`; past the end it is transparent.
pub open spec fn buffer_color(bw: int, pixels: Seq<Color>, bx: int, by: int) -> Color {
    let i = by * bw + bx;
    if 0 <= i < pixels.len() {
        pixels[i]
    } else {
        transparent()
    }
}

/// Cell `(x, y)` of a `w` by `h` buffer; transparent off it.
pub open spec fn sample(c: Seq<Color>, w: int, h: int, x: int, y: int) -> Color {
    if 0 <= x < w && 0 <= y < h {
        c[cell(x, y, w)]
    } else {
        transparent()
    }
}

/// The pixels under the rectangle's area, row-major.
pub open spec fn extracted(c: Seq<Color>, w: int, h: int, r: SelectionRect) -> Seq<Color> {
    Seq::new(
        (span_w(r) * span_h(r)) as nat,
        |i: int| sample(c, w, h, r.x + i % span_w(r), r.y + i / span_w(r)),
    )
}

/// `c` (`w` cells wide) with the rectangle's area replaced by the buffer,
/// whose top-left pixel goes to the rectangle's corner.
pub open spec fn pasted(c: Seq<Color>, w: int, r: SelectionRect, bw: int, pixels: Seq<Color>) -> Seq<Color> {
    Seq::new(
        c.len(),
        |i: int|
            if in_span(r, i % w, i / w) {
                buffer_color(bw, pixels, i % w - r.x, i / w - r.y)
            } else {
                c[i]
            },
    )
}

/// Canvas position of the cell a diff names.
pub open spec fn diff_cell(d: PixelDiff, w: int) -> int {
    cell(d.after.x as int, d.after.y as int, w)
}

/// `ds` records, in row-major order, exactly the cells where `c1` differs
/// from `c0` (both `w` by `h`).
pub open spec fn ordered_records(c0: Seq<Color>, c1: Seq<Color>, w: int, h: int, ds: Seq<PixelDiff>) -> bool {
    &&& forall|k: int|
        0 <= k < ds.len() ==> {
            let d = #[trigger] ds[k];
            &&& d.wf()
            &&& d.after.x < w && d.after.y < h
            &&& d.before.color == c0[diff_cell(d, w)]
            &&& d.after.color == c1[diff_cell(d, w)]
            &&& d.before.color != d.after.color
        }
    &&& forall|k: int, l: int|
        0 <= k < l < ds.len() ==> diff_cell(#[trigger] ds[k], w) < diff_cell(#[trigger] ds[l], w)
    &&& forall|i: int| 0 <= i < c0.len() && c0[i] != c1[i] ==> exists|k: int| 0 <= k < ds.len() && diff_cell(#[trigger] ds[k], w) == i
}

/// Lifts a copy of the pixels under the rectangle's area; cells off the
/// canvas come out transparent.
pub fn extract_buffer_from_layer(layer: &Layer, rect: SelectionRect) -> (b: SelectionBuffer)
    requires
        layer.canvas.wf(),
        rect.in_limits(),
        span_w(rect) * span_h(rect) <= usize::MAX,
    ensures
        b.width == span_w(rect),
        b.height == span_h(rect),
        b.pixels@ == extracted(layer.canvas.content@, layer.canvas.width as int, layer.canvas.height as int, rect),
{
    let c = &layer.canvas;
    let bw: u32 = if rect.w < 1 { 1 } else { rect.w as u32 };
    let bh: u32 = if rect.h < 1 { 1 } else { rect.h as u32 };
    let n: usize = (bw as usize) * (bh as usize);
    let ghost target = extracted(c.content@, c.width as int, c.height as int, rect);
    let mut pixels: Vec<Color> = Vec::with_capacity(n);
    let mut i: usize = 0;
    while i < n
        invariant
            i <= n,
            n == bw as int * bh as int,
            bw == span_w(rect),
            bh == span_h(rect),
            rect.in_limits(),
            c.wf(),
            target == extracted(c.content@, c.width as int, c.height as int, rect),
            pixels@ == target.subrange(0, i as int),
        decreases n - i,
    {
        proof {
            lemma_cell_of_index(i as int, bw as int, bh as int);
        }
        let bx = (i % (bw as usize)) as i64;
        let by = (i / (bw as usize)) as i64;
        let px = rect.x as i64 + bx;
        let py = rect.y as i64 + by;
        let color = if px < 0 || py < 0 || px >= c.width as i64 || py >= c.height as i64 {
            transparent_color()
        } else {
            proof {
                lemma_cell_in_bounds(px as int, py as int, c.width as int, c.height as int);
            }
            let len = c.content.len();
            c.content[(py as usize) * (c.width as usize) + (px as usize)]
        };
        pixels.push(color);
        i = i + 1;
        assert(pixels@ =~= target.subrange(0, i as int));
    }
    assert(pixels@ =~= target);
    SelectionBuffer { width: bw, height: bh, pixels }
}

/// Writes the buffer into the rectangle's area, clipped to the canvas, and
/// appends a diff for each cell that changes, in row-major order.
fn paste_into(canvas: &mut Canvas, rect: SelectionRect, bw: u32, pixels: &Vec<Color>, diffs: &mut Vec<PixelDiff>)
    requires
        old(canvas).wf(),
        rect.in_limits(),
    ensures
        final(canvas).wf(),
        final(canvas).width == old(canvas).width,
        final(canvas).height == old(canvas).height,
        final(canvas).background_color == old(canvas).background_color,
        final(canvas).content@ == pasted(old(canvas).content@, old(canvas).width as int, rect, bw as int, pixels@),
        final(diffs)@.len() >= old(diffs)@.len(),
        final(diffs)@.subrange(0, old(diffs)@.len() as int) == old(diffs)@,
        ordered_records(
            old(canvas).content@,
            final(canvas).content@,
            old(canvas).width as int,
            old(canvas).height as int,
            final(diffs)@.subrange(old(diffs)@.len() as int, final(diffs)@.len() as int),
        ),
{
    let ghost c0 = canvas.content@;
    let ghost w = canvas.width as int;
    let ghost h = canvas.height as int;
    let ghost d0 = diffs@;
    let ghost target = pasted(c0, w, rect, bw as int, pixels@);
    let n = canvas.content.len();
    let cw = canvas.width as usize;
    let mut i: usize = 0;
    while i < n
        invariant
            i <= n,
            n == c0.len(),
            c0.len() == w * h,
            cw == w,
            canvas.wf(),
            canvas.width == w,
            canvas.height == h,
            canvas.background_color == old(canvas).background_color,
            rect.in_limits(),
            target == pasted(c0, w, rect, bw as int, pixels@),
            forall|j: int| 0 <= j < n ==> #[trigger] canvas.content@[j] == if j < i { target[j] } else { c0[j] },
            diffs@.len() >= d0.len(),
            diffs@.subrange(0, d0.len() as int) == d0,
            ({
                let ds = diffs@.subrange(d0.len() as int, diffs@.len() as int);
                &&& forall|k: int|
                    0 <= k < ds.len() ==> {
                        let d = #[trigger] ds[k];
                        &&& d.wf()
                        &&& d.after.x < w && d.after.y < h
                        &&& diff_cell(d, w) < i
                        &&& d.before.color == c0[diff_cell(d, w)]
                        &&& d.after.color == target[diff_cell(d, w)]
                        &&& d.before.color != d.after.color
                    }
                &&& forall|k: int, l: int|
                    0 <= k < l < ds.len() ==> diff_cell(#[trigger] ds[k], w) < diff_cell(#[trigger] ds[l], w)
                &&& forall|j: int| 0 <= j < i && c0[j] != target[j] ==> exists|k: int| 0 <= k < ds.len() && diff_cell(#[trigger] ds[k], w) == j
            }),
        decreases n - i,
    {
        proof {
            lemma_cell_of_index(i as int, w, h);
        }
        let x = i % cw;
        let y = i / cw;
        let xi = x as i64;
        let yi = y as i64;
        let rw: i64 = if rect.w < 1 { 1 } else { rect.w as i64 };
        let rh: i64 = if rect.h < 1 { 1 } else { rect.h as i64 };
        let ghost old_ds = diffs@.subrange(d0.len() as int, diffs@.len() as int);
        if rect.x as i64 <= xi && xi < rect.x as i64 + rw && rect.y as i64 <= yi && yi < rect.y as i64 + rh {
            let bx = (xi - rect.x as i64) as u64;
            let by = (yi - rect.y as i64) as u64;
            assert(by * bw <= 0x1_0000_0000 * 0xffff_ffff) by (nonlinear_arith)
                requires
                    by <= 0x1_0000_0000,
                    bw <= 0xffff_ffff,
            ;
            let src = by * (bw as u64) + bx;
            let new_color = if src < pixels.len() as u64 {
                pixels[src as usize]
            } else {
                transparent_color()
            };
            assert(new_color == target[i as int]);
            let old_color = canvas.content[i];
            if old_color != new_color {
                diffs.push(PixelDiff {
                    before: Pixel::new(x as u32, y as u32, old_color),
                    after: Pixel::new(x as u32, y as u32, new_color),
                });
                canvas.content.set(i, new_color);
                proof {
                    let ds = diffs@.subrange(d0.len() as int, diffs@.len() as int);
                    assert(ds =~= old_ds.push(diffs@.last()));
                    assert(diffs@.subrange(0, d0.len() as int) =~= d0);
                    lemma_cell_in_bounds(x as int, y as int, w, h);
                    assert(diff_cell(diffs@.last(), w) == i);
                    assert forall|k: int| 0 <= k < ds.len() implies ({
                        let d = #[trigger] ds[k];
                        &&& d.wf()
                        &&& d.after.x < w && d.after.y < h
                        &&& diff_cell(d, w) < i + 1
                        &&& d.before.color == c0[diff_cell(d, w)]
                        &&& d.after.color == target[diff_cell(d, w)]
                        &&& d.before.color != d.after.color
                    }) by {
                        if k < old_ds.len() {
                            assert(ds[k] == old_ds[k]);
                        }
                    }
                    assert forall|k: int, l: int|
                        0 <= k < l < ds.len() implies diff_cell(#[trigger] ds[k], w) < diff_cell(#[trigger] ds[l], w) by {
                        assert(ds[k] == old_ds[k]);
                        if l < old_ds.len() {
                            assert(ds[l] == old_ds[l]);
                        }
                    }
                    assert forall|j: int| 0 <= j < i + 1 && c0[j] != target[j] implies exists|k: int| 0 <= k < ds.len() && diff_cell(#[trigger] ds[k], w) == j by {
                        if j == i {
                            assert(diff_cell(ds[ds.len() - 1], w) == j);
                        } else {
                            let k = choose|k: int| 0 <= k < old_ds.len() && diff_cell(#[trigger] old_ds[k], w) == j;
                            assert(ds[k] == old_ds[k]);
                        }
                    }
                }
            }
        } else {
            assert(target[i as int] == c0[i as int]);
        }
        i = i + 1;
    }
    assert(canvas.content@ =~= target);
}

/// Clears the rectangle's area to transparent, appending a diff for each
/// cell that changes, in row-major order.
pub fn clear_rect(layer: &mut Layer, rect: SelectionRect, diffs: &mut Vec<PixelDiff>)
    requires
        old(layer).canvas.wf(),
        rect.in_limits(),
    ensures
        final(layer).canvas.wf(),
        final(layer).id == old(layer).id,
        final(layer).title == old(layer).title,
        final(layer).is_locked == old(layer).is_locked,
        final(layer).is_visible == old(layer).is_visible,
        final(layer).canvas.width == old(layer).canvas.width,
        final(layer).canvas.height == old(layer).canvas.height,
        final(layer).canvas.background_color == old(layer).canvas.background_color,
        final(layer).canvas.content@ == pasted(
            old(layer).canvas.content@,
            old(layer).canvas.width as int,
            rect,
            0,
            Seq::<Color>::empty(),
        ),
        forall|i: int|
            0 <= i < old(layer).canvas.content@.len() ==> #[trigger] final(layer).canvas.content@[i] == if in_span(
                rect,
                i % old(layer).canvas.width as int,
                i / old(layer).canvas.width as int,
            ) {
                transparent()
            } else {
                old(layer).canvas.content@[i]
            },
        final(diffs)@.len() >= old(diffs)@.len(),
        final(diffs)@.subrange(0, old(diffs)@.len() as int) == old(diffs)@,
        ordered_records(
            old(layer).canvas.content@,
            final(layer).canvas.content@,
            old(layer).canvas.width as int,
            old(layer).canvas.height as int,
            final(diffs)@.subrange(old(diffs)@.len() as int, final(diffs)@.len() as int),
        ),
{
    let empty: Vec<Color> = Vec::new();
    paste_into(&mut layer.canvas, rect, 0, &empty, diffs);
}

/// Writes the buffer into the rectangle's area, clipped to the canvas,
/// appending a diff for each cell that changes, in row-major order.
pub fn apply_buffer(layer: &mut Layer, rect: SelectionRect, buffer: &SelectionBuffer, diffs: &mut Vec<PixelDiff>)
    requires
        old(layer).canvas.wf(),
        rect.in_limits(),
    ensures
        final(layer).canvas.wf(),
        final(layer).id == old(layer).id,
        final(layer).title == old(layer).title,
        final(layer).is_locked == old(layer).is_locked,
        final(layer).is_visible == old(layer).is_visible,
        final(layer).canvas.width == old(layer).canvas.width,
        final(layer).canvas.height == old(layer).canvas.height,
        final(layer).canvas.background_color == old(layer).canvas.background_color,
        final(layer).canvas.content@ == pasted(
            old(layer).canvas.content@,
            old(layer).canvas.width as int,
            rect,
            buffer.width as int,
            buffer.pixels@,
        ),
        final(diffs)@.len() >= old(diffs)@.len(),
        final(diffs)@.subrange(0, old(diffs)@.len() as int) == old(diffs)@,
        ordered_records(
            old(layer).canvas.content@,
            final(layer).canvas.content@,
            old(layer).canvas.width as int,
            old(layer).canvas.height as int,
            final(diffs)@.subrange(old(diffs)@.len() as int, final(diffs)@.len() as int),
        ),
{
    paste_into(&mut layer.canvas, rect, buffer.width, &buffer.pixels, diffs);
}

/// The buffer resampled to `nw` by `nh` (each at least one) by nearest
/// neighbour: target cell `(x, y)` takes source cell
/// `(x * width / nw, y * height / nh)`.
pub open spec fn scaled(b_w: int, b_h: int, pixels: Seq<Color>, nw: int, nh: int) -> Seq<Color> {
    Seq::new(
        (nw * nh) as nat,
        |i: int| buffer_color(b_w, pixels, (i % nw) * b_w / nw, (i / nw) * b_h / nh),
    )
}

/// Resamples the buffer to `new_w` by `new_h` cells (at least one each way)
/// with nearest-neighbour point sampling.
pub fn scale_buffer(buffer: &SelectionBuffer, new_w: u32, new_h: u32) -> (r: SelectionBuffer)
    requires
        (if new_w < 1 { 1 } else { new_w as int }) * (if new_h < 1 { 1 } else { new_h as int }) <= usize::MAX,
    ensures
        r.width == if new_w < 1 { 1 } else { new_w },
        r.height == if new_h < 1 { 1 } else { new_h },
        r.pixels@ == scaled(buffer.width as int, buffer.height as int, buffer.pixels@, r.width as int, r.height as int),
{
    let nw: u32 = if new_w < 1 { 1 } else { new_w };
    let nh: u32 = if new_h < 1 { 1 } else { new_h };
    let n: usize = (nw as usize) * (nh as usize);
    let bw = buffer.width as u64;
    let bh = buffer.height as u64;
    let ghost target = scaled(buffer.width as int, buffer.height as int, buffer.pixels@, nw as int, nh as int);
    let mut pixels: Vec<Color> = Vec::with_capacity(n);
    let mut i: usize = 0;
    while i < n
        invariant
            i <= n,
            n == nw as int * nh as int,
            nw >= 1,
            nh >= 1,
            bw == buffer.width,
            bh == buffer.height,
            target == scaled(buffer.width as int, buffer.height as int, buffer.pixels@, nw as int, nh as int),
            pixels@ == target.subrange(0, i as int),
        decreases n - i,
    {
        proof {
            lemma_cell_of_index(i as int, nw as int, nh as int);
        }
        let x = (i % (nw as usize)) as u64;
        let y = (i / (nw as usize)) as u64;
        assert(x * bw <= 0xffff_ffff * 0xffff_ffff && y * bh <= 0xffff_ffff * 0xffff_ffff) by (nonlinear_arith)
            requires
                x < nw,
                y < nh,
                nw <= 0xffff_ffff,
                nh <= 0xffff_ffff,
                bw <= 0xffff_ffff,
                bh <= 0xffff_ffff,
        ;
        let sx = (x * bw) / (nw as u64);
        let sy = (y * bh) / (nh as u64);
        assert(sx <= bw && sy <= bh) by (nonlinear_arith)
            requires
                sx == (x * bw) / (nw as int),
                sy == (y * bh) / (nh as int),
                x < nw,
                y < nh,
                nw >= 1,
                nh >= 1,
        ;
        assert(sy * bw <= 0xffff_ffff * 0xffff_ffff) by (nonlinear_arith)
            requires
                sy <= bh,
                bh <= 0xffff_ffff,
                bw <= 0xffff_ffff,
        ;
        let src = sy * bw + sx;
        let color = if src < buffer.pixels.len() as u64 {
            buffer.pixels[src as usize]
        } else {
            transparent_color()
        };
        pixels.push(color);
        i = i + 1;
        assert(pixels@ =~= target.subrange(0, i as int));
    }
    assert(pixels@ =~= target);
    SelectionBuffer { width: nw, height: nh, pixels }
}

} // verus!
