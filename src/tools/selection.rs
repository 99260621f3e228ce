use vstd::prelude::*;
use crate::canvas::{cell, lemma_cell_in_bounds};
use crate::color::{transparent, Color};
use crate::history::{PixelDiff, StrokeDiff};
use crate::layer::Layer;
use crate::project::{first_with_id, has_id, same_but_layers, Project};
use crate::tools::select::{
    apply_buffer, clear_rect, extract_buffer_from_layer, extracted, in_span, ordered_records, pasted,
    sample, span_h, span_w, SelectionBuffer, SelectionRect,
};

verus! {

/// An open selection on one layer: its rectangle, the pixels lifted out of
/// the canvas once it was first moved or resized, and the diffs of that cut.
pub struct SelectionState {
    pub layer_id: usize,
    pub rect: SelectionRect,
    pub buffer: Option<SelectionBuffer>,
    pub original_pixels: Vec<PixelDiff>,
}

/// `after` is `before` with layer `i`'s canvas content replaced by `content`.
pub open spec fn layer_content_set(before: Seq<Layer>, after: Seq<Layer>, i: int, content: Seq<Color>) -> bool {
    &&& after.len() == before.len()
    &&& forall|j: int| 0 <= j < before.len() && j != i ==> after[j] == before[j]
    &&& after[i].id == before[i].id
    &&& after[i].title == before[i].title
    &&& after[i].is_locked == before[i].is_locked
    &&& after[i].is_visible == before[i].is_visible
    &&& after[i].canvas.width == before[i].canvas.width
    &&& after[i].canvas.height == before[i].canvas.height
    &&& after[i].canvas.background_color == before[i].canvas.background_color
    &&& after[i].canvas.content@ == content
}

/// `ds` is the earlier cut's diffs `cut`, then the diffs of clearing `c`
/// into `cleared`, then those of pasting `cleared` into `content`, each
/// part in row-major order: the edits in the order they were made.
pub open spec fn commit_stroke(
    c: Seq<Color>,
    cleared: Seq<Color>,
    content: Seq<Color>,
    w: int,
    h: int,
    cut: Seq<PixelDiff>,
    ds: Seq<PixelDiff>,
) -> bool {
    &&& ds.len() >= cut.len()
    &&& ds.subrange(0, cut.len() as int) == cut
    &&& exists|m: int| #[trigger] split_records(c, cleared, content, w, h, cut.len() as int, m, ds)
}

/// `ds[o..m]` records clearing `c` into `cleared` and `ds[m..]` pasting
/// `cleared` into `content`.
pub open spec fn split_records(
    c: Seq<Color>,
    cleared: Seq<Color>,
    content: Seq<Color>,
    w: int,
    h: int,
    o: int,
    m: int,
    ds: Seq<PixelDiff>,
) -> bool {
    &&& o <= m <= ds.len()
    &&& ordered_records(c, cleared, w, h, ds.subrange(o, m))
    &&& ordered_records(cleared, content, w, h, ds.subrange(m, ds.len() as int))
}

/// What committing `sel` does to the project: where it holds a buffer and
/// its layer exists, the rectangle's area is cleared and the buffer pasted
/// into it, and the earlier cut, the clear and the paste are recorded as
/// one stroke (when any cell changed); otherwise nothing changes.
pub open spec fn commit_effect(p0: Project, p1: Project, sel: SelectionState) -> bool {
    if sel.buffer.is_some() && has_id(p0.layers@, sel.layer_id) {
        let i = choose|i: int| first_with_id(p0.layers@, sel.layer_id, i);
        let c = p0.layers@[i].canvas;
        let w = c.width as int;
        let b = sel.buffer.unwrap();
        let cleared = pasted(c.content@, w, sel.rect, 0, Seq::empty());
        let content = pasted(cleared, w, sel.rect, b.width as int, b.pixels@);
        &&& layer_content_set(p0.layers@, p1.layers@, i, content)
        &&& p1.name == p0.name
        &&& p1.width == p0.width
        &&& p1.height == p0.height
        &&& p1.background_color == p0.background_color
        &&& p1.next_layer_id == p0.next_layer_id
        &&& p1.current_color == p0.current_color
        &&& if cleared != c.content@ || content != cleared || sel.original_pixels@.len() > 0 {
            &&& p1.history.max_count == p0.history.max_count
            &&& p1.history.redo_view().len() == 0
            &&& p1.history.undo_view() == crate::history::added(
                p0.history.undo_view(),
                p0.history.max_count,
                (sel.layer_id, p1.history.undo_view().last().1),
            )
            &&& commit_stroke(
                c.content@,
                cleared,
                content,
                w,
                c.height as int,
                sel.original_pixels@,
                p1.history.undo_view().last().1,
            )
        } else {
            p1.history == p0.history
        }
    } else {
        p1 == p0
    }
}

/// Writes a held selection back into its layer: clears the rectangle's
/// area, pastes the buffer at the rectangle's current place and size, and
/// records clear, paste and the earlier cut as one stroke.
pub fn commit_selection(project: &mut Project, selection: &SelectionState)
    requires
        old(project).wf(),
        selection.rect.in_limits(),
    ensures
        final(project).wf(),
        commit_effect(*old(project), *final(project), *selection),
{
    let buffer = match &selection.buffer {
        Some(b) => b,
        None => return,
    };
    let rect = selection.rect;
    let layer_id = selection.layer_id;
    let i = match project.find_layer(layer_id) {
        Some(i) => i,
        None => return,
    };
    let ghost p0 = *project;
    let mut diffs: Vec<PixelDiff> = Vec::new();
    let mut k: usize = 0;
    while k < selection.original_pixels.len()
        invariant
            k <= selection.original_pixels@.len(),
            diffs@ == selection.original_pixels@.subrange(0, k as int),
        decreases selection.original_pixels@.len() - k,
    {
        diffs.push(selection.original_pixels[k]);
        k = k + 1;
        assert(diffs@ =~= selection.original_pixels@.subrange(0, k as int));
    }
    assert(diffs@ =~= selection.original_pixels@);
    let ghost o = diffs@.len();
    let mut layer = project.layers.remove(i);
    clear_rect(&mut layer, rect, &mut diffs);
    let ghost mid = layer.canvas.content@;
    let ghost cleared_diffs = diffs@;
    apply_buffer(&mut layer, rect, buffer, &mut diffs);
    let ghost done = layer.canvas.content@;
    let ghost painted = diffs@;
    project.layers.insert(i, layer);
    proof {
        let ls = p0.layers@;
        assert forall|j: int| 0 <= j < ls.len() && j != i implies project.layers@[j] == ls[j] by {}
        assert forall|j: int| 0 <= j < ls.len() implies #[trigger] project.layers@[j].id == ls[j].id by {}
        assert forall|j: int| first_with_id(ls, layer_id, j) implies j == i by {}
        let c = choose|j: int| first_with_id(ls, layer_id, j);
        assert(c == i);
    }
    proof {
        let w = p0.layers@[i as int].canvas.width as int;
        let h = p0.layers@[i as int].canvas.height as int;
        let c0 = p0.layers@[i as int].canvas.content@;
        let orig = selection.original_pixels@;
        let s1 = cleared_diffs.subrange(o as int, cleared_diffs.len() as int);
        let s2 = painted.subrange(cleared_diffs.len() as int, painted.len() as int);
        assert(painted.subrange(o as int, cleared_diffs.len() as int) =~= s1);
        assert(painted.subrange(0, o as int) =~= orig);
        assert(split_records(c0, mid, done, w, h, o as int, cleared_diffs.len() as int, painted));
        if s1.len() > 0 {
            assert(c0[crate::tools::select::diff_cell(s1[0], w)] != mid[crate::tools::select::diff_cell(s1[0], w)]);
        } else if s2.len() > 0 {
            assert(mid[crate::tools::select::diff_cell(s2[0], w)] != done[crate::tools::select::diff_cell(s2[0], w)]);
        }
        if c0 != mid {
            assert(!(c0 =~= mid));
            let j = choose|j: int| 0 <= j < c0.len() && c0[j] != mid[j];
            let kk = choose|kk: int| 0 <= kk < s1.len() && crate::tools::select::diff_cell(#[trigger] s1[kk], w) == j;
        }
        if mid != done {
            assert(!(mid =~= done));
            let j = choose|j: int| 0 <= j < mid.len() && mid[j] != done[j];
            let kk = choose|kk: int| 0 <= kk < s2.len() && crate::tools::select::diff_cell(#[trigger] s2[kk], w) == j;
        }
        assert(painted.len() == orig.len() + s1.len() + s2.len());
    }
    if diffs.len() > 0 {
        let ghost ds = diffs@;
        project.history.add(StrokeDiff::new(layer_id, diffs));
        proof {
            assert(project.history.undo_view().last() == (layer_id, ds));
        }
    }

}

/// Lifts the pixels under `rect` out of layer `layer_id` and clears them
/// there; returns the lifted buffer and the diffs of the clear. Where no
/// layer carries the id, the buffer is empty and nothing changes.
pub fn cut_buffer(project: &mut Project, layer_id: usize, rect: SelectionRect) -> (r: (SelectionBuffer, Vec<PixelDiff>))
    requires
        old(project).wf(),
        rect.in_limits(),
        span_w(rect) * span_h(rect) <= usize::MAX,
    ensures
        final(project).wf(),
        same_but_layers(*old(project), *final(project)),
        r.0.width == span_w(rect),
        r.0.height == span_h(rect),
        !has_id(old(project).layers@, layer_id) ==> final(project).layers@ == old(project).layers@
            && r.0.pixels@.len() == 0 && r.1@.len() == 0,
        has_id(old(project).layers@, layer_id) ==> ({
            let i = choose|i: int| first_with_id(old(project).layers@, layer_id, i);
            let c = old(project).layers@[i].canvas;
            &&& r.0.pixels@ == extracted(c.content@, c.width as int, c.height as int, rect)
            &&& layer_content_set(
                old(project).layers@,
                final(project).layers@,
                i,
                pasted(c.content@, c.width as int, rect, 0, Seq::empty()),
            )
            &&& ordered_records(
                c.content@,
                pasted(c.content@, c.width as int, rect, 0, Seq::empty()),
                c.width as int,
                c.height as int,
                r.1@,
            )
        }),
{
    let bw: u32 = if rect.w < 1 { 1 } else { rect.w as u32 };
    let bh: u32 = if rect.h < 1 { 1 } else { rect.h as u32 };
    let mut diffs: Vec<PixelDiff> = Vec::new();
    let i = match project.find_layer(layer_id) {
        Some(i) => i,
        None => {
            return (SelectionBuffer { width: bw, height: bh, pixels: Vec::new() }, diffs);
        },
    };
    let ghost p0 = *project;
    let mut layer = project.layers.remove(i);
    let buffer = extract_buffer_from_layer(&layer, rect);
    clear_rect(&mut layer, rect, &mut diffs);
    project.layers.insert(i, layer);
    proof {
        let ls = p0.layers@;
        assert forall|j: int| 0 <= j < ls.len() && j != i implies project.layers@[j] == ls[j] by {}
        assert forall|j: int| 0 <= j < ls.len() implies #[trigger] project.layers@[j].id == ls[j].id by {}
        assert forall|j: int| first_with_id(ls, layer_id, j) implies j == i by {}
        let c = choose|j: int| first_with_id(ls, layer_id, j);
        assert(c == i);
        assert(diffs@.subrange(0, diffs@.len() as int) =~= diffs@);
    }
    (buffer, diffs)
}

/// A cut followed by a commit after a pure move changes nothing outside the
/// old and new rectangles: the new one holds the moved block, the part of
/// the old one it left holds transparency.
pub proof fn lemma_move_commit(c: Seq<Color>, w: int, h: int, r0: SelectionRect, r1: SelectionRect)
    requires
        c.len() == w * h,
        r0.w == r1.w,
        r0.h == r1.h,
    ensures
        ({
            let buf = extracted(c, w, h, r0);
            let cut = pasted(c, w, r0, 0, Seq::empty());
            let cleared = pasted(cut, w, r1, 0, Seq::empty());
            let done = pasted(cleared, w, r1, span_w(r0), buf);
            &&& done.len() == c.len()
            &&& forall|x: int, y: int|
                0 <= x < w && 0 <= y < h && !in_span(r0, x, y) && !in_span(r1, x, y) ==> #[trigger] done[cell(x, y, w)] == c[cell(x, y, w)]
            &&& forall|x: int, y: int|
                0 <= x < w && 0 <= y < h && in_span(r1, x, y) ==> #[trigger] done[cell(x, y, w)] == sample(c, w, h, x - r1.x + r0.x, y - r1.y + r0.y)
            &&& forall|x: int, y: int|
                0 <= x < w && 0 <= y < h && in_span(r0, x, y) && !in_span(r1, x, y) ==> #[trigger] done[cell(x, y, w)] == transparent()
        }),
{
    let buf = extracted(c, w, h, r0);
    let cut = pasted(c, w, r0, 0, Seq::empty());
    let cleared = pasted(cut, w, r1, 0, Seq::empty());
    let done = pasted(cleared, w, r1, span_w(r0), buf);
    let bw = span_w(r0);
    let bh = span_h(r0);
    assert forall|x: int, y: int| 0 <= x < w && 0 <= y < h implies #[trigger] done[cell(x, y, w)] == if in_span(r1, x, y) {
        sample(c, w, h, x - r1.x + r0.x, y - r1.y + r0.y)
    } else if in_span(r0, x, y) {
        transparent()
    } else {
        c[cell(x, y, w)]
    } by {
        lemma_cell_in_bounds(x, y, w, h);
        if in_span(r1, x, y) {
            let bx = x - r1.x;
            let by = y - r1.y;
            lemma_cell_in_bounds(bx, by, bw, bh);
            assert(buf[cell(bx, by, bw)] == sample(c, w, h, r0.x + bx, r0.y + by));
        }
    }
}

} // verus!
