use vstd::prelude::*;
use std::collections::VecDeque;
use crate::canvas::{cell, lemma_cell_in_bounds, lemma_cell_of_index, Canvas};
use crate::color::Color;
use crate::history::PixelDiff;
use crate::pixel::Pixel;
use crate::project::{filled_layers, first_with_id, on_project, Project};
use crate::tools::context::{PointerInput, ToolContext};
use crate::tools::pen::flush_stroke;

verus! {

/// `(x, y)` lies on a `w` by `h` grid.
pub open spec fn in_grid(p: (i64, i64), w: int, h: int) -> bool {
    0 <= p.0 < w && 0 <= p.1 < h
}

/// `p` and `q` share an edge.
pub open spec fn adjacent(p: (i64, i64), q: (i64, i64)) -> bool {
    (p.0 == q.0 && (p.1 - q.1 == 1 || q.1 - p.1 == 1)) || (p.1 == q.1 && (p.0 - q.0 == 1 || q.0
        - p.0 == 1))
}

pub open spec fn color_of(c: Seq<Color>, w: int, p: (i64, i64)) -> Color {
    c[cell(p.0 as int, p.1 as int, w)]
}

/// Every cell of `s` has each edge neighbour of color `target` in `s` too.
pub open spec fn closed(s: Set<(i64, i64)>, c: Seq<Color>, w: int, h: int, target: Color) -> bool {
    forall|p: (i64, i64), q: (i64, i64)|
        #![trigger s.contains(p), adjacent(p, q)]
        s.contains(p) && adjacent(p, q) && in_grid(q, w, h) && color_of(c, w, q) == target
            ==> s.contains(q)
}

/// `q` is in the 4-connected region of color `target` around `seed`: it
/// lies in every closed set that holds `seed`.
pub open spec fn in_region(c: Seq<Color>, w: int, h: int, seed: (i64, i64), target: Color, q: (i64, i64)) -> bool {
    forall|s: Set<(i64, i64)>| #[trigger] closed(s, c, w, h, target) && s.contains(seed) ==> s.contains(q)
}

/// The grid position of a diff.
pub open spec fn diff_pos(d: PixelDiff) -> (i64, i64) {
    (d.after.x as i64, d.after.y as i64)
}

/// `ds` holds exactly one diff for each cell of the region, from `target`
/// to `fill`.
pub open spec fn fill_records(
    c: Seq<Color>,
    w: int,
    h: int,
    seed: (i64, i64),
    target: Color,
    fill: Color,
    ds: Seq<PixelDiff>,
) -> bool {
    &&& forall|k: int|
        0 <= k < ds.len() ==> {
            let d = #[trigger] ds[k];
            &&& d.wf()
            &&& in_grid(diff_pos(d), w, h)
            &&& in_region(c, w, h, seed, target, diff_pos(d))
            &&& d.before.color == target
            &&& d.after.color == fill
        }
    &&& forall|k: int, l: int|
        0 <= k < ds.len() && 0 <= l < ds.len() && k != l ==> diff_pos(#[trigger] ds[k]) != diff_pos(
            #[trigger] ds[l],
        )
    &&& forall|q: (i64, i64)|
        in_grid(q, w, h) && #[trigger] in_region(c, w, h, seed, target, q) ==> exists|k: int|
            0 <= k < ds.len() && diff_pos(#[trigger] ds[k]) == q
}

pub open spec fn count_of(s: Seq<Color>, c: Color) -> nat
    decreases s.len(),
{
    if s.len() == 0 {
        0
    } else {
        count_of(s.drop_last(), c) + if s.last() == c {
            1nat
        } else {
            0nat
        }
    }
}

proof fn lemma_count_update(s: Seq<Color>, i: int, v: Color, c: Color)
    requires
        0 <= i < s.len(),
        s[i] == c,
        v != c,
    ensures
        count_of(s.update(i, v), c) + 1 == count_of(s, c),
    decreases s.len(),
{
    let t = s.update(i, v);
    if i == s.len() - 1 {
        assert(t.drop_last() =~= s.drop_last());
    } else {
        assert(t.drop_last() =~= s.drop_last().update(i, v));
        lemma_count_update(s.drop_last(), i, v, c);
    }
}

/// Fills the 4-connected region of the seed's color around `(x, y)` with
/// `fill`, breadth first, and appends one diff per filled cell.
pub fn flood_fill(canvas: &mut Canvas, x: u32, y: u32, fill: Color, diffs: &mut Vec<PixelDiff>)
    requires
        old(canvas).wf(),
        old(canvas).in_bounds(x as int, y as int),
    ensures
        final(canvas).wf(),
        final(canvas).width == old(canvas).width,
        final(canvas).height == old(canvas).height,
        final(canvas).background_color == old(canvas).background_color,
        old(canvas).color_at(x as int, y as int) == fill
            ==> *final(canvas) == *old(canvas) && *final(diffs) == *old(diffs),
        old(canvas).color_at(x as int, y as int) != fill ==> {
            let c0 = old(canvas).content@;
            let w = old(canvas).width as int;
            let h = old(canvas).height as int;
            let seed = (x as i64, y as i64);
            let target = old(canvas).color_at(x as int, y as int);
            &&& forall|i: int|
                0 <= i < c0.len() ==> #[trigger] final(canvas).content@[i] == if in_region(
                    c0,
                    w,
                    h,
                    seed,
                    target,
                    ((i % w) as i64, (i / w) as i64),
                ) {
                    fill
                } else {
                    c0[i]
                }
            &&& final(diffs)@.len() >= old(diffs)@.len()
            &&& final(diffs)@.subrange(0, old(diffs)@.len() as int) == old(diffs)@
            &&& fill_records(
                c0,
                w,
                h,
                seed,
                target,
                fill,
                final(diffs)@.subrange(old(diffs)@.len() as int, final(diffs)@.len() as int),
            )
        },
{
    proof {
        lemma_cell_in_bounds(x as int, y as int, canvas.width as int, canvas.height as int);
    }
    let len = canvas.content.len();
    let start = (y as usize) * (canvas.width as usize) + (x as usize);
    let target = canvas.content[start];
    if target == fill {
        return;
    }
    let ghost c0 = canvas.content@;
    let ghost w = canvas.width as int;
    let ghost h = canvas.height as int;
    let ghost d0 = diffs@;
    let ghost seed = (x as i64, y as i64);
    let ghost mut filled: Set<(i64, i64)> = Set::empty();
    let wi = canvas.width as i64;
    let hi = canvas.height as i64;
    let mut queue: VecDeque<(i64, i64)> = VecDeque::new();
    queue.push_back((x as i64, y as i64));
    assert(queue@[0] == seed);
    while queue.len() > 0
        invariant
            canvas.wf(),
            canvas.width == w,
            canvas.height == h,
            wi == w,
            hi == h,
            canvas.background_color == old(canvas).background_color,
            c0.len() == w * h,
            in_grid(seed, w, h),
            color_of(c0, w, seed) == target,
            target != fill,
            forall|i: int|
                0 <= i < c0.len() ==> #[trigger] canvas.content@[i] == if filled.contains(
                    ((i % w) as i64, (i / w) as i64),
                ) {
                    fill
                } else {
                    c0[i]
                },
            forall|p: (i64, i64)|
                #[trigger] filled.contains(p) ==> in_grid(p, w, h) && color_of(c0, w, p) == target,
            forall|q: (i64, i64)|
                #[trigger] queue@.contains(q) ==> q == seed || exists|p: (i64, i64)|
                    #[trigger] filled.contains(p) && adjacent(p, q),
            forall|q: (i64, i64)| #[trigger] queue@.contains(q) ==> -1 <= q.0 <= w && -1 <= q.1 <= h,
            forall|p: (i64, i64), q: (i64, i64)|
                #![trigger filled.contains(p), adjacent(p, q)]
                filled.contains(p) && adjacent(p, q) && in_grid(q, w, h) && color_of(c0, w, q)
                    == target ==> filled.contains(q) || queue@.contains(q),
            filled.contains(seed) || queue@.contains(seed),
            forall|s: Set<(i64, i64)>|
                #[trigger] closed(s, c0, w, h, target) && s.contains(seed) ==> filled.subset_of(s),
            diffs@.len() >= d0.len(),
            diffs@.subrange(0, d0.len() as int) == d0,
            ({
                let ds = diffs@.subrange(d0.len() as int, diffs@.len() as int);
                &&& forall|k: int|
                    0 <= k < ds.len() ==> {
                        let d = #[trigger] ds[k];
                        &&& d.wf()
                        &&& filled.contains(diff_pos(d))
                        &&& d.before.color == target
                        &&& d.after.color == fill
                    }
                &&& forall|k: int, l: int|
                    0 <= k < ds.len() && 0 <= l < ds.len() && k != l ==> diff_pos(#[trigger] ds[k])
                        != diff_pos(#[trigger] ds[l])
                &&& forall|q: (i64, i64)|
                    #[trigger] filled.contains(q) ==> exists|k: int|
                        0 <= k < ds.len() && diff_pos(#[trigger] ds[k]) == q
            }),
        decreases count_of(canvas.content@, target), queue@.len(),
    {
        let ghost old_queue = queue@;
        let ghost old_content = canvas.content@;
        let ghost old_filled = filled;
        let ghost old_ds = diffs@.subrange(d0.len() as int, diffs@.len() as int);
        let (cx, cy) = queue.pop_front().unwrap();
        assert(queue@ == old_queue.subrange(1, old_queue.len() as int));
        assert(old_queue[0] == (cx, cy));
        assert(old_queue.contains((cx, cy)));
        if cx < 0 || cy < 0 || cx >= wi || cy >= hi {
            proof {
                assert forall|q: (i64, i64)| #[trigger] old_queue.contains(q) && q != (cx, cy) implies queue@.contains(q) by {
                    let j = choose|j: int| 0 <= j < old_queue.len() && old_queue[j] == q;
                    assert(queue@[j - 1] == q);
                }
                assert forall|q: (i64, i64)| #[trigger] queue@.contains(q) implies old_queue.contains(q) by {
                    let j = choose|j: int| 0 <= j < queue@.len() && queue@[j] == q;
                    assert(old_queue[j + 1] == q);
                }
            }
            continue;
        }
        let ux = cx as u32;
        let uy = cy as u32;
        proof {
            lemma_cell_in_bounds(ux as int, uy as int, w, h);
        }
        let clen = canvas.content.len();
        let idx = (uy as usize) * (canvas.width as usize) + (ux as usize);
        let current = canvas.content[idx];
        proof {
            lemma_cell_of_index(idx as int, w, h);
            assert forall|q: (i64, i64)| #[trigger] old_queue.contains(q) && q != (cx, cy) implies queue@.contains(q) by {
                let j = choose|j: int| 0 <= j < old_queue.len() && old_queue[j] == q;
                assert(queue@[j - 1] == q);
            }
            assert forall|q: (i64, i64)| #[trigger] queue@.contains(q) implies old_queue.contains(q) by {
                let j = choose|j: int| 0 <= j < queue@.len() && queue@[j] == q;
                assert(old_queue[j + 1] == q);
            }
        }
        if current != target {
            proof {
                if !filled.contains((cx, cy)) {
                    assert(color_of(c0, w, (cx, cy)) != target);
                }
            }
            continue;
        }
        let ghost q0 = (cx, cy);
        proof {
            assert(!filled.contains(q0));
            assert(color_of(c0, w, q0) == target);
            lemma_count_update(canvas.content@, idx as int, fill, target);
            filled = filled.insert(q0);
        }
        diffs.push(PixelDiff { before: Pixel::new(ux, uy, target), after: Pixel::new(ux, uy, fill) });
        canvas.content.set(idx, fill);
        queue.push_back((cx + 1, cy));
        queue.push_back((cx - 1, cy));
        queue.push_back((cx, cy + 1));
        queue.push_back((cx, cy - 1));
        proof {
            let mid = old_queue.subrange(1, old_queue.len() as int);
            let nbrs = seq![((cx + 1) as i64, cy), ((cx - 1) as i64, cy), (cx, (cy + 1) as i64), (cx, (cy - 1) as i64)];
            assert(queue@ =~= mid + nbrs);
            assert forall|q: (i64, i64)| #[trigger] queue@.contains(q) implies mid.contains(q) || nbrs.contains(q) by {
                let j = choose|j: int| 0 <= j < queue@.len() && queue@[j] == q;
                if j < mid.len() {
                    assert(mid[j] == q);
                } else {
                    assert(nbrs[j - mid.len()] == q);
                }
            }
            assert forall|q: (i64, i64)| #[trigger] mid.contains(q) implies queue@.contains(q) by {
                let j = choose|j: int| 0 <= j < mid.len() && mid[j] == q;
                assert(queue@[j] == q);
            }
            assert forall|q: (i64, i64)| #[trigger] nbrs.contains(q) implies queue@.contains(q) by {
                let j = choose|j: int| 0 <= j < nbrs.len() && nbrs[j] == q;
                assert(queue@[mid.len() + j] == q);
            }
            assert(nbrs.contains(((cx + 1) as i64, cy)) && nbrs[0] == ((cx + 1) as i64, cy));
            assert(nbrs.contains(((cx - 1) as i64, cy)) && nbrs[1] == ((cx - 1) as i64, cy));
            assert(nbrs.contains((cx, (cy + 1) as i64)) && nbrs[2] == (cx, (cy + 1) as i64));
            assert(nbrs.contains((cx, (cy - 1) as i64)) && nbrs[3] == (cx, (cy - 1) as i64));
            let ds = diffs@.subrange(d0.len() as int, diffs@.len() as int);
            assert(ds =~= old_ds.push(diffs@.last()));
            assert(diffs@.subrange(0, d0.len() as int) =~= d0);
            assert forall|i: int|
                0 <= i < c0.len() implies #[trigger] canvas.content@[i] == if filled.contains(
                    ((i % w) as i64, (i / w) as i64),
                ) {
                    fill
                } else {
                    c0[i]
                } by {
                lemma_cell_of_index(i, w, h);
                if i != idx {
                    assert(canvas.content@[i] == old_content[i]);
                    assert(((i % w) as i64, (i / w) as i64) != q0);
                }
            }
            assert forall|q: (i64, i64)|
                #[trigger] queue@.contains(q) implies q == seed || exists|p: (i64, i64)|
                    #[trigger] filled.contains(p) && adjacent(p, q) by {
                if nbrs.contains(q) {
                    assert(filled.contains(q0) && adjacent(q0, q));
                } else {
                    assert(old_queue.contains(q));
                    if q != seed {
                        let p = choose|p: (i64, i64)| #[trigger] old_filled.contains(p) && adjacent(p, q);
                        assert(filled.contains(p));
                    }
                }
            }
            assert forall|p: (i64, i64), q: (i64, i64)|
                filled.contains(p) && adjacent(p, q) && in_grid(q, w, h) && color_of(c0, w, q)
                    == target implies filled.contains(q) || queue@.contains(q) by {
                if p == q0 {
                    assert(nbrs.contains(q));
                } else {
                    assert(old_filled.contains(p));
                    if !old_filled.contains(q) && q != q0 {
                        assert(old_queue.contains(q));
                        assert(mid.contains(q));
                    }
                }
            }
            assert forall|s: Set<(i64, i64)>|
                #[trigger] closed(s, c0, w, h, target) && s.contains(seed) implies filled.subset_of(s) by {
                assert(old_filled.subset_of(s));
                if q0 != seed {
                    let p = choose|p: (i64, i64)| #[trigger] old_filled.contains(p) && adjacent(p, q0);
                    assert(s.contains(p));
                }
            }
            assert forall|k: int| 0 <= k < ds.len() implies ({
                let d = #[trigger] ds[k];
                &&& d.wf()
                &&& filled.contains(diff_pos(d))
                &&& d.before.color == target
                &&& d.after.color == fill
            }) by {
                if k < old_ds.len() {
                    assert(ds[k] == old_ds[k]);
                }
            }
            assert forall|k: int, l: int|
                0 <= k < ds.len() && 0 <= l < ds.len() && k != l implies diff_pos(#[trigger] ds[k])
                    != diff_pos(#[trigger] ds[l]) by {
                if k < old_ds.len() {
                    assert(ds[k] == old_ds[k]);
                }
                if l < old_ds.len() {
                    assert(ds[l] == old_ds[l]);
                }
            }
            assert forall|q: (i64, i64)|
                #[trigger] filled.contains(q) implies exists|k: int|
                    0 <= k < ds.len() && diff_pos(#[trigger] ds[k]) == q by {
                if q == q0 {
                    assert(diff_pos(ds[ds.len() - 1]) == q);
                } else {
                    let k = choose|k: int| 0 <= k < old_ds.len() && diff_pos(#[trigger] old_ds[k]) == q;
                    assert(ds[k] == old_ds[k]);
                }
            }
        }
    }
    proof {
        let ds = diffs@.subrange(d0.len() as int, diffs@.len() as int);
        assert(closed(filled, c0, w, h, target));
        assert forall|q: (i64, i64)| filled.contains(q) <==> in_region(c0, w, h, seed, target, q) by {
            if in_region(c0, w, h, seed, target, q) {
                assert(closed(filled, c0, w, h, target) && filled.contains(seed));
            }
        }
        assert forall|i: int|
            0 <= i < c0.len() implies #[trigger] canvas.content@[i] == if in_region(
                c0,
                w,
                h,
                seed,
                target,
                ((i % w) as i64, (i / w) as i64),
            ) {
                fill
            } else {
                c0[i]
            } by {
            assert(filled.contains(((i % w) as i64, (i / w) as i64)) == in_region(c0, w, h, seed, target, ((i % w) as i64, (i / w) as i64)));
        }
        assert forall|q: (i64, i64)|
            in_grid(q, w, h) && #[trigger] in_region(c0, w, h, seed, target, q) implies exists|k: int|
                0 <= k < ds.len() && diff_pos(#[trigger] ds[k]) == q by {
            assert(filled.contains(q));
        }
        assert forall|k: int| 0 <= k < ds.len() implies in_region(c0, w, h, seed, target, diff_pos(#[trigger] ds[k])) by {
            assert(filled.contains(diff_pos(ds[k])));
        }
    }
}


/// The paint bucket: on release, flood-fills the region under the pointer.
pub struct BucketState {
    pub current_stroke: Vec<PixelDiff>,
}

/// The layer and cell a bucket release at `pt` fills: the first layer
/// carrying `id`, where it can be edited, holds the cell, and the cell is
/// not already `fill`.
pub open spec fn bucket_target(p: Project, id: usize, pt: (i32, i32), fill: Color, i: int) -> bool {
    &&& first_with_id(p.layers@, id, i)
    &&& p.layers@[i].editable()
    &&& on_project(p, pt)
    &&& p.layers@[i].canvas.in_bounds(pt.0 as int, pt.1 as int)
    &&& p.layers@[i].canvas.color_at(pt.0 as int, pt.1 as int) != fill
}

/// Nothing is pending.
pub open spec fn bucket_idle(b: BucketState) -> bool {
    b.current_stroke@.len() == 0
}

/// A release fills the region under the pointer on the active layer with
/// the active color and records it as one stroke; where there is nothing to
/// fill, nothing changes.
pub open spec fn bucket_released(b: BucketState, e: PointerInput, ctx: ToolContext, p0: Project, p1: Project) -> bool {
    let pt = ctx.point_of(e);
    let fill = p0.current_color;
    &&& b.current_stroke@.len() == 0
    &&& if ctx.selected_layer.is_some() && exists|i: int| bucket_target(p0, ctx.selected_layer.unwrap(), pt, fill, i) {
        let id = ctx.selected_layer.unwrap();
        let i = choose|i: int| bucket_target(p0, id, pt, fill, i);
        let c = p0.layers@[i].canvas;
        let ds = p1.history.undo_view().last().1;
        &&& filled_layers(p0.layers@, p1.layers@, i, pt.0 as u32, pt.1 as u32, fill)
        &&& p1.history.max_count == p0.history.max_count
        &&& p1.history.undo_view() == crate::history::added(p0.history.undo_view(), p0.history.max_count, (id, ds))
        &&& p1.history.redo_view().len() == 0
        &&& fill_records(c.content@, c.width as int, c.height as int, (pt.0 as i64, pt.1 as i64), c.color_at(pt.0 as int, pt.1 as int), fill, ds)
        &&& p1.name == p0.name
        &&& p1.width == p0.width
        &&& p1.height == p0.height
        &&& p1.background_color == p0.background_color
        &&& p1.current_color == p0.current_color
        &&& p1.next_layer_id == p0.next_layer_id
    } else {
        p1 == p0
    }
}

impl BucketState {
    pub fn new() -> (s: Self)
        ensures
            s.current_stroke@.len() == 0,
    {
        BucketState { current_stroke: Vec::new() }
    }

    /// Pressing only clears the pending diffs; the fill happens on release.
    pub fn on_pointer_down(&mut self)
        ensures
            bucket_idle(*final(self)),
    {
        self.current_stroke.clear();
    }

    /// Fills the region under the pointer on the active layer with the
    /// active color and records it as one stroke.
    pub fn on_pointer_up(&mut self, e: &PointerInput, ctx: &ToolContext, project: &mut Project)
        requires
            ctx.wf(),
            old(project).wf(),
            old(self).current_stroke@.len() == 0,
        ensures
            final(project).wf(),
            bucket_released(*final(self), *e, *ctx, *old(project), *final(project)),
    {
        let layer_id = match ctx.selected_layer {
            Some(id) => id,
            None => return,
        };
        let (x, y) = ctx.canvas_point(e);
        if x < 0 || y < 0 || x as u32 >= project.width || y as u32 >= project.height {
            return;
        }
        let fill = project.current_color;
        let i = match project.editable_layer(layer_id) {
            Some(i) => i,
            None => return,
        };
        proof {
            assert forall|j: int| first_with_id(project.layers@, layer_id, j) implies j == i by {}
        }
        let ux = x as u32;
        let uy = y as u32;
        let start = project.layers[i].canvas.get_pixel(ux, uy);
        match start {
            Ok(px) => {
                if px.color == fill {
                    return;
                }
            },
            Err(_) => return,
        }
        let ghost p0 = *project;
        project.fill_layer(i, ux, uy, fill, &mut self.current_stroke);
        proof {
            assert(self.current_stroke@.subrange(0, self.current_stroke@.len() as int) =~= self.current_stroke@);
            assert(bucket_target(p0, layer_id, (x, y), fill, i as int));
            let c = choose|j: int| bucket_target(p0, layer_id, (x, y), fill, j);
            assert(c == i);
            assert(self.current_stroke@.len() > 0) by {
                let cv = p0.layers@[i as int].canvas;
                assert(in_region(cv.content@, cv.width as int, cv.height as int, (ux as i64, uy as i64), cv.color_at(ux as int, uy as int), (ux as i64, uy as i64))) by {
                    assert forall|s: Set<(i64, i64)>| #[trigger] closed(s, cv.content@, cv.width as int, cv.height as int, cv.color_at(ux as int, uy as int)) && s.contains((ux as i64, uy as i64)) implies s.contains((ux as i64, uy as i64)) by {}
                }
            }
        }
        flush_stroke(project, Some(layer_id), &mut self.current_stroke);
    }

    /// Drops any pending diffs.
    pub fn cancel(&mut self)
        ensures
            bucket_idle(*final(self)),
    {
        self.current_stroke.clear();
    }

    pub fn cursor(&self) -> (r: &'static str)
        ensures
            r@ == "cell"@,
    {
        "cell"
    }
}

} // verus!
