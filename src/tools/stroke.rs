use vstd::prelude::*;
use crate::canvas::{cell, lemma_cell_in_bounds, lemma_cell_of_index, Canvas};
use crate::color::Color;
use crate::history::PixelDiff;
use crate::pixel::Pixel;

verus! {

/// Some point of `pts` is `(x, y)`.
pub open spec fn covers(pts: Seq<(i64, i64)>, x: int, y: int) -> bool {
    exists|k: int| 0 <= k < pts.len() && (#[trigger] pts[k]).0 == x && pts[k].1 == y
}

proof fn lemma_covers_prefix(pts: Seq<(i64, i64)>, k: int, x: int, y: int)
    requires
        0 <= k < pts.len(),
    ensures
        covers(pts.subrange(0, k + 1), x, y) == (covers(pts.subrange(0, k), x, y) || (pts[k].0 == x
            && pts[k].1 == y)),
{
    let a = pts.subrange(0, k);
    let b = pts.subrange(0, k + 1);
    if covers(a, x, y) {
        let j = choose|j: int| 0 <= j < a.len() && (#[trigger] a[j]).0 == x && a[j].1 == y;
        assert(b[j] == a[j]);
    }
    if pts[k].0 == x && pts[k].1 == y {
        assert(b[k] == pts[k]);
    }
    if covers(b, x, y) {
        let j = choose|j: int| 0 <= j < b.len() && (#[trigger] b[j]).0 == x && b[j].1 == y;
        if j < k {
            assert(a[j] == b[j]);
        }
    }
}

/// `c` (a `w` cells wide buffer) with every cell that `pts` covers set to `color`.
pub open spec fn stamped(c: Seq<Color>, w: int, pts: Seq<(i64, i64)>, color: Color) -> Seq<Color> {
    Seq::new(c.len(), |i: int| if covers(pts, i % w, i / w) { color } else { c[i] })
}

/// `ds` records, one diff per cell, every cell of a `w` by `h` buffer `c`
/// that `pts` covers and whose color is not `color`, with that color before
/// and `color` after, in the order in which `pts` first reaches the cells.
pub open spec fn records(c: Seq<Color>, w: int, h: int, pts: Seq<(i64, i64)>, color: Color, ds: Seq<PixelDiff>) -> bool {
    &&& forall|k: int|
        0 <= k < ds.len() ==> {
            let d = #[trigger] ds[k];
            &&& d.wf()
            &&& d.after.x < w && d.after.y < h
            &&& covers(pts, d.after.x as int, d.after.y as int)
            &&& d.after.color == color
            &&& d.before.color == c[cell(d.after.x as int, d.after.y as int, w)]
            &&& d.before.color != color
        }
    &&& forall|k: int, l: int|
        0 <= k < ds.len() && 0 <= l < ds.len() && k != l ==> (#[trigger] ds[k]).after.x != (
        #[trigger] ds[l]).after.x || ds[k].after.y != ds[l].after.y
    &&& forall|x: int, y: int|
        0 <= x < w && 0 <= y < h && #[trigger] covers(pts, x, y) && c[cell(x, y, w)] != color ==> exists|
            k: int,
        |
            0 <= k < ds.len() && (#[trigger] ds[k]).after.x == x && ds[k].after.y == y
    &&& forall|k: int, l: int, j: int|
        #![trigger ds[k], ds[l], pts[j]]
        0 <= k < l < ds.len() && 0 <= j < pts.len() && pts[j].0 == ds[l].after.x && pts[j].1 == ds[l].after.y
            ==> reached_before(pts, ds[k].after.x as int, ds[k].after.y as int, j)
}

/// Some point of `pts` before position `j` is `(x, y)`.
pub open spec fn reached_before(pts: Seq<(i64, i64)>, x: int, y: int, j: int) -> bool {
    exists|i: int| 0 <= i < j && (#[trigger] pts[i]).0 == x && pts[i].1 == y
}

/// Paints `color` onto every in-bounds point of `pts`, recording a diff for
/// each cell whose color changes; a cell already of that color is neither
/// written nor recorded.
pub fn paint_points(canvas: &mut Canvas, pts: &Vec<(i64, i64)>, color: Color, diffs: &mut Vec<PixelDiff>)
    requires
        old(canvas).wf(),
    ensures
        final(canvas).wf(),
        final(canvas).width == old(canvas).width,
        final(canvas).height == old(canvas).height,
        final(canvas).background_color == old(canvas).background_color,
        final(canvas).content@ == stamped(old(canvas).content@, old(canvas).width as int, pts@, color),
        final(diffs)@.len() >= old(diffs)@.len(),
        final(diffs)@.subrange(0, old(diffs)@.len() as int) == old(diffs)@,
        records(
            old(canvas).content@,
            old(canvas).width as int,
            old(canvas).height as int,
            pts@,
            color,
            final(diffs)@.subrange(old(diffs)@.len() as int, final(diffs)@.len() as int),
        ),
{
    let ghost c0 = canvas.content@;
    let ghost w = canvas.width as int;
    let ghost h = canvas.height as int;
    let ghost d0 = diffs@;
    let mut k: usize = 0;
    while k < pts.len()
        invariant
            k <= pts@.len(),
            canvas.wf(),
            canvas.width == w,
            canvas.height == h,
            canvas.background_color == old(canvas).background_color,
            c0.len() == w * h,
            forall|i: int|
                0 <= i < c0.len() ==> canvas.content@[i] == if covers(pts@.subrange(0, k as int), i % w, i / w) {
                    color
                } else {
                    c0[i]
                },
            diffs@.len() >= d0.len(),
            diffs@.subrange(0, d0.len() as int) == d0,
            records(c0, w, h, pts@.subrange(0, k as int), color, diffs@.subrange(d0.len() as int, diffs@.len() as int)),
        decreases pts@.len() - k,
    {
        let (px, py) = pts[k];
        let ghost pre = pts@.subrange(0, k as int);
        let ghost old_content = canvas.content@;
        let ghost old_diffs = diffs@;
        let ghost new_before = old_diffs.subrange(d0.len() as int, old_diffs.len() as int);
        if 0 <= px && px < canvas.width as i64 && 0 <= py && py < canvas.height as i64 {
            let x = px as u32;
            let y = py as u32;
            proof {
                lemma_cell_in_bounds(x as int, y as int, w, h);
            }
            let len = canvas.content.len();
            let idx = (y as usize) * (canvas.width as usize) + (x as usize);
            let old_color = canvas.content[idx];
            proof {
                lemma_cell_of_index(idx as int, w, h);
            }
            if old_color != color {
                proof {
                    if covers(pre, x as int, y as int) {
                        assert(old_content[idx as int] == color);
                    }
                }
                diffs.push(PixelDiff { before: Pixel::new(x, y, old_color), after: Pixel::new(x, y, color) });
                canvas.content.set(idx, color);
                proof {
                    let nd = diffs@.subrange(d0.len() as int, diffs@.len() as int);
                    assert(nd =~= new_before.push(diffs@.last()));
                    assert(diffs@.subrange(0, d0.len() as int) =~= d0);
                }
            }
            proof {
                let post = pts@.subrange(0, k as int + 1);
                let nd = diffs@.subrange(d0.len() as int, diffs@.len() as int);
                assert forall|i: int| 0 <= i < c0.len() implies canvas.content@[i] == if covers(post, i % w, i / w) {
                    color
                } else {
                    c0[i]
                } by {
                    lemma_cell_of_index(i, w, h);
                    lemma_covers_prefix(pts@, k as int, i % w, i / w);
                }
                assert forall|xx: int, yy: int|
                    0 <= xx < w && 0 <= yy < h && #[trigger] covers(post, xx, yy) && c0[cell(xx, yy, w)] != color implies exists|
                        j: int,
                    |
                        0 <= j < nd.len() && (#[trigger] nd[j]).after.x == xx && nd[j].after.y == yy by {
                    lemma_covers_prefix(pts@, k as int, xx, yy);
                    lemma_cell_in_bounds(xx, yy, w, h);
                    if !covers(pre, xx, yy) {
                        assert(nd[nd.len() - 1].after.x == xx);
                    } else {
                        let j = choose|j: int| 0 <= j < new_before.len() && (#[trigger] new_before[j]).after.x == xx && new_before[j].after.y == yy;
                        assert(nd[j] == new_before[j]);
                    }
                }
                assert forall|j: int| 0 <= j < nd.len() implies covers(post, (#[trigger] nd[j]).after.x as int, nd[j].after.y as int) by {
                    lemma_covers_prefix(pts@, k as int, nd[j].after.x as int, nd[j].after.y as int);
                    if j < new_before.len() {
                        assert(nd[j] == new_before[j]);
                    }
                }
                assert forall|a: int, b: int, j: int|
                    #![trigger nd[a], nd[b], post[j]]
                    0 <= a < b < nd.len() && 0 <= j < post.len() && post[j].0 == nd[b].after.x
                        && post[j].1 == nd[b].after.y implies reached_before(post, nd[a].after.x as int, nd[a].after.y as int, j) by {
                    assert(nd[a] == new_before[a]);
                    assert(covers(pre, nd[a].after.x as int, nd[a].after.y as int));
                    if b < new_before.len() {
                        assert(nd[b] == new_before[b]);
                        if j < k {
                            assert(pre[j] == post[j]);
                            assert(reached_before(pre, new_before[a].after.x as int, new_before[a].after.y as int, j));
                            let i = choose|i: int| 0 <= i < j && (#[trigger] pre[i]).0 == new_before[a].after.x && pre[i].1 == new_before[a].after.y;
                            assert(post[i] == pre[i]);
                        } else {
                            assert(covers(pre, nd[b].after.x as int, nd[b].after.y as int));
                            let j0 = choose|j0: int| 0 <= j0 < pre.len() && (#[trigger] pre[j0]).0 == nd[b].after.x && pre[j0].1 == nd[b].after.y;
                            assert(reached_before(pre, new_before[a].after.x as int, new_before[a].after.y as int, j0));
                            let i = choose|i: int| 0 <= i < j0 && (#[trigger] pre[i]).0 == new_before[a].after.x && pre[i].1 == new_before[a].after.y;
                            assert(post[i] == pre[i]);
                        }
                    } else {
                        if j < k {
                            assert(pre[j] == post[j]);
                        }
                        let i = choose|i: int| 0 <= i < pre.len() && (#[trigger] pre[i]).0 == nd[a].after.x && pre[i].1 == nd[a].after.y;
                        assert(post[i] == pre[i]);
                    }
                }
            }
        } else {
            proof {
                let post = pts@.subrange(0, k as int + 1);
                assert forall|i: int| 0 <= i < c0.len() implies canvas.content@[i] == if covers(post, i % w, i / w) {
                    color
                } else {
                    c0[i]
                } by {
                    lemma_cell_of_index(i, w, h);
                    lemma_covers_prefix(pts@, k as int, i % w, i / w);
                }
                assert forall|xx: int, yy: int|
                    0 <= xx < w && 0 <= yy < h && #[trigger] covers(post, xx, yy) && c0[cell(xx, yy, w)] != color implies exists|
                        j: int,
                    |
                        0 <= j < new_before.len() && (#[trigger] new_before[j]).after.x == xx && new_before[j].after.y == yy by {
                    lemma_covers_prefix(pts@, k as int, xx, yy);
                }
                assert forall|j: int| 0 <= j < new_before.len() implies covers(post, (#[trigger] new_before[j]).after.x as int, new_before[j].after.y as int) by {
                    lemma_covers_prefix(pts@, k as int, new_before[j].after.x as int, new_before[j].after.y as int);
                }
                assert forall|a: int, b: int, j: int|
                    #![trigger new_before[a], new_before[b], post[j]]
                    0 <= a < b < new_before.len() && 0 <= j < post.len() && post[j].0 == new_before[b].after.x
                        && post[j].1 == new_before[b].after.y implies reached_before(post, new_before[a].after.x as int, new_before[a].after.y as int, j) by {
                    assert(j < k);
                    assert(pre[j] == post[j]);
                    assert(reached_before(pre, new_before[a].after.x as int, new_before[a].after.y as int, j));
                    let i = choose|i: int|
                        0 <= i < j && (#[trigger] pre[i]).0 == new_before[a].after.x && pre[i].1 == new_before[a].after.y;
                    assert(post[i] == pre[i]);
                }
            }
        }
        k = k + 1;
    }
    assert(pts@.subrange(0, pts@.len() as int) =~= pts@);
    assert(canvas.content@ =~= stamped(c0, w, pts@, color));
}


/// Offset `o` of a stamp `2 * r + 1` cells square, row-major from the
/// top-left corner, as `(dx, dy)`.
pub open spec fn stamp_offset(o: int, r: int) -> (int, int) {
    (o % (2 * r + 1) - r, o / (2 * r + 1) - r)
}

/// Every target stamped with a round tip: cell `(p.0 + dx, p.1 + dy)` for
/// each offset of the square with `4 * (dx * dx + dy * dy) <= q`; offsets
/// outside the tip stand for the target itself.
pub open spec fn disk_stamp(targets: Seq<(i32, i32)>, r: int, q: int) -> Seq<(i64, i64)> {
    let s = (2 * r + 1) * (2 * r + 1);
    Seq::new(
        (targets.len() * s) as nat,
        |i: int|
            {
                let p = targets[i / s];
                let d = stamp_offset(i % s, r);
                if 4 * (d.0 * d.0 + d.1 * d.1) <= q {
                    ((p.0 + d.0) as i64, (p.1 + d.1) as i64)
                } else {
                    (p.0 as i64, p.1 as i64)
                }
            },
    )
}

/// The stamped cells of `disk_stamp`, where their count fits in memory.
pub fn stamp_targets(targets: &Vec<(i32, i32)>, r: u64, q: u128) -> (out: Option<Vec<(i64, i64)>>)
    ensures
        out.is_some() <==> targets@.len() * ((2 * r + 1) * (2 * r + 1)) <= usize::MAX,
        out.is_some() ==> out.unwrap()@ == disk_stamp(targets@, r as int, q as int),
{
    let n_t = targets.len();
    if n_t == 0 {
        let out: Vec<(i64, i64)> = Vec::new();
        assert(out@ =~= disk_stamp(targets@, r as int, q as int));
        return Some(out);
    }
    if r > 0xffff_ffff {
        assert(targets@.len() * ((2 * r + 1) * (2 * r + 1)) > usize::MAX) by (nonlinear_arith)
            requires
                targets@.len() >= 1,
                r > 0xffff_ffff,
                usize::MAX <= 0xffff_ffff_ffff_ffff,
        ;
        return None;
    }
    let side: u128 = 2 * (r as u128) + 1;
    assert(side * side <= 0x2_0000_0001 * 0x2_0000_0001) by (nonlinear_arith)
        requires
            1 <= side <= 0x2_0000_0001,
    ;
    let s: u128 = side * side;
    if s > usize::MAX as u128 {
        assert(targets@.len() * s > usize::MAX) by (nonlinear_arith)
            requires
                targets@.len() >= 1,
                s > usize::MAX,
        ;
        return None;
    }
    assert((n_t as u128) * s <= 0xffff_ffff_ffff_ffff * 0xffff_ffff_ffff_ffff) by (nonlinear_arith)
        requires
            n_t <= 0xffff_ffff_ffff_ffff,
            s <= 0xffff_ffff_ffff_ffff,
    ;
    if (n_t as u128) * s > usize::MAX as u128 {
        return None;
    }
    assert(1 <= side <= s) by (nonlinear_arith)
        requires
            s == side * side,
            side >= 1,
    ;
    assert(r <= 0x8000_0000) by (nonlinear_arith)
        requires
            s == side * side,
            side == 2 * r + 1,
            s <= 0xffff_ffff_ffff_ffff,
    ;
    let s_us = s as usize;
    let side_us = side as usize;
    let n: usize = ((n_t as u128) * s) as usize;
    let ghost target = disk_stamp(targets@, r as int, q as int);
    let mut out: Vec<(i64, i64)> = Vec::with_capacity(n);
    let mut i: usize = 0;
    while i < n
        invariant
            i <= n,
            n == targets@.len() * s,
            side == 2 * r + 1,
            s == side * side,
            s_us == s,
            side_us == side,
            1 <= side <= s,
            r <= 0x8000_0000,
            target == disk_stamp(targets@, r as int, q as int),
            out@ == target.subrange(0, i as int),
        decreases n - i,
    {
        proof {
            assert(s * targets@.len() == targets@.len() * s) by (nonlinear_arith);
            crate::canvas::lemma_cell_of_index(i as int, s as int, targets@.len() as int);
            crate::canvas::lemma_cell_of_index((i as int) % (s as int), side as int, side as int);
        }
        let p = targets[i / s_us];
        let o = i % s_us;
        let dx = (o % side_us) as i128 - r as i128;
        let dy = (o / side_us) as i128 - r as i128;
        assert(0 <= dx * dx <= 0x8000_0000 * 0x8000_0000 && 0 <= dy * dy <= 0x8000_0000 * 0x8000_0000) by (nonlinear_arith)
            requires
                -0x8000_0000 <= dx <= 0x8000_0000,
                -0x8000_0000 <= dy <= 0x8000_0000,
        ;
        let in_tip = (4 * (dx * dx + dy * dy)) as u128 <= q;
        let cell = if in_tip {
            (p.0 as i64 + dx as i64, p.1 as i64 + dy as i64)
        } else {
            (p.0 as i64, p.1 as i64)
        };
        out.push(cell);
        i = i + 1;
        assert(out@ =~= target.subrange(0, i as int));
    }
    assert(out@ =~= target);
    Some(out)
}

} // verus!
