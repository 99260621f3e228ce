use vstd::prelude::*;
use std::collections::VecDeque;
use crate::canvas::{cell, lemma_paint_overwrites, paint, writes, Canvas};
use crate::color::Color;
use crate::pixel::Pixel;

verus! {

/// One cell's mutation: its state before and after.
#[derive(Clone, Copy, Debug, PartialEq, Eq, Structural)]
pub struct PixelDiff {
    pub before: Pixel,
    pub after: Pixel,
}

impl PixelDiff {
    /// Both sides name the same cell.
    pub open spec fn wf(&self) -> bool {
        self.before.x == self.after.x && self.before.y == self.after.y
    }
}

/// All cell mutations of one gesture on one layer, in the order made.
pub struct StrokeDiff {
    pub layer_id: usize,
    pub pixels: Vec<PixelDiff>,
}

impl View for StrokeDiff {
    type V = (usize, Seq<PixelDiff>);

    open spec fn view(&self) -> (usize, Seq<PixelDiff>) {
        (self.layer_id, self.pixels@)
    }
}

pub open spec fn befores(ds: Seq<PixelDiff>) -> Seq<Pixel> {
    ds.map_values(|d: PixelDiff| d.before)
}

pub open spec fn afters(ds: Seq<PixelDiff>) -> Seq<Pixel> {
    ds.map_values(|d: PixelDiff| d.after)
}

/// The `before` pixels, newest diff first: what undoing writes back, so
/// that a cell changed twice ends with its earliest `before`.
pub open spec fn befores_newest_first(ds: Seq<PixelDiff>) -> Seq<Pixel> {
    Seq::new(ds.len(), |i: int| ds[ds.len() - 1 - i].before)
}

/// The strokes of a queue, front first, as values.
pub open spec fn strokes(q: Seq<StrokeDiff>) -> Seq<(usize, Seq<PixelDiff>)> {
    q.map_values(|s: StrokeDiff| s@)
}

/// The undo stack after `History::add` with capacity `max_count`.
pub open spec fn added(undo: Seq<(usize, Seq<PixelDiff>)>, max_count: usize, s: (usize, Seq<PixelDiff>)) -> Seq<(usize, Seq<PixelDiff>)> {
    if undo.len() >= max_count && undo.len() > 0 {
        undo.drop_first().push(s)
    } else {
        undo.push(s)
    }
}

impl StrokeDiff {
    pub fn new(layer_id: usize, pixels: Vec<PixelDiff>) -> (s: Self)
        ensures
            s.layer_id == layer_id,
            s.pixels@ == pixels@,
    {
        StrokeDiff { layer_id, pixels }
    }

    /// A copy with the same layer and the same diffs.
    pub fn duplicate(&self) -> (r: Self)
        ensures
            r@ == self@,
    {
        let mut pixels: Vec<PixelDiff> = Vec::with_capacity(self.pixels.len());
        let mut i: usize = 0;
        while i < self.pixels.len()
            invariant
                i <= self.pixels@.len(),
                pixels@ == self.pixels@.subrange(0, i as int),
            decreases self.pixels@.len() - i,
        {
            pixels.push(self.pixels[i]);
            i = i + 1;
            assert(pixels@ =~= self.pixels@.subrange(0, i as int));
        }
        assert(pixels@ =~= self.pixels@);
        StrokeDiff { layer_id: self.layer_id, pixels }
    }
}

/// Bounded undo and redo stacks of strokes; the back of each queue is its top.
pub struct History {
    pub max_count: usize,
    pub undo: VecDeque<StrokeDiff>,
    pub redo: VecDeque<StrokeDiff>,
}

impl History {
    pub open spec fn undo_view(&self) -> Seq<(usize, Seq<PixelDiff>)> {
        strokes(self.undo@)
    }

    pub open spec fn redo_view(&self) -> Seq<(usize, Seq<PixelDiff>)> {
        strokes(self.redo@)
    }

    pub fn new(max_count: usize) -> (h: Self)
        ensures
            h.max_count == max_count,
            h.undo_view() == Seq::<(usize, Seq<PixelDiff>)>::empty(),
            h.redo_view() == Seq::<(usize, Seq<PixelDiff>)>::empty(),
    {
        let h = History { max_count, undo: VecDeque::new(), redo: VecDeque::new() };
        assert(h.undo_view() =~= Seq::<(usize, Seq<PixelDiff>)>::empty());
        assert(h.redo_view() =~= Seq::<(usize, Seq<PixelDiff>)>::empty());
        h
    }

    /// Records a new stroke: evicts the oldest one at capacity and empties
    /// the redo stack.
    pub fn add(&mut self, stroke: StrokeDiff)
        ensures
            final(self).max_count == old(self).max_count,
            final(self).undo_view() == added(old(self).undo_view(), old(self).max_count, stroke@),
            final(self).redo_view() == Seq::<(usize, Seq<PixelDiff>)>::empty(),
    {
        let ghost s = stroke@;
        if self.undo.len() >= self.max_count {
            self.undo.pop_front();
        }
        self.undo.push_back(stroke);
        self.redo.clear();
        assert(self.redo_view() =~= Seq::<(usize, Seq<PixelDiff>)>::empty());
        assert(self.undo_view() =~= added(old(self).undo_view(), old(self).max_count, s));
    }

    /// Moves the newest undo entry onto the redo stack and returns it;
    /// `None` where there is nothing to undo.
    pub fn undo(&mut self) -> (r: Option<StrokeDiff>)
        ensures
            final(self).max_count == old(self).max_count,
            old(self).undo_view().len() == 0 ==> r.is_none() && final(self).undo_view() == old(
                self,
            ).undo_view() && final(self).redo_view() == old(self).redo_view(),
            old(self).undo_view().len() > 0 ==> r.is_some() && r.unwrap()@ == old(
                self,
            ).undo_view().last() && final(self).undo_view() == old(self).undo_view().drop_last()
                && final(self).redo_view() == old(self).redo_view().push(r.unwrap()@),
    {
        let popped = self.undo.pop_back();
        match popped {
            Some(stroke) => {
                let copy = stroke.duplicate();
                self.redo.push_back(copy);
                assert(self.undo_view() =~= old(self).undo_view().drop_last());
                assert(self.redo_view() =~= old(self).redo_view().push(stroke@));
                Some(stroke)
            },
            None => None,
        }
    }

    /// Moves the newest redo entry back onto the undo stack and returns it;
    /// `None` where there is nothing to redo.
    pub fn redo(&mut self) -> (r: Option<StrokeDiff>)
        ensures
            final(self).max_count == old(self).max_count,
            old(self).redo_view().len() == 0 ==> r.is_none() && final(self).undo_view() == old(
                self,
            ).undo_view() && final(self).redo_view() == old(self).redo_view(),
            old(self).redo_view().len() > 0 ==> r.is_some() && r.unwrap()@ == old(
                self,
            ).redo_view().last() && final(self).redo_view() == old(self).redo_view().drop_last()
                && final(self).undo_view() == old(self).undo_view().push(r.unwrap()@),
    {
        let popped = self.redo.pop_back();
        match popped {
            Some(stroke) => {
                let copy = stroke.duplicate();
                self.undo.push_back(copy);
                assert(self.redo_view() =~= old(self).redo_view().drop_last());
                assert(self.undo_view() =~= old(self).undo_view().push(stroke@));
                Some(stroke)
            },
            None => None,
        }
    }
}

/// Redoes (`forward` true) or undoes (`forward` false) the diffs: writes
/// each `after` pixel oldest first, or each `before` pixel newest first;
/// pixels off the canvas are skipped.
pub fn apply_diffs(canvas: &mut Canvas, diffs: &Vec<PixelDiff>, forward: bool)
    requires
        old(canvas).wf(),
    ensures
        final(canvas).wf(),
        final(canvas).width == old(canvas).width,
        final(canvas).height == old(canvas).height,
        final(canvas).background_color == old(canvas).background_color,
        final(canvas).content@ == paint(
            old(canvas).content@,
            old(canvas).width as int,
            old(canvas).height as int,
            if forward {
                afters(diffs@)
            } else {
                befores_newest_first(diffs@)
            },
        ),
{
    let ghost c0 = canvas.content@;
    let ghost w = canvas.width as int;
    let ghost h = canvas.height as int;
    let ghost ps = if forward {
        afters(diffs@)
    } else {
        befores_newest_first(diffs@)
    };
    let mut k: usize = 0;
    while k < diffs.len()
        invariant
            k <= diffs@.len(),
            canvas.wf(),
            canvas.width == w,
            canvas.height == h,
            canvas.background_color == old(canvas).background_color,
            ps.len() == diffs@.len(),
            forall|j: int| 0 <= j < diffs@.len() ==> ps[j] == if forward {
                diffs@[j].after
            } else {
                diffs@[diffs@.len() - 1 - j].before
            },
            canvas.content@ == paint(c0, w, h, ps.subrange(0, k as int)),
        decreases diffs@.len() - k,
    {
        let p = if forward {
            diffs[k].after
        } else {
            diffs[diffs.len() - 1 - k].before
        };
        let _ = canvas.set_pixel(p);
        proof {
            let sub = ps.subrange(0, k as int + 1);
            assert(sub.drop_last() =~= ps.subrange(0, k as int));
            assert(sub.last() == p);
        }
        k = k + 1;
    }
    assert(ps.subrange(0, diffs@.len() as int) =~= ps);
}

} // verus!

verus! {

/// Undoing a stroke and then redoing it leaves a canvas as it stood, where
/// the canvas held what the stroke wrote.
pub proof fn lemma_undo_then_redo(c: Seq<Color>, w: int, h: int, ds: Seq<PixelDiff>)
    requires
        c.len() == w * h,
        forall|k: int| 0 <= k < ds.len() ==> (#[trigger] ds[k]).wf(),
        paint(c, w, h, afters(ds)) == c,
    ensures
        paint(paint(c, w, h, befores_newest_first(ds)), w, h, afters(ds)) == c,
{
    let b = befores_newest_first(ds);
    let a = afters(ds);
    let n = ds.len() as int;
    assert forall|i: int| writes(a, w, h, i) <==> writes(b, w, h, i) by {
        if writes(a, w, h, i) {
            let k = choose|k: int|
                0 <= k < a.len() && a[k].x < w && a[k].y < h && #[trigger] cell(a[k].x as int, a[k].y as int, w) == i;
            assert(ds[k].wf());
            assert(b[n - 1 - k] == ds[k].before);
            assert(cell(b[n - 1 - k].x as int, b[n - 1 - k].y as int, w) == i);
        }
        if writes(b, w, h, i) {
            let k = choose|k: int|
                0 <= k < b.len() && b[k].x < w && b[k].y < h && #[trigger] cell(b[k].x as int, b[k].y as int, w) == i;
            assert(ds[n - 1 - k].wf());
            assert(a[n - 1 - k] == ds[n - 1 - k].after);
            assert(cell(a[n - 1 - k].x as int, a[n - 1 - k].y as int, w) == i);
        }
    }
    lemma_paint_overwrites(c, w, h, b, a);
}

} // verus!
