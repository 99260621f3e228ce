use vstd::prelude::*;
use vstd::arithmetic::div_mod::{lemma_fundamental_div_mod, lemma_fundamental_div_mod_converse};
use crate::color::Color;
use crate::error::PaintError;
use crate::pixel::Pixel;

verus! {

/// Row-major position of the cell `(x, y)` in a buffer `w` cells wide.
pub open spec fn cell(x: int, y: int, w: int) -> int {
    y * w + x
}

pub proof fn lemma_cell_in_bounds(x: int, y: int, w: int, h: int)
    requires
        0 <= x < w,
        0 <= y < h,
    ensures
        0 <= cell(x, y, w) < w * h,
        cell(x, y, w) % w == x,
        cell(x, y, w) / w == y,
{
    assert(0 <= y * w + x < w * h) by (nonlinear_arith)
        requires
            0 <= x < w,
            0 <= y < h,
    ;
    lemma_fundamental_div_mod_converse(y * w + x, w, y, x);
}

pub proof fn lemma_cell_of_index(i: int, w: int, h: int)
    requires
        0 <= i < w * h,
        0 < w,
    ensures
        0 <= i % w < w,
        0 <= i / w < h,
        i == cell(i % w, i / w, w),
{
    lemma_fundamental_div_mod(i, w);
    assert(0 <= i % w < w) by (nonlinear_arith)
        requires
            0 < w,
            i == w * (i / w) + (i % w),
            0 <= i,
    {
        vstd::arithmetic::div_mod::lemma_mod_pos_bound(i, w);
    }
    assert(0 <= i / w < h) by (nonlinear_arith)
        requires
            0 < w,
            i == w * (i / w) + (i % w),
            0 <= i % w < w,
            0 <= i < w * h,
    ;
    assert(w * (i / w) == (i / w) * w) by (nonlinear_arith);
}

/// The buffer that `Canvas::resize` makes: the cells shared with the old
/// `w` by `h` buffer keep their color, the others take `bg`.
pub open spec fn resized(c: Seq<Color>, w: int, h: int, nw: int, nh: int, bg: Color) -> Seq<Color> {
    Seq::new(
        (nw * nh) as nat,
        |i: int|
            {
                let x = i % nw;
                let y = i / nw;
                if x < w && y < h {
                    c[cell(x, y, w)]
                } else {
                    bg
                }
            },
    )
}

/// The buffer left after writing each pixel of `ps` in turn into a `w` by
/// `h` buffer; pixels outside it are skipped.
pub open spec fn paint(c: Seq<Color>, w: int, h: int, ps: Seq<Pixel>) -> Seq<Color>
    decreases ps.len(),
{
    if ps.len() == 0 {
        c
    } else {
        let p = ps.last();
        let prev = paint(c, w, h, ps.drop_last());
        if p.x < w && p.y < h {
            prev.update(cell(p.x as int, p.y as int, w), p.color)
        } else {
            prev
        }
    }
}

/// Some pixel of `ps` lands on the cell at position `i`.
pub open spec fn writes(ps: Seq<Pixel>, w: int, h: int, i: int) -> bool {
    exists|k: int|
        0 <= k < ps.len() && ps[k].x < w && ps[k].y < h && #[trigger] cell(
            ps[k].x as int,
            ps[k].y as int,
            w,
        ) == i
}

pub proof fn lemma_paint_len(c: Seq<Color>, w: int, h: int, ps: Seq<Pixel>)
    requires
        c.len() == w * h,
    ensures
        paint(c, w, h, ps).len() == c.len(),
    decreases ps.len(),
{
    if ps.len() > 0 {
        lemma_paint_len(c, w, h, ps.drop_last());
        let p = ps.last();
        if p.x < w && p.y < h {
            lemma_cell_in_bounds(p.x as int, p.y as int, w, h);
        }
    }
}

/// A cell that no pixel of `ps` lands on keeps its color.
pub proof fn lemma_paint_unwritten(c: Seq<Color>, w: int, h: int, ps: Seq<Pixel>, i: int)
    requires
        c.len() == w * h,
        0 <= i < c.len(),
        !writes(ps, w, h, i),
    ensures
        paint(c, w, h, ps)[i] == c[i],
    decreases ps.len(),
{
    if ps.len() > 0 {
        let q = ps.drop_last();
        assert(!writes(q, w, h, i)) by {
            if writes(q, w, h, i) {
                let k = choose|k: int|
                    0 <= k < q.len() && q[k].x < w && q[k].y < h && #[trigger] cell(
                        q[k].x as int,
                        q[k].y as int,
                        w,
                    ) == i;
                assert(ps[k] == q[k]);
            }
        }
        lemma_paint_unwritten(c, w, h, q, i);
        lemma_paint_len(c, w, h, q);
        let p = ps.last();
        if p.x < w && p.y < h {
            lemma_cell_in_bounds(p.x as int, p.y as int, w, h);
            assert(cell(ps[ps.len() - 1].x as int, ps[ps.len() - 1].y as int, w) != i);
        }
    }
}

/// A cell that some pixel of `ps` lands on ends with the same color
/// whatever it held before.
pub proof fn lemma_paint_written(c1: Seq<Color>, c2: Seq<Color>, w: int, h: int, ps: Seq<Pixel>, i: int)
    requires
        c1.len() == w * h,
        c2.len() == w * h,
        0 <= i < c1.len(),
        writes(ps, w, h, i),
    ensures
        paint(c1, w, h, ps)[i] == paint(c2, w, h, ps)[i],
    decreases ps.len(),
{
    let q = ps.drop_last();
    let p = ps.last();
    lemma_paint_len(c1, w, h, q);
    lemma_paint_len(c2, w, h, q);
    if p.x < w && p.y < h {
        lemma_cell_in_bounds(p.x as int, p.y as int, w, h);
    }
    if p.x < w && p.y < h && cell(p.x as int, p.y as int, w) == i {
    } else {
        let k = choose|k: int|
            0 <= k < ps.len() && ps[k].x < w && ps[k].y < h && #[trigger] cell(
                ps[k].x as int,
                ps[k].y as int,
                w,
            ) == i;
        assert(k != ps.len() - 1);
        assert(q[k] == ps[k]);
        assert(writes(q, w, h, i));
        lemma_paint_written(c1, c2, w, h, q, i);
    }
}

/// Writing `a` over what writing `b` left equals writing `a` alone, where
/// `a` and `b` land on the same cells.
pub proof fn lemma_paint_overwrites(c: Seq<Color>, w: int, h: int, b: Seq<Pixel>, a: Seq<Pixel>)
    requires
        c.len() == w * h,
        forall|i: int| writes(a, w, h, i) <==> writes(b, w, h, i),
    ensures
        paint(paint(c, w, h, b), w, h, a) == paint(c, w, h, a),
{
    let cb = paint(c, w, h, b);
    lemma_paint_len(c, w, h, b);
    lemma_paint_len(cb, w, h, a);
    lemma_paint_len(c, w, h, a);
    assert forall|i: int| 0 <= i < c.len() implies paint(cb, w, h, a)[i] == paint(c, w, h, a)[i] by {
        if writes(a, w, h, i) {
            lemma_paint_written(cb, c, w, h, a, i);
        } else {
            lemma_paint_unwritten(cb, w, h, a, i);
            lemma_paint_unwritten(c, w, h, b, i);
            lemma_paint_unwritten(c, w, h, a, i);
        }
    }
    assert(paint(cb, w, h, a) =~= paint(c, w, h, a));
}

/// A `width` by `height` grid of colors, stored row-major.
pub struct Canvas {
    pub width: u32,
    pub height: u32,
    pub content: Vec<Color>,
    pub background_color: Color,
}

impl Canvas {
    pub open spec fn wf(&self) -> bool {
        self.content@.len() == self.width as int * self.height as int
    }

    pub open spec fn in_bounds(&self, x: int, y: int) -> bool {
        0 <= x < self.width as int && 0 <= y < self.height as int
    }

    pub open spec fn color_at(&self, x: int, y: int) -> Color {
        self.content@[cell(x, y, self.width as int)]
    }

    /// A canvas whose every cell holds `background_color`.
    pub fn new(width: u32, height: u32, background_color: Color) -> (c: Self)
        requires
            width as int * height as int <= usize::MAX,
        ensures
            c.wf(),
            c.width == width,
            c.height == height,
            c.background_color == background_color,
            c.content@ == Seq::new((width as int * height as int) as nat, |_i: int| background_color),
    {
        let n: usize = (width as usize) * (height as usize);
        let mut content: Vec<Color> = Vec::with_capacity(n);
        let mut i: usize = 0;
        while i < n
            invariant
                i <= n,
                n == width as int * height as int,
                content@.len() == i,
                forall|j: int| 0 <= j < i ==> content@[j] == background_color,
            decreases n - i,
        {
            content.push(background_color);
            i = i + 1;
        }
        let c = Canvas { width, height, content, background_color };
        assert(c.content@ =~= Seq::new((width as int * height as int) as nat, |_i: int| background_color));
        c
    }

    /// Overwrites the cell at the pixel's coordinates with its color.
    pub fn set_pixel(&mut self, pixel: Pixel) -> (r: Result<(), PaintError>)
        requires
            old(self).wf(),
        ensures
            final(self).wf(),
            final(self).width == old(self).width,
            final(self).height == old(self).height,
            final(self).background_color == old(self).background_color,
            old(self).in_bounds(pixel.x as int, pixel.y as int) ==> r == Ok::<(), PaintError>(())
                && final(self).content@ == old(self).content@.update(
                cell(pixel.x as int, pixel.y as int, old(self).width as int),
                pixel.color,
            ),
            !old(self).in_bounds(pixel.x as int, pixel.y as int) ==> r == Err::<(), PaintError>(
                PaintError::OutOfBounds,
            ) && *final(self) == *old(self),
    {
        if pixel.x >= self.width || pixel.y >= self.height {
            return Err(PaintError::OutOfBounds);
        }
        proof {
            lemma_cell_in_bounds(pixel.x as int, pixel.y as int, self.width as int, self.height as int);
        }
        let len = self.content.len();
        let idx = (pixel.y as usize) * (self.width as usize) + (pixel.x as usize);
        self.content.set(idx, pixel.color);
        Ok(())
    }

    /// A copy of the cell at `(x, y)`.
    pub fn get_pixel(&self, x: u32, y: u32) -> (r: Result<Pixel, PaintError>)
        requires
            self.wf(),
        ensures
            self.in_bounds(x as int, y as int) ==> r == Ok::<Pixel, PaintError>(
                Pixel { x, y, color: self.color_at(x as int, y as int) },
            ),
            !self.in_bounds(x as int, y as int) ==> r == Err::<Pixel, PaintError>(
                PaintError::OutOfBounds,
            ),
    {
        if x >= self.width || y >= self.height {
            return Err(PaintError::OutOfBounds);
        }
        proof {
            lemma_cell_in_bounds(x as int, y as int, self.width as int, self.height as int);
        }
        let len = self.content.len();
        let idx = (y as usize) * (self.width as usize) + (x as usize);
        Ok(Pixel::new(x, y, self.content[idx]))
    }

    /// Changes the dimensions, keeping the top-left region that both sizes
    /// share and filling the rest with the background color.
    pub fn resize(&mut self, new_width: u32, new_height: u32)
        requires
            old(self).wf(),
            new_width as int * new_height as int <= usize::MAX,
        ensures
            final(self).wf(),
            final(self).width == new_width,
            final(self).height == new_height,
            final(self).background_color == old(self).background_color,
            final(self).content@ == resized(
                old(self).content@,
                old(self).width as int,
                old(self).height as int,
                new_width as int,
                new_height as int,
                old(self).background_color,
            ),
            old(self).width == new_width && old(self).height == new_height ==> *final(self) == *old(
                self,
            ),
    {
        let ghost old_content = self.content@;
        let w = self.width;
        let h = self.height;
        let bg = self.background_color;
        if new_width == w && new_height == h {
            proof {
                assert(resized(old_content, w as int, h as int, w as int, h as int, bg) =~= old_content)
                    by {
                    assert forall|i: int| 0 <= i < old_content.len() implies resized(
                        old_content,
                        w as int,
                        h as int,
                        w as int,
                        h as int,
                        bg,
                    )[i] == old_content[i] by {
                        lemma_cell_of_index(i, w as int, h as int);
                    }
                }
            }
            return;
        }
        let n: usize = (new_width as usize) * (new_height as usize);
        let nw = new_width as usize;
        let old_len = self.content.len();
        assert(nw > 0 || n == 0) by (nonlinear_arith)
            requires
                nw == new_width,
                n == new_width as int * new_height as int,
        ;
        let mut content: Vec<Color> = Vec::with_capacity(n);
        let mut i: usize = 0;
        while i < n
            invariant
                i <= n,
                n == new_width as int * new_height as int,
                nw == new_width,
                nw > 0 || n == 0,
                old_len == w as int * h as int,
                self.wf(),
                self.content@ == old_content,
                self.width == w,
                self.height == h,
                content@.len() == i,
                forall|j: int|
                    0 <= j < i ==> content@[j] == resized(
                        old_content,
                        w as int,
                        h as int,
                        new_width as int,
                        new_height as int,
                        bg,
                    )[j],
            decreases n - i,
        {
            proof {
                lemma_cell_of_index(i as int, nw as int, new_height as int);
            }
            let x = i % nw;
            let y = i / nw;
            if x < w as usize && y < h as usize {
                proof {
                    lemma_cell_in_bounds(x as int, y as int, w as int, h as int);
                }
                let idx = y * (w as usize) + x;
                content.push(self.content[idx]);
            } else {
                content.push(bg);
            }
            i = i + 1;
        }
        assert(content@ =~= resized(
            old_content,
            w as int,
            h as int,
            new_width as int,
            new_height as int,
            bg,
        ));
        self.width = new_width;
        self.height = new_height;
        self.content = content;
    }

    /// Resets every cell to the background color.
    pub fn clear(&mut self)
        requires
            old(self).wf(),
        ensures
            final(self).wf(),
            final(self).width == old(self).width,
            final(self).height == old(self).height,
            final(self).background_color == old(self).background_color,
            final(self).content@ == Seq::new(old(self).content@.len(), |_i: int| old(self).background_color),
    {
        let n = self.content.len();
        let bg = self.background_color;
        let mut i: usize = 0;
        while i < n
            invariant
                i <= n,
                self.content@.len() == n,
                self.background_color == bg,
                self.width == old(self).width,
                self.height == old(self).height,
                n == old(self).content@.len(),
                bg == old(self).background_color,
                forall|j: int| 0 <= j < i ==> self.content@[j] == bg,
            decreases n - i,
        {
            self.content.set(i, bg);
            i = i + 1;
        }
        assert(self.content@ =~= Seq::new(n as nat, |_i: int| bg));
    }
}


/// Resizing to other dimensions and back keeps every cell that lies inside
/// both sizes.
pub proof fn lemma_resize_round_trip(c: Seq<Color>, w: int, h: int, w2: int, h2: int, bg: Color)
    requires
        c.len() == w * h,
        0 <= w2,
        0 <= h2,
    ensures
        resized(resized(c, w, h, w2, h2, bg), w2, h2, w, h, bg).len() == c.len(),
        forall|x: int, y: int|
            0 <= x < w && 0 <= x < w2 && 0 <= y < h && 0 <= y < h2 ==> #[trigger] resized(
                resized(c, w, h, w2, h2, bg),
                w2,
                h2,
                w,
                h,
                bg,
            )[cell(x, y, w)] == c[cell(x, y, w)],
{
    let mid = resized(c, w, h, w2, h2, bg);
    assert forall|x: int, y: int|
        0 <= x < w && 0 <= x < w2 && 0 <= y < h && 0 <= y < h2 implies #[trigger] resized(
            mid,
            w2,
            h2,
            w,
            h,
            bg,
        )[cell(x, y, w)] == c[cell(x, y, w)] by {
        lemma_cell_in_bounds(x, y, w, h);
        lemma_cell_in_bounds(x, y, w2, h2);
    }
}

} // verus!
