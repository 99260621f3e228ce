use vstd::prelude::*;
use crate::canvas::{cell, lemma_cell_in_bounds, lemma_cell_of_index};
use crate::color::{transparent, Color};
use crate::layer::Layer;

verus! {

/// Opacity of `s` over `d`, in 255ths of 255ths (0 ..= 65025).
pub open spec fn over_alpha(d: Color, s: Color) -> int {
    s.alpha * 255 + d.alpha * (255 - s.alpha)
}

/// One color channel of `s` over `d`, given the resulting opacity `a`.
pub open spec fn over_channel(dc: u8, sc: u8, da: u8, sa: u8, a: int) -> int {
    (sc * sa * 255 + dc * da * (255 - sa)) / a
}

/// The source-over operator: `s` painted onto `d`.
pub open spec fn over(d: Color, s: Color) -> Color {
    let a = over_alpha(d, s);
    if a == 0 {
        transparent()
    } else {
        Color {
            r: over_channel(d.r, s.r, d.alpha, s.alpha, a) as u8,
            g: over_channel(d.g, s.g, d.alpha, s.alpha, a) as u8,
            b: over_channel(d.b, s.b, d.alpha, s.alpha, a) as u8,
            alpha: (a / 255) as u8,
        }
    }
}

proof fn lemma_channel_bound(dc: u8, sc: u8, da: u8, sa: u8)
    requires
        over_alpha(Color { r: 0, g: 0, b: 0, alpha: da }, Color { r: 0, g: 0, b: 0, alpha: sa }) > 0,
    ensures
        0 <= over_channel(
            dc,
            sc,
            da,
            sa,
            over_alpha(Color { r: 0, g: 0, b: 0, alpha: da }, Color { r: 0, g: 0, b: 0, alpha: sa }),
        ) <= 255,
{
    let a = sa * 255 + da * (255 - sa);
    let n = sc * sa * 255 + dc * da * (255 - sa);
    assert(0 <= n <= 255 * a) by (nonlinear_arith)
        requires
            a == sa * 255 + da * (255 - sa),
            n == sc * sa * 255 + dc * da * (255 - sa),
            0 <= sc <= 255,
            0 <= dc <= 255,
            0 <= sa <= 255,
            0 <= da <= 255,
    ;
    assert(0 <= n / a <= 255) by (nonlinear_arith)
        requires
            0 <= n <= 255 * a,
            a > 0,
    ;
}

/// `s` painted onto `d` with the source-over operator.
pub fn blend(dst: Color, src: Color) -> (c: Color)
    ensures
        c == over(dst, src),
{
    let sa = src.alpha as u32;
    let da = dst.alpha as u32;
    assert(0 <= sa * 255 + da * (255 - sa) <= 65025) by (nonlinear_arith)
        requires
            0 <= sa <= 255,
            0 <= da <= 255,
    ;
    let a = sa * 255 + da * (255 - sa);
    if a == 0 {
        return Color { r: 0, g: 0, b: 0, alpha: 0 };
    }
    proof {
        lemma_channel_bound(dst.r, src.r, dst.alpha, src.alpha);
        lemma_channel_bound(dst.g, src.g, dst.alpha, src.alpha);
        lemma_channel_bound(dst.b, src.b, dst.alpha, src.alpha);
        assert(src.r as u32 * sa <= 255 * 255 && src.r as u32 * sa * 255 <= 255 * 255 * 255) by (nonlinear_arith)
            requires
                src.r <= 255,
                sa <= 255,
        ;
        assert(dst.r as u32 * da <= 255 * 255 && dst.r as u32 * da * (255 - sa) <= 255 * 255
            * 255) by (nonlinear_arith)
            requires
                dst.r <= 255,
                da <= 255,
                sa <= 255,
        ;
        assert(src.g as u32 * sa <= 255 * 255 && src.g as u32 * sa * 255 <= 255 * 255 * 255) by (nonlinear_arith)
            requires
                src.g <= 255,
                sa <= 255,
        ;
        assert(dst.g as u32 * da <= 255 * 255 && dst.g as u32 * da * (255 - sa) <= 255 * 255
            * 255) by (nonlinear_arith)
            requires
                dst.g <= 255,
                da <= 255,
                sa <= 255,
        ;
        assert(src.b as u32 * sa <= 255 * 255 && src.b as u32 * sa * 255 <= 255 * 255 * 255) by (nonlinear_arith)
            requires
                src.b <= 255,
                sa <= 255,
        ;
        assert(dst.b as u32 * da <= 255 * 255 && dst.b as u32 * da * (255 - sa) <= 255 * 255
            * 255) by (nonlinear_arith)
            requires
                dst.b <= 255,
                da <= 255,
                sa <= 255,
        ;
    }
    let r = (src.r as u32 * sa * 255 + dst.r as u32 * da * (255 - sa)) / a;
    let g = (src.g as u32 * sa * 255 + dst.g as u32 * da * (255 - sa)) / a;
    let b = (src.b as u32 * sa * 255 + dst.b as u32 * da * (255 - sa)) / a;
    Color { r: r as u8, g: g as u8, b: b as u8, alpha: (a / 255) as u8 }
}

/// The color at `(x, y)` after painting the first `n` layers, bottom first,
/// onto `base`; hidden layers, and layers that do not reach the cell, are
/// skipped.
pub open spec fn stacked(layers: Seq<Layer>, n: int, x: int, y: int, base: Color) -> Color
    decreases n,
{
    if n <= 0 {
        base
    } else {
        let below = stacked(layers, n - 1, x, y, base);
        let l = layers[n - 1];
        if l.is_visible && l.canvas.in_bounds(x, y) {
            over(below, l.canvas.color_at(x, y))
        } else {
            below
        }
    }
}

/// Byte `k` (0 red, 1 green, 2 blue, 3 alpha) of a color.
pub open spec fn channel(c: Color, k: int) -> u8 {
    if k == 0 {
        c.r
    } else if k == 1 {
        c.g
    } else if k == 2 {
        c.b
    } else {
        c.alpha
    }
}

/// Colors as interleaved RGBA bytes.
pub open spec fn rgba_bytes(cs: Seq<Color>) -> Seq<u8> {
    Seq::new(4 * cs.len(), |i: int| channel(cs[i / 4], i % 4))
}

/// The flattened image of `layers`: the bottom layer's size, started from
/// its background color.
pub open spec fn composite(layers: Seq<Layer>) -> Seq<Color> {
    if layers.len() == 0 {
        Seq::empty()
    } else {
        let base = layers[0].canvas;
        let w = base.width as int;
        let h = base.height as int;
        Seq::new(
            (w * h) as nat,
            |i: int| stacked(layers, layers.len() as int, i % w, i / w, base.background_color),
        )
    }
}

/// Flattens the visible layers, bottom first, into RGBA bytes; returns them
/// with the width and height of the bottom layer.
pub fn composite_layers(layers: &[Layer]) -> (r: (Vec<u8>, u32, u32))
    requires
        forall|i: int| 0 <= i < layers@.len() ==> (#[trigger] layers@[i]).canvas.wf(),
        layers@.len() > 0 ==> 4 * layers@[0].canvas.width * layers@[0].canvas.height <= usize::MAX,
    ensures
        r.0@ == rgba_bytes(composite(layers@)),
        layers@.len() == 0 ==> r.1 == 0 && r.2 == 0,
        layers@.len() > 0 ==> r.1 == layers@[0].canvas.width && r.2 == layers@[0].canvas.height,
{
    if layers.len() == 0 {
        let out: Vec<u8> = Vec::new();
        assert(out@ =~= rgba_bytes(composite(layers@)));
        return (out, 0, 0);
    }
    let width = layers[0].canvas.width;
    let height = layers[0].canvas.height;
    let bg = layers[0].canvas.background_color;
    let base_len = layers[0].canvas.content.len();
    assert(4 * (width as int * height as int) == 4 * width * height) by (nonlinear_arith);
    let n: usize = (width as usize) * (height as usize);
    let ghost flat = composite(layers@);
    let mut out: Vec<u8> = Vec::with_capacity(4 * n);
    let mut i: usize = 0;
    while i < n
        invariant
            i <= n,
            n == width as int * height as int,
            4 * n <= usize::MAX,
            layers@.len() > 0,
            width == layers@[0].canvas.width,
            height == layers@[0].canvas.height,
            bg == layers@[0].canvas.background_color,
            flat == composite(layers@),
            flat.len() == n,
            forall|j: int| 0 <= j < layers@.len() ==> (#[trigger] layers@[j]).canvas.wf(),
            out@.len() == 4 * i,
            forall|j: int| 0 <= j < 4 * i ==> out@[j] == channel(flat[j / 4], j % 4),
        decreases n - i,
    {
        proof {
            assert(width > 0) by (nonlinear_arith)
                requires
                    i < n,
                    n == width as int * height as int,
            ;
            lemma_cell_of_index(i as int, width as int, height as int);
        }
        let x = (i % (width as usize)) as u32;
        let y = (i / (width as usize)) as u32;
        let mut c = bg;
        let mut k: usize = 0;
        while k < layers.len()
            invariant
                k <= layers@.len(),
                forall|j: int| 0 <= j < layers@.len() ==> (#[trigger] layers@[j]).canvas.wf(),
                c == stacked(layers@, k as int, x as int, y as int, bg),
            decreases layers@.len() - k,
        {
            let layer = &layers[k];
            if layer.is_visible && x < layer.canvas.width && y < layer.canvas.height {
                proof {
                    lemma_cell_in_bounds(
                        x as int,
                        y as int,
                        layer.canvas.width as int,
                        layer.canvas.height as int,
                    );
                }
                let len = layer.canvas.content.len();
                let idx = (y as usize) * (layer.canvas.width as usize) + (x as usize);
                c = blend(c, layer.canvas.content[idx]);
            }
            k = k + 1;
        }
        out.push(c.r);
        out.push(c.g);
        out.push(c.b);
        out.push(c.alpha);
        proof {
            assert forall|j: int| 0 <= j < 4 * (i + 1) implies out@[j] == channel(flat[j / 4], j % 4) by {
                if j >= 4 * i {
                    assert(j / 4 == i as int);
                }
            }
        }
        i = i + 1;
    }
    assert(out@ =~= rgba_bytes(flat));
    (out, width, height)
}


proof fn lemma_over_opaque(d: Color, s: Color)
    requires
        s.alpha == 255,
    ensures
        over(d, s) == s,
{
    let a = over_alpha(d, s);
    assert(a == 65025) by (nonlinear_arith)
        requires
            a == s.alpha * 255 + d.alpha * (255 - s.alpha),
            s.alpha == 255,
    ;
    assert(over_channel(d.r, s.r, d.alpha, s.alpha, a) == s.r) by (nonlinear_arith)
        requires
            a == 65025,
            s.alpha == 255,
            over_channel(d.r, s.r, d.alpha, s.alpha, a) == (s.r * s.alpha * 255 + d.r * d.alpha * (255
                - s.alpha)) / a,
    ;
    assert(over_channel(d.g, s.g, d.alpha, s.alpha, a) == s.g) by (nonlinear_arith)
        requires
            a == 65025,
            s.alpha == 255,
            over_channel(d.g, s.g, d.alpha, s.alpha, a) == (s.g * s.alpha * 255 + d.g * d.alpha * (255
                - s.alpha)) / a,
    ;
    assert(over_channel(d.b, s.b, d.alpha, s.alpha, a) == s.b) by (nonlinear_arith)
        requires
            a == 65025,
            s.alpha == 255,
            over_channel(d.b, s.b, d.alpha, s.alpha, a) == (s.b * s.alpha * 255 + d.b * d.alpha * (255
                - s.alpha)) / a,
    ;
}

proof fn lemma_stacked_one_visible(layers: Seq<Layer>, k: int, n: int, x: int, y: int, base: Color)
    requires
        0 <= k < layers.len(),
        0 <= n <= layers.len(),
        forall|j: int| 0 <= j < layers.len() && j != k ==> !(#[trigger] layers[j]).is_visible,
    ensures
        stacked(layers, n, x, y, base) == if n <= k {
            base
        } else {
            stacked(seq![layers[k]], 1, x, y, base)
        },
    decreases n,
{
    if n > 0 {
        lemma_stacked_one_visible(layers, k, n - 1, x, y, base);
        assert(stacked(seq![layers[k]], 0, x, y, base) == base);
    }
}

/// Hidden layers add nothing: where every layer but one is hidden, the
/// stack flattens exactly as that layer alone does, provided the bottom
/// layer (which fixes the image's size and starting color) has that
/// layer's size and background.
pub proof fn lemma_hidden_layers_vanish(layers: Seq<Layer>, k: int)
    requires
        0 <= k < layers.len(),
        forall|j: int| 0 <= j < layers.len() && j != k ==> !(#[trigger] layers[j]).is_visible,
        layers[0].canvas.width == layers[k].canvas.width,
        layers[0].canvas.height == layers[k].canvas.height,
        layers[0].canvas.background_color == layers[k].canvas.background_color,
    ensures
        composite(layers) == composite(seq![layers[k]]),
{
    let one = seq![layers[k]];
    let base = layers[0].canvas;
    let w = base.width as int;
    assert forall|i: int| 0 <= i < composite(layers).len() implies composite(layers)[i] == composite(
        one,
    )[i] by {
        lemma_stacked_one_visible(layers, k, layers.len() as int, i % w, i / w, base.background_color);
    }
    assert(composite(layers) =~= composite(one));
}

/// An opaque top layer hides all beneath it: where the top layer is
/// visible, has the bottom layer's size and every cell fully opaque, the
/// flattened image is that layer's own pixels.
pub proof fn lemma_opaque_top_layer(layers: Seq<Layer>)
    requires
        layers.len() > 0,
        layers.last().is_visible,
        layers.last().canvas.wf(),
        layers.last().canvas.width == layers[0].canvas.width,
        layers.last().canvas.height == layers[0].canvas.height,
        forall|i: int|
            0 <= i < layers.last().canvas.content@.len() ==> (
            #[trigger] layers.last().canvas.content@[i]).alpha == 255,
    ensures
        composite(layers) == layers.last().canvas.content@,
        rgba_bytes(composite(layers)) == rgba_bytes(layers.last().canvas.content@),
{
    let top = layers.last().canvas;
    let w = top.width as int;
    let h = top.height as int;
    let n = layers.len() as int;
    assert forall|i: int| 0 <= i < w * h implies composite(layers)[i] == top.content@[i] by {
        lemma_cell_of_index(i, w, h);
        let below = stacked(layers, n - 1, i % w, i / w, layers[0].canvas.background_color);
        lemma_over_opaque(below, top.content@[i]);
    }
    assert(composite(layers) =~= top.content@);
}

} // verus!
