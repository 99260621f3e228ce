use vstd::prelude::*;
use vstd::arithmetic::div_mod::lemma_fundamental_div_mod_converse;

verus! {

pub open spec fn abs(v: int) -> int {
    if v < 0 {
        -v
    } else {
        v
    }
}

pub open spec fn step_toward(from: int, to: int) -> int {
    if from < to {
        1
    } else {
        -1
    }
}

/// Minor-axis offset at step `i` of a line that advances `major` cells on
/// one axis and `minor` on the other: `i * minor / major`, rounded to the
/// nearest integer (halves away from the start).
pub open spec fn line_offset(i: int, major: int, minor: int) -> int {
    if major == 0 {
        0
    } else {
        (2 * i * minor + major) / (2 * major)
    }
}

/// Number of cells of the rasterized segment.
pub open spec fn line_len(x0: int, y0: int, x1: int, y1: int) -> int {
    if abs(x1 - x0) >= abs(y1 - y0) {
        abs(x1 - x0) + 1
    } else {
        abs(y1 - y0) + 1
    }
}

/// Cell `i` of the rasterized segment from `(x0, y0)` to `(x1, y1)`: one
/// step along the longer axis per cell, the other coordinate rounded to the
/// exact line.
pub open spec fn line_point(x0: int, y0: int, x1: int, y1: int, i: int) -> (int, int) {
    let a = abs(x1 - x0);
    let b = abs(y1 - y0);
    if a >= b {
        (x0 + step_toward(x0, x1) * i, y0 + step_toward(y0, y1) * line_offset(i, a, b))
    } else {
        (x0 + step_toward(x0, x1) * line_offset(i, b, a), y0 + step_toward(y0, y1) * i)
    }
}

proof fn lemma_offset_end(major: int, minor: int)
    requires
        0 <= minor <= major,
    ensures
        line_offset(major, major, minor) == minor,
        line_offset(0, major, minor) == 0,
{
    if major > 0 {
        lemma_fundamental_div_mod_converse(2 * major * minor + major, 2 * major, minor, major);
        lemma_fundamental_div_mod_converse(major, 2 * major, 0, major);
        assert(2 * 0 * minor == 0) by (nonlinear_arith);
        assert(2 * major * minor + major == minor * (2 * major) + major) by (nonlinear_arith);
    }
}

proof fn lemma_offset_in_range(i: int, major: int, minor: int)
    requires
        0 <= minor <= major,
        0 <= i <= major,
    ensures
        0 <= line_offset(i, major, minor) <= minor,
{
    if major > 0 {
        assert(0 <= (2 * i * minor + major) / (2 * major) <= minor) by (nonlinear_arith)
            requires
                0 <= minor <= major,
                0 <= i <= major,
                major > 0,
        ;
    }
}

/// The cells of the segment from `(x0, y0)` to `(x1, y1)`, both ends
/// included, by Bresenham's integer stepping: consecutive cells touch, so a
/// fast stroke leaves no gaps.
pub fn draw_line(x0: i32, y0: i32, x1: i32, y1: i32) -> (r: Vec<(i32, i32)>)
    ensures
        r@.len() == line_len(x0 as int, y0 as int, x1 as int, y1 as int),
        forall|i: int|
            0 <= i < r@.len() ==> (#[trigger] r@[i]).0 as int == line_point(
                x0 as int,
                y0 as int,
                x1 as int,
                y1 as int,
                i,
            ).0 && r@[i].1 as int == line_point(x0 as int, y0 as int, x1 as int, y1 as int, i).1,
        r@[0] == (x0, y0),
        r@.last() == (x1, y1),
        r@ == line_seq32(x0 as int, y0 as int, x1 as int, y1 as int),
{
    let dx: i64 = x1 as i64 - x0 as i64;
    let dy: i64 = y1 as i64 - y0 as i64;
    let a: i64 = if dx < 0 {
        -dx
    } else {
        dx
    };
    let b: i64 = if dy < 0 {
        -dy
    } else {
        dy
    };
    let sx: i64 = if x0 < x1 {
        1
    } else {
        -1
    };
    let sy: i64 = if y0 < y1 {
        1
    } else {
        -1
    };
    let x_major = a >= b;
    let major: i64 = if x_major {
        a
    } else {
        b
    };
    let minor: i64 = if x_major {
        b
    } else {
        a
    };
    let ghost gx0 = x0 as int;
    let ghost gy0 = y0 as int;
    let ghost gx1 = x1 as int;
    let ghost gy1 = y1 as int;
    let mut points: Vec<(i32, i32)> = Vec::new();
    // `err` is `2 * i * minor + major - 2 * major * off`, kept in `[0, 2 * major)`.
    let mut i: i64 = 0;
    let mut off: i64 = 0;
    let mut err: i64 = major;
    proof {
        lemma_offset_end(major as int, minor as int);
    }
    while i <= major
        invariant
            0 <= i <= major + 1,
            gx0 == x0,
            gy0 == y0,
            gx1 == x1,
            gy1 == y1,
            0 <= minor <= major,
            major <= 0xffff_ffff,
            a == abs(gx1 - gx0),
            b == abs(gy1 - gy0),
            sx == step_toward(gx0, gx1),
            sy == step_toward(gy0, gy1),
            x_major == (a >= b),
            major == if x_major { a } else { b },
            minor == if x_major { b } else { a },
            points@.len() == i,
            major == 0 || (0 <= err < 2 * major && 2 * i * minor + major == 2 * major * off + err),
            major == 0 ==> off == 0,
            off == line_offset(i as int, major as int, minor as int),
            forall|j: int|
                0 <= j < i ==> (#[trigger] points@[j]).0 as int == line_point(gx0, gy0, gx1, gy1, j).0
                    && points@[j].1 as int == line_point(gx0, gy0, gx1, gy1, j).1,
        decreases major + 1 - i,
    {
        proof {
            lemma_offset_in_range(i as int, major as int, minor as int);
        }
        let (px, py) = if x_major {
            (x0 as i64 + sx * i, y0 as i64 + sy * off)
        } else {
            (x0 as i64 + sx * off, y0 as i64 + sy * i)
        };
        proof {
            assert(line_point(gx0, gy0, gx1, gy1, i as int) == (px as int, py as int));
            assert(i32::MIN <= px <= i32::MAX && i32::MIN <= py <= i32::MAX) by (nonlinear_arith)
                requires
                    x_major ==> px == x0 + sx * i && py == y0 + sy * off,
                    !x_major ==> px == x0 + sx * off && py == y0 + sy * i,
                    0 <= i <= major,
                    0 <= off <= minor,
                    sx == step_toward(gx0, gx1),
                    sy == step_toward(gy0, gy1),
                    a == abs(gx1 - gx0),
                    b == abs(gy1 - gy0),
                    major == if x_major { a } else { b },
                    minor == if x_major { b } else { a },
                    gx0 == x0,
                    gy0 == y0,
                    gx1 == x1,
                    gy1 == y1,
            ;
        }
        points.push((px as i32, py as i32));
        let ghost old_i = i;
        let ghost old_off = off;
        let ghost old_err = err;
        i = i + 1;
        err = err + 2 * minor;
        if major > 0 && err >= 2 * major {
            off = off + 1;
            err = err - 2 * major;
        }
        proof {
            if major > 0 {
            assert(2 * i * minor + major == 2 * major * off + err) by (nonlinear_arith)
                requires
                    2 * old_i * minor + major == 2 * major * old_off + old_err,
                    i == old_i + 1,
                    (err == old_err + 2 * minor && off == old_off) || (err == old_err + 2 * minor - 2
                        * major && off == old_off + 1),
            ;
            lemma_fundamental_div_mod_converse(
                2 * i * minor + major,
                2 * major,
                off as int,
                err as int,
            );
            assert(2 * major * off == off * (2 * major)) by (nonlinear_arith);
            }
        }
    }
    assert(points@ =~= line_seq32(gx0, gy0, gx1, gy1));
    points
}

/// The rasterized segment as a sequence of `i32` cells.
pub open spec fn line_seq32(x0: int, y0: int, x1: int, y1: int) -> Seq<(i32, i32)> {
    Seq::new(
        line_len(x0, y0, x1, y1) as nat,
        |i: int| (line_point(x0, y0, x1, y1, i).0 as i32, line_point(x0, y0, x1, y1, i).1 as i32),
    )
}


/// The rasterized segment as a sequence of cells.
pub open spec fn line_seq(x0: int, y0: int, x1: int, y1: int) -> Seq<(i64, i64)> {
    Seq::new(
        line_len(x0, y0, x1, y1) as nat,
        |i: int| (line_point(x0, y0, x1, y1, i).0 as i64, line_point(x0, y0, x1, y1, i).1 as i64),
    )
}

/// The cells of `draw_line`, widened to `i64`.
pub fn line_cells(x0: i32, y0: i32, x1: i32, y1: i32) -> (r: Vec<(i64, i64)>)
    ensures
        r@ == line_seq(x0 as int, y0 as int, x1 as int, y1 as int),
{
    let pts = draw_line(x0, y0, x1, y1);
    let mut out: Vec<(i64, i64)> = Vec::with_capacity(pts.len());
    let mut k: usize = 0;
    while k < pts.len()
        invariant
            k <= pts@.len(),
            pts@.len() == line_len(x0 as int, y0 as int, x1 as int, y1 as int),
            out@ == line_seq(x0 as int, y0 as int, x1 as int, y1 as int).subrange(0, k as int),
            forall|i: int|
                0 <= i < pts@.len() ==> (#[trigger] pts@[i]).0 as int == line_point(
                    x0 as int,
                    y0 as int,
                    x1 as int,
                    y1 as int,
                    i,
                ).0 && pts@[i].1 as int == line_point(x0 as int, y0 as int, x1 as int, y1 as int, i).1,
        decreases pts@.len() - k,
    {
        let (px, py) = pts[k];
        out.push((px as i64, py as i64));
        k = k + 1;
        assert(out@ =~= line_seq(x0 as int, y0 as int, x1 as int, y1 as int).subrange(0, k as int));
    }
    assert(out@ =~= line_seq(x0 as int, y0 as int, x1 as int, y1 as int));
    out
}

} // verus!
