use vstd::prelude::*;
use vstd::arithmetic::div_mod::lemma_fundamental_div_mod_converse;

verus! {

/// Smallest zoom, in percent.
pub const MIN_ZOOM_PERCENT: u32 = 5;

/// Largest zoom, in percent.
pub const MAX_ZOOM_PERCENT: u32 = 3200;

/// How far one zoom step moves, in percentage points.
pub const ZOOM_STEP_PERCENT: u32 = 10;

/// `v` limited to the range of `i32`.
pub open spec fn clamp_i32(v: int) -> i32 {
    if v < i32::MIN {
        i32::MIN
    } else if v > i32::MAX {
        i32::MAX
    } else {
        v as i32
    }
}

/// `p` limited to the zoom range.
pub open spec fn clamp_zoom(p: int) -> u32 {
    if p < MIN_ZOOM_PERCENT {
        MIN_ZOOM_PERCENT
    } else if p > MAX_ZOOM_PERCENT {
        MAX_ZOOM_PERCENT
    } else {
        p as u32
    }
}

/// The canvas coordinate under a screen coordinate: the offset from the
/// surface's origin and the pan, divided by the zoom and rounded down.
pub open spec fn canvas_coord(client: int, origin: int, pan: int, zoom_percent: int) -> i32 {
    clamp_i32(((client - origin - pan) * 100) / zoom_percent)
}

/// `n / d` rounded toward negative infinity.
fn floor_div(n: i64, d: i64) -> (q: i64)
    requires
        d > 0,
    ensures
        q == n as int / d as int,
{
    if n >= 0 {
        n / d
    } else {
        let m = (-(n + 1)) / d;
        proof {
            let r = (-(n + 1)) % d as int;
            vstd::arithmetic::div_mod::lemma_fundamental_div_mod(-(n + 1), d as int);
            vstd::arithmetic::div_mod::lemma_mod_pos_bound(-(n + 1), d as int);
            assert(n == (-m - 1) * d + (d - 1 - r)) by (nonlinear_arith)
                requires
                    -(n + 1) == d * m + r,
            ;
            lemma_fundamental_div_mod_converse(n as int, d as int, -m - 1, d - 1 - r);
        }
        -m - 1
    }
}

fn clamp_to_i32(v: i64) -> (r: i32)
    ensures
        r == clamp_i32(v as int),
{
    if v < i32::MIN as i64 {
        i32::MIN
    } else if v > i32::MAX as i64 {
        i32::MAX
    } else {
        v as i32
    }
}

/// Maps a screen position to the canvas cell under it, for a drawing
/// surface whose top-left corner is at `(origin_x, origin_y)`.
pub fn screen_to_canvas(
    client_x: i32,
    client_y: i32,
    origin_x: i32,
    origin_y: i32,
    zoom_percent: u32,
    pan_x: i32,
    pan_y: i32,
) -> (r: (i32, i32))
    requires
        zoom_percent > 0,
    ensures
        r.0 == canvas_coord(client_x as int, origin_x as int, pan_x as int, zoom_percent as int),
        r.1 == canvas_coord(client_y as int, origin_y as int, pan_y as int, zoom_percent as int),
{
    let nx = (client_x as i64 - origin_x as i64 - pan_x as i64) * 100;
    let ny = (client_y as i64 - origin_y as i64 - pan_y as i64) * 100;
    let x = floor_div(nx, zoom_percent as i64);
    let y = floor_div(ny, zoom_percent as i64);
    (clamp_to_i32(x), clamp_to_i32(y))
}

/// Zoom and pan of the view onto a project, and whether it was centered yet.
pub struct ProjectViewState {
    pub zoom_percent: u32,
    pub pan_x: i32,
    pub pan_y: i32,
    pub did_center_view: bool,
}

impl ProjectViewState {
    pub open spec fn wf(&self) -> bool {
        MIN_ZOOM_PERCENT <= self.zoom_percent <= MAX_ZOOM_PERCENT
    }

    /// Unzoomed, unpanned, not yet centered.
    pub fn new() -> (v: Self)
        ensures
            v.wf(),
            v == (ProjectViewState { zoom_percent: 100, pan_x: 0, pan_y: 0, did_center_view: false }),
    {
        ProjectViewState { zoom_percent: 100, pan_x: 0, pan_y: 0, did_center_view: false }
    }

    /// The first time only, pans so that a project of the given size sits
    /// in the middle of the viewport, and returns that pan.
    pub fn ensure_centered_once(
        &mut self,
        viewport_w: i32,
        viewport_h: i32,
        project_w: u32,
        project_h: u32,
    ) -> (r: Option<(i32, i32)>)
        requires
            old(self).wf(),
        ensures
            final(self).wf(),
            old(self).did_center_view ==> r.is_none() && *final(self) == *old(self),
            !old(self).did_center_view ==> {
                let px = clamp_i32(
                    (viewport_w * 100 - project_w * old(self).zoom_percent) / 200,
                );
                let py = clamp_i32(
                    (viewport_h * 100 - project_h * old(self).zoom_percent) / 200,
                );
                &&& r == Some((px, py))
                &&& *final(self) == (ProjectViewState {
                    zoom_percent: old(self).zoom_percent,
                    pan_x: px,
                    pan_y: py,
                    did_center_view: true,
                })
            },
    {
        if self.did_center_view {
            return None;
        }
        assert(project_w * self.zoom_percent <= 0xffff_ffff * 3200) by (nonlinear_arith)
            requires
                project_w <= 0xffff_ffff,
                self.zoom_percent <= 3200,
        ;
        assert(project_h * self.zoom_percent <= 0xffff_ffff * 3200) by (nonlinear_arith)
            requires
                project_h <= 0xffff_ffff,
                self.zoom_percent <= 3200,
        ;
        let zoom = self.zoom_percent as i64;
        let px = clamp_to_i32(floor_div(viewport_w as i64 * 100 - project_w as i64 * zoom, 200));
        let py = clamp_to_i32(floor_div(viewport_h as i64 * 100 - project_h as i64 * zoom, 200));
        self.pan_x = px;
        self.pan_y = py;
        self.did_center_view = true;
        Some((px, py))
    }

    /// Moves the view by a screen-space delta, saturating at the `i32` range.
    pub fn pan_by(&mut self, dx: i32, dy: i32)
        ensures
            final(self).zoom_percent == old(self).zoom_percent,
            final(self).did_center_view == old(self).did_center_view,
            final(self).pan_x == clamp_i32(old(self).pan_x + dx),
            final(self).pan_y == clamp_i32(old(self).pan_y + dy),
    {
        self.pan_x = clamp_to_i32(self.pan_x as i64 + dx as i64);
        self.pan_y = clamp_to_i32(self.pan_y as i64 + dy as i64);
    }

    /// Sets the zoom, limited to the allowed range.
    pub fn set_zoom_percent(&mut self, percent: i64)
        ensures
            final(self).wf(),
            *final(self) == (ProjectViewState { zoom_percent: clamp_zoom(percent as int), ..*old(self) }),
    {
        self.zoom_percent = if percent < MIN_ZOOM_PERCENT as i64 {
            MIN_ZOOM_PERCENT
        } else if percent > MAX_ZOOM_PERCENT as i64 {
            MAX_ZOOM_PERCENT
        } else {
            percent as u32
        };
    }

    pub fn reset_zoom_to_100(&mut self)
        ensures
            final(self).wf(),
            *final(self) == (ProjectViewState { zoom_percent: 100, ..*old(self) }),
    {
        self.set_zoom_percent(100);
    }

    /// One step closer, up to the largest zoom.
    pub fn zoom_in_by_step(&mut self)
        ensures
            final(self).wf(),
            *final(self) == (ProjectViewState {
                zoom_percent: clamp_zoom(old(self).zoom_percent + ZOOM_STEP_PERCENT),
                ..*old(self)
            }),
    {
        let next = self.zoom_percent as i64 + ZOOM_STEP_PERCENT as i64;
        self.set_zoom_percent(next);
    }

    /// One step farther, down to the smallest zoom.
    pub fn zoom_out_by_step(&mut self)
        ensures
            final(self).wf(),
            *final(self) == (ProjectViewState {
                zoom_percent: clamp_zoom(old(self).zoom_percent - ZOOM_STEP_PERCENT),
                ..*old(self)
            }),
    {
        let next = self.zoom_percent as i64 - ZOOM_STEP_PERCENT as i64;
        self.set_zoom_percent(next);
    }

    pub fn zoom_percent(&self) -> (r: u32)
        ensures
            r == self.zoom_percent,
    {
        self.zoom_percent
    }
}

} // verus!
