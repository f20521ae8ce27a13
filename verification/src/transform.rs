use vstd::prelude::*;

verus! {

/// Fixed-point denominator of the zoom factor: a zoom of `ZOOM_UNIT`
/// thousandths draws one image pixel per screen pixel.
pub const ZOOM_UNIT: i64 = 1000;

/// Smallest zoom, in thousandths: the small positive floor that keeps the
/// transform away from a singular (zero) scale.
pub const ZOOM_MIN: i64 = 10;

/// Largest zoom, in thousandths (a thousandfold magnification). The zoom
/// has no policy ceiling, only a small positive floor; this cap is a
/// machine limit that keeps the anchored-zoom products inside `i64`.
pub const ZOOM_MAX: i64 = 1000000;

/// Largest magnitude of a pan offset, in screen pixels.
pub const OFFSET_LIMIT: i64 = 0x100_0000_0000;

/// Largest magnitude of a screen coordinate, a drawing-area extent or a
/// drag delta the transform accepts per event.
pub const COORD_LIMIT: i64 = 0x100_0000;

/// Largest magnitude of one wheel-scroll delta.
pub const SCROLL_LIMIT: i64 = 10000;

/// `v` clamped into `[lo, hi]`.
pub open spec fn clamp_spec(v: int, lo: int, hi: int) -> int {
    if v < lo {
        lo
    } else if v > hi {
        hi
    } else {
        v
    }
}

/// Division that truncates toward zero, as the viewport arithmetic uses it.
pub open spec fn div_trunc(a: int, b: int) -> int {
    if a >= 0 {
        a / b
    } else {
        -((-a) / b)
    }
}

/// The zoom factor and pan offset mapping image space to screen space:
/// a point at image coordinate `p` is drawn at screen coordinate
/// `p * zoom_milli / ZOOM_UNIT + offset`.
pub struct ViewportTransform {
    /// Zoom factor in thousandths.
    pub zoom_milli: i64,
    /// Horizontal pan offset in screen pixels.
    pub offset_x: i64,
    /// Vertical pan offset in screen pixels.
    pub offset_y: i64,
}

/// Truncating division of `a` by a positive `b`, on magnitudes small enough
/// that the intermediate negation cannot overflow.
fn div_trunc_exec(a: i64, b: i64) -> (q: i64)
    requires
        b > 0,
        -0x4000_0000_0000_0000 < a < 0x4000_0000_0000_0000,
    ensures
        q == div_trunc(a as int, b as int),
        a >= 0 ==> 0 <= q <= a,
        a < 0 ==> a <= q <= 0,
{
    proof {
        if a >= 0 {
            vstd::arithmetic::div_mod::lemma_div_pos_is_pos(a as int, b as int);
            vstd::arithmetic::div_mod::lemma_div_is_ordered(a as int, a as int, b as int);
            vstd::arithmetic::div_mod::lemma_div_by_multiple(0, b as int);
            vstd::arithmetic::div_mod::lemma_div_is_ordered_by_denominator(a as int, 1, b as int);
        } else {
            vstd::arithmetic::div_mod::lemma_div_pos_is_pos(-(a as int), b as int);
            vstd::arithmetic::div_mod::lemma_div_is_ordered_by_denominator(
                -(a as int),
                1,
                b as int,
            );
        }
    }
    if a >= 0 {
        a / b
    } else {
        -((-a) / b)
    }
}

/// `v` clamped into `[lo, hi]`.
fn clamp_exec(v: i64, lo: i64, hi: i64) -> (r: i64)
    requires
        lo <= hi,
    ensures
        r == clamp_spec(v as int, lo as int, hi as int),
        lo <= r <= hi,
{
    if v < lo {
        lo
    } else if v > hi {
        hi
    } else {
        v
    }
}

impl ViewportTransform {
    /// The zoom stays within its floor and ceiling and the offsets stay
    /// bounded.
    pub open spec fn wf(&self) -> bool {
        &&& ZOOM_MIN <= self.zoom_milli <= ZOOM_MAX
        &&& -OFFSET_LIMIT <= self.offset_x <= OFFSET_LIMIT
        &&& -OFFSET_LIMIT <= self.offset_y <= OFFSET_LIMIT
    }

    /// The zoom the fit computation derives: the largest scale at which the
    /// whole image fits the available area, aspect ratio preserved, clamped
    /// into the zoom bounds.
    pub open spec fn spec_fit_zoom(avail_w: int, avail_h: int, img_w: int, img_h: int) -> int {
        clamp_spec(
            vstd::math::min(avail_w * ZOOM_UNIT / img_w, avail_h * ZOOM_UNIT / img_h),
            ZOOM_MIN as int,
            ZOOM_MAX as int,
        )
    }

    /// The identity view: one image pixel per screen pixel, no pan.
    pub fn identity() -> (t: ViewportTransform)
        ensures
            t.wf(),
            t.zoom_milli == ZOOM_UNIT,
            t.offset_x == 0,
            t.offset_y == 0,
    {
        ViewportTransform { zoom_milli: ZOOM_UNIT, offset_x: 0, offset_y: 0 }
    }

    /// Recompute the transform for fit-to-screen display: scale the image to
    /// the largest size that fits the available drawing area while keeping
    /// its aspect ratio, and center it.
    pub fn fit(avail_w: i64, avail_h: i64, img_w: i64, img_h: i64) -> (t: ViewportTransform)
        requires
            0 <= avail_w <= COORD_LIMIT,
            0 <= avail_h <= COORD_LIMIT,
            0 < img_w <= COORD_LIMIT,
            0 < img_h <= COORD_LIMIT,
        ensures
            t.wf(),
            t.zoom_milli == Self::spec_fit_zoom(
                avail_w as int,
                avail_h as int,
                img_w as int,
                img_h as int,
            ),
            t.offset_x as int == div_trunc(
                avail_w as int - img_w as int * t.zoom_milli as int / (ZOOM_UNIT as int),
                2,
            ),
            t.offset_y as int == div_trunc(
                avail_h as int - img_h as int * t.zoom_milli as int / (ZOOM_UNIT as int),
                2,
            ),
    {
        let zw = (avail_w * ZOOM_UNIT) / img_w;
        let zh = (avail_h * ZOOM_UNIT) / img_h;
        let z = if zw <= zh {
            zw
        } else {
            zh
        };
        proof {
            vstd::arithmetic::div_mod::lemma_div_pos_is_pos(avail_w as int * ZOOM_UNIT, img_w as int);
            vstd::arithmetic::div_mod::lemma_div_pos_is_pos(avail_h as int * ZOOM_UNIT, img_h as int);
            vstd::arithmetic::div_mod::lemma_div_is_ordered_by_denominator(
                avail_w as int * ZOOM_UNIT,
                1,
                img_w as int,
            );
            vstd::arithmetic::div_mod::lemma_div_is_ordered_by_denominator(
                avail_h as int * ZOOM_UNIT,
                1,
                img_h as int,
            );
        }
        let zoom = clamp_exec(z, ZOOM_MIN, ZOOM_MAX);
        proof {
            assert(0 < img_w * zoom <= 0x100_0000i64 * 1000000 && 0 < img_h * zoom <= 0x100_0000i64
                * 1000000) by (nonlinear_arith)
                requires
                    0 < img_w <= 0x100_0000i64,
                    0 < img_h <= 0x100_0000i64,
                    10 <= zoom <= 1000000,
            ;
        }
        let fit_w = (img_w * zoom) / ZOOM_UNIT;
        let fit_h = (img_h * zoom) / ZOOM_UNIT;
        proof {
            vstd::arithmetic::div_mod::lemma_div_pos_is_pos(img_w as int * zoom, ZOOM_UNIT as int);
            vstd::arithmetic::div_mod::lemma_div_pos_is_pos(img_h as int * zoom, ZOOM_UNIT as int);
            vstd::arithmetic::div_mod::lemma_div_is_ordered_by_denominator(
                img_w as int * zoom,
                1,
                ZOOM_UNIT as int,
            );
            vstd::arithmetic::div_mod::lemma_div_is_ordered_by_denominator(
                img_h as int * zoom,
                1,
                ZOOM_UNIT as int,
            );
        }
        let off_x = div_trunc_exec(avail_w - fit_w, 2);
        let off_y = div_trunc_exec(avail_h - fit_h, 2);
        ViewportTransform { zoom_milli: zoom, offset_x: off_x, offset_y: off_y }
    }

    /// Pan by a drag delta, clamping the offsets into bounds.
    pub fn drag(&mut self, dx: i64, dy: i64)
        requires
            old(self).wf(),
            -COORD_LIMIT <= dx <= COORD_LIMIT,
            -COORD_LIMIT <= dy <= COORD_LIMIT,
        ensures
            final(self).wf(),
            final(self).zoom_milli == old(self).zoom_milli,
            final(self).offset_x == clamp_spec(
                old(self).offset_x + dx,
                -OFFSET_LIMIT as int,
                OFFSET_LIMIT as int,
            ),
            final(self).offset_y == clamp_spec(
                old(self).offset_y + dy,
                -OFFSET_LIMIT as int,
                OFFSET_LIMIT as int,
            ),
    {
        self.offset_x = clamp_exec(self.offset_x + dx, -OFFSET_LIMIT, OFFSET_LIMIT);
        self.offset_y = clamp_exec(self.offset_y + dy, -OFFSET_LIMIT, OFFSET_LIMIT);
    }

    /// The zoom that one wheel step of `scroll` produces: the zoom changes
    /// by `scroll / 200` of itself (a geometric step), clamped into bounds.
    pub open spec fn spec_scroll_zoom(zoom: int, scroll: int) -> int {
        clamp_spec(
            zoom + div_trunc(scroll * zoom, 200),
            ZOOM_MIN as int,
            ZOOM_MAX as int,
        )
    }

    /// Zoom anchored at the pointer: the zoom takes a geometric step, and
    /// the offset moves so that the image point under the pointer stays
    /// under it (up to the truncation of the fixed-point arithmetic).
    pub fn scroll_zoom(&mut self, pointer_x: i64, pointer_y: i64, scroll: i64)
        requires
            old(self).wf(),
            -COORD_LIMIT <= pointer_x <= COORD_LIMIT,
            -COORD_LIMIT <= pointer_y <= COORD_LIMIT,
            -SCROLL_LIMIT <= scroll <= SCROLL_LIMIT,
            scroll != 0,
        ensures
            final(self).wf(),
            final(self).zoom_milli == Self::spec_scroll_zoom(
                old(self).zoom_milli as int,
                scroll as int,
            ),
            final(self).offset_x == clamp_spec(
                old(self).offset_x - div_trunc(
                    (pointer_x - old(self).offset_x) * (final(self).zoom_milli
                        - old(self).zoom_milli),
                    old(self).zoom_milli as int,
                ),
                -OFFSET_LIMIT as int,
                OFFSET_LIMIT as int,
            ),
            final(self).offset_y == clamp_spec(
                old(self).offset_y - div_trunc(
                    (pointer_y - old(self).offset_y) * (final(self).zoom_milli
                        - old(self).zoom_milli),
                    old(self).zoom_milli as int,
                ),
                -OFFSET_LIMIT as int,
                OFFSET_LIMIT as int,
            ),
    {
        let zoom = self.zoom_milli;
        proof {
            assert(-10000i64 * 1000000 <= scroll * zoom <= 10000i64 * 1000000) by (nonlinear_arith)
                requires
                    -10000 <= scroll <= 10000,
                    10 <= zoom <= 1000000,
            ;
        }
        let delta = div_trunc_exec(scroll * zoom, 200);
        let new_zoom = clamp_exec(zoom + delta, ZOOM_MIN, ZOOM_MAX);
        let px = pointer_x - self.offset_x;
        let py = pointer_y - self.offset_y;
        let dz = new_zoom - zoom;
        proof {
            assert(-0x200_0000_0000i64 * 1000000 <= px * dz <= 0x200_0000_0000i64 * 1000000
                && -0x200_0000_0000i64 * 1000000 <= py * dz <= 0x200_0000_0000i64 * 1000000)
                by (nonlinear_arith)
                requires
                    -0x200_0000_0000i64 <= px <= 0x200_0000_0000i64,
                    -1000000 <= dz <= 1000000,
                    -0x200_0000_0000i64 <= py <= 0x200_0000_0000i64,
            ;
        }
        let shift_x = div_trunc_exec(px * dz, zoom);
        let shift_y = div_trunc_exec(py * dz, zoom);
        self.offset_x = clamp_exec(self.offset_x - shift_x, -OFFSET_LIMIT, OFFSET_LIMIT);
        self.offset_y = clamp_exec(self.offset_y - shift_y, -OFFSET_LIMIT, OFFSET_LIMIT);
        self.zoom_milli = new_zoom;
    }
}

} // verus!
