//! The window of the complex plane that is being displayed.
//!
//! Pan operations scale the window of one axis asymmetrically around its
//! center, 0.9 on the approaching edge and 1.1 on the receding one; zooms
//! scale both axes symmetrically. An operation whose result would be
//! degenerate or would leave the supported coordinate range leaves the
//! viewport unchanged, so a well-formed viewport stays well-formed.

use crate::fixed::{lemma_mul_mag, lemma_tdiv_mag, tdiv, COORD_LIMIT};
use vstd::arithmetic::div_mod::{lemma_div_multiples_vanish, lemma_div_nonincreasing,
    lemma_div_pos_is_pos};
use vstd::math::abs;
use vstd::prelude::*;

verus! {

/// A rectangle of the complex plane, in fixed-point coordinates. The
/// vertical axis grows downward, matching terminal rows.
#[derive(Clone, Copy, PartialEq, Eq, Structural, Debug)]
pub struct Viewport {
    pub top: i64,
    pub bottom: i64,
    pub left: i64,
    pub right: i64,
}

/// Whether a coordinate lies in the supported range.
pub open spec fn coord_ok(c: int) -> bool {
    -(COORD_LIMIT as int) <= c <= COORD_LIMIT as int
}

/// Whether `lo..hi` is a usable axis span: non-degenerate and in range.
pub open spec fn span_ok(lo: int, hi: int) -> bool {
    lo < hi && coord_ok(lo) && coord_ok(hi)
}

/// Both edges of one axis scaled around its center: the low edge moves
/// out by `lo_tenths / 10` of the half-extent, the high edge by
/// `hi_tenths / 10`.
pub open spec fn axis_spec(lo: int, hi: int, lo_tenths: int, hi_tenths: int) -> (int, int) {
    let c = tdiv(lo + hi, 2);
    let half = tdiv(hi - lo, 2);
    (c - tdiv(half * lo_tenths, 10), c + tdiv(half * hi_tenths, 10))
}

impl Viewport {
    /// A well-formed viewport: both spans usable.
    pub open spec fn wf(self) -> bool {
        span_ok(self.left as int, self.right as int) && span_ok(self.top as int, self.bottom as int)
    }

    /// Plane width of the window.
    pub open spec fn spec_width(self) -> int {
        self.right - self.left
    }

    /// Plane height of the window.
    pub open spec fn spec_height(self) -> int {
        self.bottom - self.top
    }

    /// Horizontal center.
    pub open spec fn spec_center_x(self) -> int {
        tdiv(self.left + self.right, 2)
    }

    /// Vertical center.
    pub open spec fn spec_center_y(self) -> int {
        tdiv(self.top + self.bottom, 2)
    }
}

/// The fixed default window: real axis from -2 to 1, imaginary axis
/// from -1 to 1.
pub open spec fn spec_default_viewport() -> Viewport {
    Viewport {
        top: -1_000_000_000i64,
        bottom: 1_000_000_000i64,
        left: -2_000_000_000i64,
        right: 1_000_000_000i64,
    }
}

/// Truncating division helps: halving a doubled value gives it back.
proof fn lemma_tdiv_double_half(c: int)
    ensures
        tdiv(2 * c, 2) == c,
{
    if c >= 0 {
        lemma_div_multiples_vanish(c, 2);
    } else {
        lemma_div_multiples_vanish(-c, 2);
        assert(-(2 * c) == 2 * (-c));
    }
}

/// Build the default viewport.
pub fn default_viewport() -> (v: Viewport)
    ensures
        v == spec_default_viewport(),
        v.wf(),
{
    Viewport {
        top: -1_000_000_000,
        bottom: 1_000_000_000,
        left: -2_000_000_000,
        right: 1_000_000_000,
    }
}

/// Truncating division of `p` by a positive `d`.
fn tdiv_i64(p: i64, d: i64) -> (r: i64)
    requires
        d > 0,
        p > i64::MIN,
    ensures
        r == tdiv(p as int, d as int),
        abs(r as int) <= abs(p as int),
{
    if p >= 0 {
        proof {
            lemma_div_nonincreasing(p as int, d as int);
            lemma_div_pos_is_pos(p as int, d as int);
        }
        ((p as u64) / (d as u64)) as i64
    } else {
        proof {
            lemma_div_nonincreasing(-p as int, d as int);
            lemma_div_pos_is_pos(-p as int, d as int);
        }
        let q: u64 = ((-p) as u64) / (d as u64);
        -(q as i64)
    }
}

/// Scale one axis around its center, by tenths of the half-extent on
/// each edge.
fn axis_scale(lo: i64, hi: i64, lo_tenths: i64, hi_tenths: i64) -> (r: (i64, i64))
    requires
        span_ok(lo as int, hi as int),
        0 <= lo_tenths <= 11,
        0 <= hi_tenths <= 11,
    ensures
        (r.0 as int, r.1 as int) == axis_spec(lo as int, hi as int, lo_tenths as int,
            hi_tenths as int),
        abs(r.0 as int) <= 3 * COORD_LIMIT as int,
        abs(r.1 as int) <= 3 * COORD_LIMIT as int,
{
    let c = tdiv_i64(lo + hi, 2);
    let half = tdiv_i64(hi - lo, 2);
    proof {
        lemma_tdiv_mag((lo + hi) as int, 2, 2 * COORD_LIMIT as int);
        lemma_tdiv_mag((hi - lo) as int, 2, 2 * COORD_LIMIT as int);
        lemma_mul_mag(half as int, lo_tenths as int, COORD_LIMIT as int, 11);
        lemma_mul_mag(half as int, hi_tenths as int, COORD_LIMIT as int, 11);
        lemma_tdiv_mag(half as int * lo_tenths as int, 10, 11 * COORD_LIMIT as int);
        lemma_tdiv_mag(half as int * hi_tenths as int, 10, 11 * COORD_LIMIT as int);
    }
    let d_lo = tdiv_i64(half * lo_tenths, 10);
    let d_hi = tdiv_i64(half * hi_tenths, 10);
    (c - d_lo, c + d_hi)
}

/// Replace one axis span by its candidate if that candidate is usable;
/// report whether it was.
fn apply_axis(lo: &mut i64, hi: &mut i64, cand: (i64, i64))
    ensures
        span_ok(cand.0 as int, cand.1 as int) ==> (*final(lo) == cand.0 && *final(hi) == cand.1),
        !span_ok(cand.0 as int, cand.1 as int) ==> (*final(lo) == *old(lo) && *final(hi) == *old(
            hi,
        )),
{
    if cand.0 < cand.1 && -COORD_LIMIT <= cand.0 && cand.0 <= COORD_LIMIT && -COORD_LIMIT
        <= cand.1 && cand.1 <= COORD_LIMIT {
        *lo = cand.0;
        *hi = cand.1;
    }
}

/// A candidate span put in place when usable, in spec form.
pub open spec fn spec_apply_span(lo: int, hi: int, cand: (int, int)) -> (int, int) {
    if span_ok(cand.0, cand.1) {
        cand
    } else {
        (lo, hi)
    }
}

impl Viewport {
    /// The viewport after panning up: the vertical axis is recentered
    /// with the top edge 1.1 half-heights above the center and the
    /// bottom edge 0.9 below.
    pub open spec fn pan_up_spec(self) -> Viewport {
        let cand = axis_spec(self.top as int, self.bottom as int, 11, 9);
        let span = spec_apply_span(self.top as int, self.bottom as int, cand);
        Viewport { top: span.0 as i64, bottom: span.1 as i64, ..self }
    }

    /// The viewport after panning down.
    pub open spec fn pan_down_spec(self) -> Viewport {
        let cand = axis_spec(self.top as int, self.bottom as int, 9, 11);
        let span = spec_apply_span(self.top as int, self.bottom as int, cand);
        Viewport { top: span.0 as i64, bottom: span.1 as i64, ..self }
    }

    /// The viewport after panning left.
    pub open spec fn pan_left_spec(self) -> Viewport {
        let cand = axis_spec(self.left as int, self.right as int, 11, 9);
        let span = spec_apply_span(self.left as int, self.right as int, cand);
        Viewport { left: span.0 as i64, right: span.1 as i64, ..self }
    }

    /// The viewport after panning right.
    pub open spec fn pan_right_spec(self) -> Viewport {
        let cand = axis_spec(self.left as int, self.right as int, 9, 11);
        let span = spec_apply_span(self.left as int, self.right as int, cand);
        Viewport { left: span.0 as i64, right: span.1 as i64, ..self }
    }

    /// The viewport after zooming in: both axes shrink to 0.9 of their
    /// half-extent around the center, together or not at all.
    pub open spec fn zoom_in_spec(self) -> Viewport {
        let cx = axis_spec(self.left as int, self.right as int, 9, 9);
        let cy = axis_spec(self.top as int, self.bottom as int, 9, 9);
        if span_ok(cx.0, cx.1) && span_ok(cy.0, cy.1) {
            Viewport { left: cx.0 as i64, right: cx.1 as i64, top: cy.0 as i64, bottom: cy.1 as i64 }
        } else {
            self
        }
    }

    /// The viewport after zooming out: both axes grow to 1.1 of their
    /// half-extent around the center, together or not at all.
    pub open spec fn zoom_out_spec(self) -> Viewport {
        let cx = axis_spec(self.left as int, self.right as int, 11, 11);
        let cy = axis_spec(self.top as int, self.bottom as int, 11, 11);
        if span_ok(cx.0, cx.1) && span_ok(cy.0, cy.1) {
            Viewport { left: cx.0 as i64, right: cx.1 as i64, top: cy.0 as i64, bottom: cy.1 as i64 }
        } else {
            self
        }
    }

    /// Plane width of the window.
    pub fn width(&self) -> (w: i64)
        requires
            self.wf(),
        ensures
            w == self.spec_width(),
    {
        self.right - self.left
    }

    /// Plane height of the window.
    pub fn height(&self) -> (h: i64)
        requires
            self.wf(),
        ensures
            h == self.spec_height(),
    {
        self.bottom - self.top
    }

    /// Center of the window.
    pub fn center(&self) -> (c: (i64, i64))
        requires
            self.wf(),
        ensures
            c.0 == self.spec_center_x(),
            c.1 == self.spec_center_y(),
    {
        (tdiv_i64(self.left + self.right, 2), tdiv_i64(self.top + self.bottom, 2))
    }

    /// Pan up.
    pub fn pan_up(&mut self)
        requires
            old(self).wf(),
        ensures
            *final(self) == old(self).pan_up_spec(),
            final(self).wf(),
    {
        let cand = axis_scale(self.top, self.bottom, 11, 9);
        apply_axis(&mut self.top, &mut self.bottom, cand);
    }

    /// Pan down.
    pub fn pan_down(&mut self)
        requires
            old(self).wf(),
        ensures
            *final(self) == old(self).pan_down_spec(),
            final(self).wf(),
    {
        let cand = axis_scale(self.top, self.bottom, 9, 11);
        apply_axis(&mut self.top, &mut self.bottom, cand);
    }

    /// Pan left.
    pub fn pan_left(&mut self)
        requires
            old(self).wf(),
        ensures
            *final(self) == old(self).pan_left_spec(),
            final(self).wf(),
    {
        let cand = axis_scale(self.left, self.right, 11, 9);
        apply_axis(&mut self.left, &mut self.right, cand);
    }

    /// Pan right.
    pub fn pan_right(&mut self)
        requires
            old(self).wf(),
        ensures
            *final(self) == old(self).pan_right_spec(),
            final(self).wf(),
    {
        let cand = axis_scale(self.left, self.right, 9, 11);
        apply_axis(&mut self.left, &mut self.right, cand);
    }

    /// Zoom in.
    pub fn zoom_in(&mut self)
        requires
            old(self).wf(),
        ensures
            *final(self) == old(self).zoom_in_spec(),
            final(self).wf(),
    {
        let cx = axis_scale(self.left, self.right, 9, 9);
        let cy = axis_scale(self.top, self.bottom, 9, 9);
        if cx.0 < cx.1 && -COORD_LIMIT <= cx.0 && cx.1 <= COORD_LIMIT && cy.0 < cy.1
            && -COORD_LIMIT <= cy.0 && cy.1 <= COORD_LIMIT {
            self.left = cx.0;
            self.right = cx.1;
            self.top = cy.0;
            self.bottom = cy.1;
        }
    }

    /// Zoom out.
    pub fn zoom_out(&mut self)
        requires
            old(self).wf(),
        ensures
            *final(self) == old(self).zoom_out_spec(),
            final(self).wf(),
    {
        let cx = axis_scale(self.left, self.right, 11, 11);
        let cy = axis_scale(self.top, self.bottom, 11, 11);
        if cx.0 < cx.1 && -COORD_LIMIT <= cx.0 && cx.1 <= COORD_LIMIT && cy.0 < cy.1
            && -COORD_LIMIT <= cy.0 && cy.1 <= COORD_LIMIT {
            self.left = cx.0;
            self.right = cx.1;
            self.top = cy.0;
            self.bottom = cy.1;
        }
    }
}

/// Whether a zoom at the given tenths actually applies to `v` rather
/// than being rejected as degenerate or out of range.
pub open spec fn zoom_applies(v: Viewport, tenths: int) -> bool {
    let cx = axis_spec(v.left as int, v.right as int, tenths, tenths);
    let cy = axis_spec(v.top as int, v.bottom as int, tenths, tenths);
    span_ok(cx.0, cx.1) && span_ok(cy.0, cy.1)
}

/// A pan that applies moves exactly to the rectangle the 0.9 / 1.1
/// factors dictate: panning up puts the top edge 1.1 half-heights above
/// the center and the bottom edge 0.9 below it, and leaves the other
/// axis alone; the other directions mirror this.
pub proof fn lemma_pan_rectangles(v: Viewport)
    requires
        v.wf(),
    ensures
        ({
            let c = v.spec_center_y();
            let half = tdiv(v.spec_height(), 2);
            let up = v.pan_up_spec();
            span_ok(c - tdiv(half * 11, 10), c + tdiv(half * 9, 10)) ==> up.top == c - tdiv(
                half * 11,
                10,
            ) && up.bottom == c + tdiv(half * 9, 10) && up.left == v.left && up.right == v.right
        }),
        ({
            let c = v.spec_center_y();
            let half = tdiv(v.spec_height(), 2);
            let down = v.pan_down_spec();
            span_ok(c - tdiv(half * 9, 10), c + tdiv(half * 11, 10)) ==> down.top == c - tdiv(
                half * 9,
                10,
            ) && down.bottom == c + tdiv(half * 11, 10) && down.left == v.left && down.right
                == v.right
        }),
        ({
            let c = v.spec_center_x();
            let half = tdiv(v.spec_width(), 2);
            let lt = v.pan_left_spec();
            span_ok(c - tdiv(half * 11, 10), c + tdiv(half * 9, 10)) ==> lt.left == c - tdiv(
                half * 11,
                10,
            ) && lt.right == c + tdiv(half * 9, 10) && lt.top == v.top && lt.bottom == v.bottom
        }),
        ({
            let c = v.spec_center_x();
            let half = tdiv(v.spec_width(), 2);
            let rt = v.pan_right_spec();
            span_ok(c - tdiv(half * 9, 10), c + tdiv(half * 11, 10)) ==> rt.left == c - tdiv(
                half * 9,
                10,
            ) && rt.right == c + tdiv(half * 11, 10) && rt.top == v.top && rt.bottom == v.bottom
        }),
{
}

/// Scaling an axis symmetrically around its center keeps that center
/// exactly.
proof fn lemma_axis_center_fixed(lo: int, hi: int, tenths: int)
    ensures
        ({
            let cand = axis_spec(lo, hi, tenths, tenths);
            tdiv(cand.0 + cand.1, 2) == tdiv(lo + hi, 2)
        }),
{
    let c = tdiv(lo + hi, 2);
    let d = tdiv(tdiv(hi - lo, 2) * tenths, 10);
    assert((c - d) + (c + d) == 2 * c);
    lemma_tdiv_double_half(c);
}

/// Zooming in and back out by the symmetric 0.9 / 1.1 pair leaves the
/// center of the viewport exactly fixed, whenever both zooms apply.
pub proof fn lemma_zoom_round_trip_center(v: Viewport)
    requires
        v.wf(),
        zoom_applies(v, 9),
        zoom_applies(v.zoom_in_spec(), 11),
    ensures
        v.zoom_in_spec().zoom_out_spec().spec_center_x() == v.spec_center_x(),
        v.zoom_in_spec().zoom_out_spec().spec_center_y() == v.spec_center_y(),
{
    let w = v.zoom_in_spec();
    lemma_axis_center_fixed(v.left as int, v.right as int, 9);
    lemma_axis_center_fixed(v.top as int, v.bottom as int, 9);
    lemma_axis_center_fixed(w.left as int, w.right as int, 11);
    lemma_axis_center_fixed(w.top as int, w.bottom as int, 11);
}

} // verus!
