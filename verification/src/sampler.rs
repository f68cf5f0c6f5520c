//! Supersampling of one terminal cell into a glyph and colors.
//!
//! A cell is sampled at its four subpixels; the mean iteration count
//! splits them into an "on" and an "off" set, the on/off pattern picks
//! the glyph, and the set averages pick the colors. A cell whose four
//! subpixels are all on is drawn as a solid block over the unset
//! background.

use crate::color::{iteration_color, spec_color, Rgb};
use crate::fixed::{scale_coord, scale_spec};
use crate::glyph::{glyph_for, spec_glyph, SubpixelMask};
use crate::kernel::{escape_iterations, spec_escape_iterations, FractalVariant};
use crate::viewport::Viewport;
use vstd::arithmetic::div_mod::{lemma_div_is_ordered, lemma_div_multiples_vanish,
    lemma_fundamental_div_mod};
use vstd::prelude::*;

verus! {

/// One rendered terminal cell: a glyph, its color, and the color behind
/// it when the glyph does not cover the cell.
#[derive(Clone, Copy, PartialEq, Eq, Debug)]
pub struct Pixel {
    pub character: char,
    pub foreground: Rgb,
    pub background: Option<Rgb>,
}

/// The iteration count of subpixel `(sx, sy)` of cell `(px, py)` on a
/// `w` by `h` cell grid: the doubled-resolution index is rescaled into
/// the viewport and handed to the escape-time kernel.
pub open spec fn spec_sub_iter(
    px: int,
    py: int,
    sx: int,
    sy: int,
    w: int,
    h: int,
    vp: Viewport,
    cap: nat,
    v: FractalVariant,
) -> nat {
    spec_escape_iterations(
        v,
        scale_spec(2 * px + sx, 2 * w, vp.left as int, vp.right as int),
        scale_spec(2 * py + sy, 2 * h, vp.top as int, vp.bottom as int),
        cap,
    )
}

/// Sum of the four subpixel counts of a cell.
pub open spec fn spec_cell_sum(
    px: int,
    py: int,
    w: int,
    h: int,
    vp: Viewport,
    cap: nat,
    v: FractalVariant,
) -> nat {
    spec_sub_iter(px, py, 0, 0, w, h, vp, cap, v) + spec_sub_iter(px, py, 1, 0, w, h, vp, cap, v)
        + spec_sub_iter(px, py, 0, 1, w, h, vp, cap, v) + spec_sub_iter(
        px,
        py,
        1,
        1,
        w,
        h,
        vp,
        cap,
        v,
    )
}

/// Mean of the four subpixel counts, rounded down.
pub open spec fn spec_cell_mean(
    px: int,
    py: int,
    w: int,
    h: int,
    vp: Viewport,
    cap: nat,
    v: FractalVariant,
) -> nat {
    spec_cell_sum(px, py, w, h, vp, cap, v) / 4
}

/// The on/off mask of a cell: a subpixel is on when its count reaches
/// the cell mean.
pub open spec fn spec_cell_mask(
    px: int,
    py: int,
    w: int,
    h: int,
    vp: Viewport,
    cap: nat,
    v: FractalVariant,
) -> SubpixelMask {
    let mean = spec_cell_mean(px, py, w, h, vp, cap, v);
    SubpixelMask {
        top_left: spec_sub_iter(px, py, 0, 0, w, h, vp, cap, v) >= mean,
        top_right: spec_sub_iter(px, py, 1, 0, w, h, vp, cap, v) >= mean,
        bottom_left: spec_sub_iter(px, py, 0, 1, w, h, vp, cap, v) >= mean,
        bottom_right: spec_sub_iter(px, py, 1, 1, w, h, vp, cap, v) >= mean,
    }
}

/// Sum of the counts of the on set.
pub open spec fn spec_on_sum(
    px: int,
    py: int,
    w: int,
    h: int,
    vp: Viewport,
    cap: nat,
    v: FractalVariant,
) -> nat {
    let mask = spec_cell_mask(px, py, w, h, vp, cap, v);
    (if mask.top_left {
        spec_sub_iter(px, py, 0, 0, w, h, vp, cap, v)
    } else {
        0
    }) + (if mask.top_right {
        spec_sub_iter(px, py, 1, 0, w, h, vp, cap, v)
    } else {
        0
    }) + (if mask.bottom_left {
        spec_sub_iter(px, py, 0, 1, w, h, vp, cap, v)
    } else {
        0
    }) + (if mask.bottom_right {
        spec_sub_iter(px, py, 1, 1, w, h, vp, cap, v)
    } else {
        0
    })
}

/// Mean of the on set; 0 when the set is empty.
pub open spec fn spec_on_avg(
    px: int,
    py: int,
    w: int,
    h: int,
    vp: Viewport,
    cap: nat,
    v: FractalVariant,
) -> nat {
    let cnt = spec_cell_mask(px, py, w, h, vp, cap, v).count_on();
    if cnt > 0 {
        spec_on_sum(px, py, w, h, vp, cap, v) / cnt as nat
    } else {
        0
    }
}

/// Mean of the off set; 0 when the set is empty.
pub open spec fn spec_off_avg(
    px: int,
    py: int,
    w: int,
    h: int,
    vp: Viewport,
    cap: nat,
    v: FractalVariant,
) -> nat {
    let cnt = 4 - spec_cell_mask(px, py, w, h, vp, cap, v).count_on();
    if cnt > 0 {
        ((spec_cell_sum(px, py, w, h, vp, cap, v) - spec_on_sum(
            px,
            py,
            w,
            h,
            vp,
            cap,
            v,
        )) as nat) / cnt as nat
    } else {
        0
    }
}

/// The rendered cell: solid block over no background when all four
/// subpixels are on, otherwise the mask glyph in the on-set color over
/// the off-set color.
pub open spec fn spec_pixel(
    px: int,
    py: int,
    w: int,
    h: int,
    vp: Viewport,
    cap: nat,
    v: FractalVariant,
) -> Pixel {
    let mask = spec_cell_mask(px, py, w, h, vp, cap, v);
    if mask.count_on() == 4 {
        Pixel {
            character: spec_glyph(mask),
            foreground: spec_color(spec_cell_mean(px, py, w, h, vp, cap, v) as int, cap as int),
            background: None,
        }
    } else {
        Pixel {
            character: spec_glyph(mask),
            foreground: spec_color(spec_on_avg(px, py, w, h, vp, cap, v) as int, cap as int),
            background: Some(
                spec_color(spec_off_avg(px, py, w, h, vp, cap, v) as int, cap as int),
            ),
        }
    }
}

/// An average over a set whose members are at most `cap` is at most
/// `cap`.
proof fn lemma_avg_le_cap(sum: int, cnt: int, cap: int)
    requires
        0 < cnt,
        0 <= sum,
        sum <= cnt * cap,
        0 <= cap,
    ensures
        sum / cnt <= cap,
{
    lemma_div_is_ordered(sum, cnt * cap, cnt);
    lemma_div_multiples_vanish(cap, cnt);
}

/// At least one of four values reaches their rounded-down mean.
pub proof fn lemma_some_value_reaches_mean(a: nat, b: nat, c: nat, d: nat)
    ensures
        ({
            let m = (a + b + c + d) / 4;
            a >= m || b >= m || c >= m || d >= m
        }),
{
    let s = a + b + c + d;
    lemma_fundamental_div_mod(s as int, 4);
}

/// The on set of a cell is never empty.
pub proof fn lemma_on_set_nonempty(
    px: int,
    py: int,
    w: int,
    h: int,
    vp: Viewport,
    cap: nat,
    v: FractalVariant,
)
    ensures
        spec_cell_mask(px, py, w, h, vp, cap, v).count_on() >= 1,
{
    lemma_some_value_reaches_mean(
        spec_sub_iter(px, py, 0, 0, w, h, vp, cap, v),
        spec_sub_iter(px, py, 1, 0, w, h, vp, cap, v),
        spec_sub_iter(px, py, 0, 1, w, h, vp, cap, v),
        spec_sub_iter(px, py, 1, 1, w, h, vp, cap, v),
    );
}

/// A cell whose four subpixel counts are equal is a solid block with no
/// background.
pub proof fn lemma_uniform_cell(
    px: int,
    py: int,
    w: int,
    h: int,
    vp: Viewport,
    cap: nat,
    v: FractalVariant,
)
    requires
        ({
            let a = spec_sub_iter(px, py, 0, 0, w, h, vp, cap, v);
            a == spec_sub_iter(px, py, 1, 0, w, h, vp, cap, v) && a == spec_sub_iter(
                px,
                py,
                0,
                1,
                w,
                h,
                vp,
                cap,
                v,
            ) && a == spec_sub_iter(px, py, 1, 1, w, h, vp, cap, v)
        }),
    ensures
        spec_pixel(px, py, w, h, vp, cap, v).background is None,
        spec_pixel(px, py, w, h, vp, cap, v).character == '█',
{
    let a = spec_sub_iter(px, py, 0, 0, w, h, vp, cap, v);
    assert(spec_cell_sum(px, py, w, h, vp, cap, v) == 4 * a);
    lemma_div_multiples_vanish(a as int, 4);
    assert(spec_cell_mean(px, py, w, h, vp, cap, v) == a);
}

/// Evaluate the kernel at the four subpixels of one cell.
fn sub_counts(
    px: u16,
    py: u16,
    width: u16,
    height: u16,
    vp: &Viewport,
    cap: u32,
    v: FractalVariant,
) -> (r: (u32, u32, u32, u32))
    requires
        vp.wf(),
        px < width,
        py < height,
    ensures
        r.0 == spec_sub_iter(px as int, py as int, 0, 0, width as int, height as int, *vp,
            cap as nat, v),
        r.1 == spec_sub_iter(px as int, py as int, 1, 0, width as int, height as int, *vp,
            cap as nat, v),
        r.2 == spec_sub_iter(px as int, py as int, 0, 1, width as int, height as int, *vp,
            cap as nat, v),
        r.3 == spec_sub_iter(px as int, py as int, 1, 1, width as int, height as int, *vp,
            cap as nat, v),
        r.0 <= cap && r.1 <= cap && r.2 <= cap && r.3 <= cap,
{
    let x0 = scale_coord(2 * (px as u32), 2 * (width as u32), vp.left, vp.right);
    let x1 = scale_coord(2 * (px as u32) + 1, 2 * (width as u32), vp.left, vp.right);
    let y0 = scale_coord(2 * (py as u32), 2 * (height as u32), vp.top, vp.bottom);
    let y1 = scale_coord(2 * (py as u32) + 1, 2 * (height as u32), vp.top, vp.bottom);
    let a = escape_iterations(v, x0, y0, cap);
    let b = escape_iterations(v, x1, y0, cap);
    let c = escape_iterations(v, x0, y1, cap);
    let d = escape_iterations(v, x1, y1, cap);
    (a, b, c, d)
}

/// Render one terminal cell.
#[verifier::rlimit(100)]
pub fn cell_pixel(
    px: u16,
    py: u16,
    width: u16,
    height: u16,
    vp: &Viewport,
    cap: u32,
    v: FractalVariant,
) -> (p: Pixel)
    requires
        vp.wf(),
        px < width,
        py < height,
        cap >= 1,
    ensures
        p == spec_pixel(px as int, py as int, width as int, height as int, *vp, cap as nat, v),
{
    let counts = sub_counts(px, py, width, height, vp, cap, v);
    let a = counts.0;
    let b = counts.1;
    let c = counts.2;
    let d = counts.3;
    let sum: u64 = a as u64 + b as u64 + c as u64 + d as u64;
    let mean64: u64 = sum / 4;
    let mean: u32 = mean64 as u32;
    proof {
        assert(sum == spec_cell_sum(px as int, py as int, width as int, height as int, *vp,
            cap as nat, v));
        assert(mean == spec_cell_mean(px as int, py as int, width as int, height as int, *vp,
            cap as nat, v));
    }
    let mask = SubpixelMask {
        top_left: a >= mean,
        top_right: b >= mean,
        bottom_left: c >= mean,
        bottom_right: d >= mean,
    };
    let mut on_sum: u64 = 0;
    let mut on_cnt: u32 = 0;
    if mask.top_left {
        on_sum = on_sum + a as u64;
        on_cnt = on_cnt + 1;
    }
    if mask.top_right {
        on_sum = on_sum + b as u64;
        on_cnt = on_cnt + 1;
    }
    if mask.bottom_left {
        on_sum = on_sum + c as u64;
        on_cnt = on_cnt + 1;
    }
    if mask.bottom_right {
        on_sum = on_sum + d as u64;
        on_cnt = on_cnt + 1;
    }
    proof {
        assert(mask == spec_cell_mask(px as int, py as int, width as int, height as int, *vp,
            cap as nat, v));
        assert(on_cnt == spec_cell_mask(px as int, py as int, width as int, height as int, *vp,
            cap as nat, v).count_on());
        assert(on_sum == spec_on_sum(px as int, py as int, width as int, height as int, *vp,
            cap as nat, v));
    }
    if on_cnt == 4 {
        Pixel { character: glyph_for(mask), foreground: iteration_color(mean, cap), background: None }
    } else {
        let off_sum: u64 = sum - on_sum;
        let off_cnt: u32 = 4 - on_cnt;
        proof {
            assert(on_sum <= on_cnt * cap) by (nonlinear_arith)
                requires
                    a <= cap,
                    b <= cap,
                    c <= cap,
                    d <= cap,
                    on_sum == (if mask.top_left { a as int } else { 0 }) + (if mask.top_right {
                        b as int
                    } else {
                        0
                    }) + (if mask.bottom_left { c as int } else { 0 }) + (if mask.bottom_right {
                        d as int
                    } else {
                        0
                    }),
                    on_cnt == (if mask.top_left { 1int } else { 0 }) + (if mask.top_right {
                        1int
                    } else {
                        0
                    }) + (if mask.bottom_left { 1int } else { 0 }) + (if mask.bottom_right {
                        1int
                    } else {
                        0
                    }),
            ;
            assert(off_sum <= off_cnt * cap) by (nonlinear_arith)
                requires
                    a <= cap,
                    b <= cap,
                    c <= cap,
                    d <= cap,
                    off_sum == (if mask.top_left { 0int } else { a as int }) + (if mask.top_right {
                        0int
                    } else {
                        b as int
                    }) + (if mask.bottom_left { 0int } else { c as int }) + (if mask.bottom_right {
                        0int
                    } else {
                        d as int
                    }),
                    off_cnt == (if mask.top_left { 0int } else { 1 }) + (if mask.top_right {
                        0int
                    } else {
                        1
                    }) + (if mask.bottom_left { 0int } else { 1 }) + (if mask.bottom_right {
                        0int
                    } else {
                        1
                    }),
            ;
            if on_cnt > 0 {
                lemma_avg_le_cap(on_sum as int, on_cnt as int, cap as int);
            }
            if off_cnt > 0 {
                lemma_avg_le_cap(off_sum as int, off_cnt as int, cap as int);
            }
        }
        let on_avg: u32 = if on_cnt > 0 {
            (on_sum / (on_cnt as u64)) as u32
        } else {
            0
        };
        let off_avg: u32 = if off_cnt > 0 {
            (off_sum / (off_cnt as u64)) as u32
        } else {
            0
        };
        Pixel {
            character: glyph_for(mask),
            foreground: iteration_color(on_avg, cap),
            background: Some(iteration_color(off_avg, cap)),
        }
    }
}

} // verus!
