//! The iteration-to-color law.
//!
//! An iteration count at the cap is black and a count of zero is white;
//! anything between is hue `iteration * 360 / cap` at full saturation and
//! half lightness, converted to RGB by the standard HSL formula. The
//! formula is evaluated exactly over rationals with denominator `cap`:
//! `k(n) = (n + hue/30) mod 12` scaled by `cap` becomes
//! `(n*cap + 12*iteration) mod (12*cap)`, and each channel is
//! `255 * (1 - m) / 2` truncated, where `m` clamps
//! `min(k - 3, 9 - k, 1)` to at least `-1`.

use vstd::arithmetic::div_mod::{lemma_div_is_ordered, lemma_div_multiples_vanish,
    lemma_div_pos_is_pos};
use vstd::prelude::*;

verus! {

/// A terminal color: one byte per channel.
#[derive(Clone, Copy, PartialEq, Eq, Structural, Debug)]
pub struct Rgb {
    pub red: u8,
    pub green: u8,
    pub blue: u8,
}

/// One RGB channel of the hue law, for offset `n` (0 for red, 8 for
/// green, 4 for blue). All values are scaled by `cap` so that the
/// computation is exact; for the offsets used, one conditional subtraction
/// is the `mod (12*cap)` reduction.
pub open spec fn spec_hue_channel(n: int, iter: int, cap: int) -> int
    recommends
        cap >= 1,
        0 <= iter <= cap,
        0 <= n <= 8,
{
    let v = n * cap + 12 * iter;
    let k = if v >= 12 * cap {
        v - 12 * cap
    } else {
        v
    };
    let t = if k - 3 * cap <= 9 * cap - k {
        k - 3 * cap
    } else {
        9 * cap - k
    };
    let m = if t > cap {
        cap
    } else if t < -cap {
        -cap
    } else {
        t
    };
    (255 * (cap - m)) / (2 * cap)
}

/// The color for an iteration count under a cap: black at the cap, white
/// at zero, otherwise the hue law.
pub open spec fn spec_color(iter: int, cap: int) -> Rgb
    recommends
        cap >= 1,
        0 <= iter <= cap,
{
    if iter == cap {
        Rgb { red: 0, green: 0, blue: 0 }
    } else if iter == 0 {
        Rgb { red: 255, green: 255, blue: 255 }
    } else {
        Rgb {
            red: spec_hue_channel(0, iter, cap) as u8,
            green: spec_hue_channel(8, iter, cap) as u8,
            blue: spec_hue_channel(4, iter, cap) as u8,
        }
    }
}

/// The hue law always lands inside one byte.
pub proof fn lemma_hue_channel_range(n: int, iter: int, cap: int)
    requires
        cap >= 1,
        0 <= iter <= cap,
        0 <= n <= 8,
    ensures
        0 <= spec_hue_channel(n, iter, cap) <= 255,
{
    let v = n * cap + 12 * iter;
    let k = if v >= 12 * cap {
        v - 12 * cap
    } else {
        v
    };
    let t = if k - 3 * cap <= 9 * cap - k {
        k - 3 * cap
    } else {
        9 * cap - k
    };
    let m = if t > cap {
        cap
    } else if t < -cap {
        -cap
    } else {
        t
    };
    assert(-cap <= m <= cap);
    lemma_div_pos_is_pos(255 * (cap - m), 2 * cap);
    assert(255 * (cap - m) <= (2 * cap) * 255) by (nonlinear_arith)
        requires
            cap - m <= 2 * cap,
            cap >= 1,
    ;
    lemma_div_is_ordered(255 * (cap - m), (2 * cap) * 255, 2 * cap);
    lemma_div_multiples_vanish(255, 2 * cap);
}

/// One channel of the hue law, computed exactly.
fn hue_channel(n: u64, iter: u32, cap: u32) -> (c: u8)
    requires
        cap >= 1,
        iter <= cap,
        n <= 8,
    ensures
        c == spec_hue_channel(n as int, iter as int, cap as int),
{
    proof {
        lemma_hue_channel_range(n as int, iter as int, cap as int);
        crate::fixed::lemma_mul_mag(n as int, cap as int, 8, 4_294_967_295int);
    }
    let v: u64 = n * (cap as u64) + 12 * (iter as u64);
    let twelve_cap: u64 = 12 * (cap as u64);
    let k: u64 = if v >= twelve_cap {
        v - twelve_cap
    } else {
        v
    };
    let lo: i64 = (k as i64) - 3 * (cap as i64);
    let hi: i64 = 9 * (cap as i64) - (k as i64);
    let t: i64 = if lo <= hi {
        lo
    } else {
        hi
    };
    let m: i64 = if t > cap as i64 {
        cap as i64
    } else if t < -(cap as i64) {
        -(cap as i64)
    } else {
        t
    };
    let num: u64 = 255 * ((cap as i64 - m) as u64);
    (num / (2 * (cap as u64))) as u8
}

/// The color of one iteration count against the cap.
pub fn iteration_color(iter: u32, cap: u32) -> (c: Rgb)
    requires
        cap >= 1,
        iter <= cap,
    ensures
        c == spec_color(iter as int, cap as int),
{
    if iter == cap {
        Rgb { red: 0, green: 0, blue: 0 }
    } else if iter == 0 {
        Rgb { red: 255, green: 255, blue: 255 }
    } else {
        Rgb {
            red: hue_channel(0, iter, cap),
            green: hue_channel(8, iter, cap),
            blue: hue_channel(4, iter, cap),
        }
    }
}

/// A count at the cap is black and a count of zero is white, for every
/// positive cap.
pub proof fn lemma_color_endpoints(cap: int)
    requires
        cap >= 1,
    ensures
        spec_color(cap, cap) == (Rgb { red: 0, green: 0, blue: 0 }),
        spec_color(0, cap) == (Rgb { red: 255, green: 255, blue: 255 }),
{
}

} // verus!
