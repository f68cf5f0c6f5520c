//! Fixed-point arithmetic for plane coordinates.
//!
//! A plane coordinate is an `i64` holding a multiple of `1 / FX_ONE`; all
//! rounding truncates toward zero, and every executable operation is proved
//! equal to its mathematical counterpart stated over `int`.

use vstd::arithmetic::div_mod::{lemma_div_by_multiple, lemma_div_is_ordered,
    lemma_div_multiples_vanish, lemma_div_pos_is_pos};
use vstd::math::abs;
use vstd::prelude::*;

verus! {

/// Number of fixed-point units that make up one unit of the complex plane.
pub const FX_ONE: i64 = 1_000_000_000;

/// Largest magnitude the library accepts for a plane coordinate
/// (8192 plane units).
pub const COORD_LIMIT: i64 = 8_192_000_000_000;

/// Bound that the components of an escape-time iterate provably stay
/// within: 4 plane units of recurrence growth on top of a coordinate.
pub const ITERATE_BOUND: i64 = 9_000_000_000_000;

/// Integer division of `p` by a positive `d`, truncating toward zero.
pub open spec fn tdiv(p: int, d: int) -> int
    recommends
        d > 0,
{
    if p >= 0 {
        p / d
    } else {
        -((-p) / d)
    }
}

/// The fixed-point product of two fixed-point values: the exact integer
/// product scaled back down by `FX_ONE`, truncated toward zero.
pub open spec fn fx_mul_spec(a: int, b: int) -> int {
    tdiv(a * b, FX_ONE as int)
}

/// Linear rescaling of a sample index `n` out of `span` into the
/// coordinate range `[lo, hi]`, truncated toward zero.
pub open spec fn scale_spec(n: int, span: int, lo: int, hi: int) -> int
    recommends
        span > 0,
{
    lo + tdiv(n * (hi - lo), span)
}

/// Truncating division never grows a magnitude bound: if `|p| <= m`
/// then `|tdiv(p, d)| <= m / d`.
pub proof fn lemma_tdiv_mag(p: int, d: int, m: int)
    requires
        d > 0,
        abs(p) <= m,
    ensures
        abs(tdiv(p, d)) <= m / d,
{
    if p >= 0 {
        lemma_div_pos_is_pos(p, d);
        lemma_div_is_ordered(p, m, d);
    } else {
        lemma_div_pos_is_pos(-p, d);
        lemma_div_is_ordered(-p, m, d);
    }
}

/// Dividing a whole multiple of a positive `d` back down by `d` is exact.
pub proof fn lemma_tdiv_exact(x: int, d: int)
    requires
        d > 0,
        x >= 0,
    ensures
        tdiv(x * d, d) == x,
{
    assert(x * d >= 0) by (nonlinear_arith)
        requires
            x >= 0,
            d > 0,
    ;
    lemma_div_by_multiple(x, d);
}

/// A product of bounded factors is bounded: if `|a| <= ma` and
/// `|b| <= mb` then `|a * b| <= ma * mb`.
pub proof fn lemma_mul_mag(a: int, b: int, ma: int, mb: int)
    by (nonlinear_arith)
    requires
        abs(a) <= ma,
        abs(b) <= mb,
    ensures
        abs(a * b) <= ma * mb,
{
}

/// Fixed-point multiplication, exact up to the stated truncation.
pub fn fx_mul(a: i64, b: i64) -> (r: i64)
    requires
        -ITERATE_BOUND <= a <= ITERATE_BOUND,
        -ITERATE_BOUND <= b <= ITERATE_BOUND,
    ensures
        r == fx_mul_spec(a as int, b as int),
        abs(r as int) <= 8_100_000_000_000_000_000,
{
    proof {
        lemma_mul_mag(a as int, b as int, ITERATE_BOUND as int, ITERATE_BOUND as int);
    }
    let p: i128 = (a as i128) * (b as i128);
    if p >= 0 {
        let q: u128 = (p as u128) / (FX_ONE as u128);
        proof {
            lemma_div_is_ordered(p as int, 81_000_000_000_000_000_000_000_000int,
                FX_ONE as int);
            lemma_div_pos_is_pos(p as int, FX_ONE as int);
        }
        q as i64
    } else {
        let q: u128 = ((-p) as u128) / (FX_ONE as u128);
        proof {
            lemma_div_is_ordered(-p as int, 81_000_000_000_000_000_000_000_000int,
                FX_ONE as int);
            lemma_div_pos_is_pos(-p as int, FX_ONE as int);
        }
        -(q as i64)
    }
}

/// Rescale sample index `n` out of `span` into `[lo, hi]`; the result
/// stays inside that range.
pub fn scale_coord(n: u32, span: u32, lo: i64, hi: i64) -> (r: i64)
    requires
        0 < span,
        n <= span,
        -COORD_LIMIT <= lo < hi <= COORD_LIMIT,
    ensures
        r == scale_spec(n as int, span as int, lo as int, hi as int),
        lo <= r <= hi,
{
    proof {
        lemma_mul_mag(n as int, hi - lo, span as int, hi - lo);
        lemma_mul_mag(span as int, hi - lo, 4_294_967_295int, 2 * COORD_LIMIT as int);
    }
    let num: i128 = (n as i128) * ((hi - lo) as i128);
    proof {
        assert(num >= 0) by (nonlinear_arith)
            requires
                num == (n as int) * (hi - lo),
                n >= 0,
                hi - lo >= 0,
        ;
        assert((n as int) * (hi - lo) <= (span as int) * (hi - lo)) by (nonlinear_arith)
            requires
                n <= span,
                hi - lo >= 0,
        ;
        lemma_div_is_ordered(num as int, (span as int) * (hi - lo), span as int);
        lemma_div_multiples_vanish(hi - lo, span as int);
        lemma_div_pos_is_pos(num as int, span as int);
    }
    let q: u128 = (num as u128) / (span as u128);
    lo + (q as i64)
}

} // verus!
