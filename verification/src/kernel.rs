//! Escape-time evaluation of the fractal recurrences.
//!
//! Each variant iterates its recurrence from its own seed until the
//! iterate leaves the circle of radius 2 around the origin or the
//! iteration cap is reached; the cap itself signals an interior point.
//! All arithmetic is fixed-point and every executable step is proved
//! equal to the recurrence stated over `int`.

use crate::fixed::{fx_mul, fx_mul_spec, lemma_mul_mag, lemma_tdiv_mag, COORD_LIMIT, FX_ONE,
    ITERATE_BOUND};
use vstd::math::abs;
use vstd::prelude::*;

verus! {

/// The closed set of fractal recurrences.
#[derive(Clone, Copy, PartialEq, Eq, Structural, Debug)]
pub enum FractalVariant {
    Mandelbrot,
    BurningShip,
    Julia,
}

/// Real part of the fixed Julia constant, 0.156 plane units.
pub const JULIA_RE: i64 = 156_000_000;

/// Imaginary part of the fixed Julia constant, 0.8 plane units.
pub const JULIA_IM: i64 = 800_000_000;

/// The squared escape radius (2 plane units), in squared fixed-point
/// units: an iterate whose squared magnitude exceeds this has escaped.
pub const ESCAPE_MAG: i128 = 4_000_000_000_000_000_000;

/// Seed of the real component: Mandelbrot iterates from the origin, the
/// other variants from the sampled coordinate itself.
pub open spec fn init_zx(v: FractalVariant, cx: int) -> int {
    match v {
        FractalVariant::Mandelbrot => 0,
        FractalVariant::BurningShip => cx,
        FractalVariant::Julia => cx,
    }
}

/// Seed of the imaginary component.
pub open spec fn init_zy(v: FractalVariant, cy: int) -> int {
    match v {
        FractalVariant::Mandelbrot => 0,
        FractalVariant::BurningShip => cy,
        FractalVariant::Julia => cy,
    }
}

/// Whether the iterate has left the escape circle.
pub open spec fn escaped(zx: int, zy: int) -> bool {
    zx * zx + zy * zy > ESCAPE_MAG as int
}

/// One recurrence step, real component.
pub open spec fn step_zx(v: FractalVariant, zx: int, zy: int, cx: int) -> int {
    match v {
        FractalVariant::Mandelbrot => fx_mul_spec(zx, zx) - fx_mul_spec(zy, zy) + cx,
        FractalVariant::BurningShip => fx_mul_spec(zx, zx) - fx_mul_spec(zy, zy) + cx,
        FractalVariant::Julia => fx_mul_spec(zx, zx) - fx_mul_spec(zy, zy) + JULIA_RE,
    }
}

/// One recurrence step, imaginary component; the Burning Ship takes the
/// absolute value of the cross term.
pub open spec fn step_zy(v: FractalVariant, zx: int, zy: int, cy: int) -> int {
    match v {
        FractalVariant::Mandelbrot => fx_mul_spec(2 * zx, zy) + cy,
        FractalVariant::BurningShip => abs(fx_mul_spec(2 * zx, zy)) + cy,
        FractalVariant::Julia => fx_mul_spec(2 * zx, zy) + JULIA_IM,
    }
}

/// How many of the next `fuel` recurrence steps run before the iterate
/// `(zx, zy)` escapes; `fuel` itself when it never does.
pub open spec fn escape_steps(
    v: FractalVariant,
    cx: int,
    cy: int,
    zx: int,
    zy: int,
    fuel: nat,
) -> nat
    decreases fuel,
{
    if fuel == 0 {
        0
    } else if escaped(zx, zy) {
        0
    } else {
        1 + escape_steps(
            v,
            cx,
            cy,
            step_zx(v, zx, zy, cx),
            step_zy(v, zx, zy, cy),
            (fuel - 1) as nat,
        )
    }
}

/// The escape iteration count of the scaled coordinate `(cx, cy)` under
/// the iteration cap.
pub open spec fn spec_escape_iterations(v: FractalVariant, cx: int, cy: int, cap: nat) -> nat {
    escape_steps(v, cx, cy, init_zx(v, cx), init_zy(v, cy), cap)
}

/// The count never exceeds the fuel that bounds it.
pub proof fn lemma_escape_steps_le_fuel(
    v: FractalVariant,
    cx: int,
    cy: int,
    zx: int,
    zy: int,
    fuel: nat,
)
    ensures
        escape_steps(v, cx, cy, zx, zy, fuel) <= fuel,
    decreases fuel,
{
    if fuel > 0 && !escaped(zx, zy) {
        lemma_escape_steps_le_fuel(
            v,
            cx,
            cy,
            step_zx(v, zx, zy, cx),
            step_zy(v, zx, zy, cy),
            (fuel - 1) as nat,
        );
    }
}

/// The escape count of any point under any cap lies in `[0, cap]`.
pub proof fn lemma_escape_iterations_range(v: FractalVariant, cx: int, cy: int, cap: nat)
    ensures
        spec_escape_iterations(v, cx, cy, cap) <= cap,
{
    lemma_escape_steps_le_fuel(v, cx, cy, init_zx(v, cx), init_zy(v, cy), cap);
}

/// A not-yet-escaped iterate has both components within 2 plane units.
proof fn lemma_not_escaped_bounds(zx: int, zy: int)
    by (nonlinear_arith)
    requires
        !escaped(zx, zy),
    ensures
        abs(zx) <= 2 * FX_ONE as int,
        abs(zy) <= 2 * FX_ONE as int,
{
}

/// Stepping a not-yet-escaped iterate with a bounded coordinate lands
/// within the iterate bound.
proof fn lemma_step_bounded(v: FractalVariant, cx: int, cy: int, zx: int, zy: int)
    requires
        abs(cx) <= COORD_LIMIT as int,
        abs(cy) <= COORD_LIMIT as int,
        !escaped(zx, zy),
    ensures
        abs(zx) <= 2 * FX_ONE as int,
        abs(zy) <= 2 * FX_ONE as int,
        abs(step_zx(v, zx, zy, cx)) <= ITERATE_BOUND as int,
        abs(step_zy(v, zx, zy, cy)) <= ITERATE_BOUND as int,
        abs(fx_mul_spec(zx, zx)) <= 4 * FX_ONE as int,
        abs(fx_mul_spec(zy, zy)) <= 4 * FX_ONE as int,
        abs(fx_mul_spec(2 * zx, zy)) <= 8 * FX_ONE as int,
{
    lemma_not_escaped_bounds(zx, zy);
    lemma_mul_mag(zx, zx, 2 * FX_ONE as int, 2 * FX_ONE as int);
    lemma_mul_mag(zy, zy, 2 * FX_ONE as int, 2 * FX_ONE as int);
    lemma_mul_mag(2 * zx, zy, 4 * FX_ONE as int, 2 * FX_ONE as int);
    lemma_tdiv_mag(zx * zx, FX_ONE as int, 4_000_000_000_000_000_000);
    lemma_tdiv_mag(zy * zy, FX_ONE as int, 4_000_000_000_000_000_000);
    lemma_tdiv_mag((2 * zx) * zy, FX_ONE as int, 8_000_000_000_000_000_000);
}

/// Run the recurrence of `v` at the scaled coordinate `(cx, cy)` until it
/// escapes or the cap is reached.
pub fn escape_iterations(v: FractalVariant, cx: i64, cy: i64, cap: u32) -> (n: u32)
    requires
        -COORD_LIMIT <= cx <= COORD_LIMIT,
        -COORD_LIMIT <= cy <= COORD_LIMIT,
    ensures
        n == spec_escape_iterations(v, cx as int, cy as int, cap as nat),
        n <= cap,
{
    let mut zx: i64 = match v {
        FractalVariant::Mandelbrot => 0,
        FractalVariant::BurningShip => cx,
        FractalVariant::Julia => cx,
    };
    let mut zy: i64 = match v {
        FractalVariant::Mandelbrot => 0,
        FractalVariant::BurningShip => cy,
        FractalVariant::Julia => cy,
    };
    let mut i: u32 = 0;
    proof {
        lemma_mul_mag(zx as int, zx as int, ITERATE_BOUND as int, ITERATE_BOUND as int);
        lemma_mul_mag(zy as int, zy as int, ITERATE_BOUND as int, ITERATE_BOUND as int);
    }
    let mag: i128 = (zx as i128) * (zx as i128) + (zy as i128) * (zy as i128);
    let mut active: bool = mag <= ESCAPE_MAG;
    while active && i < cap
        invariant
            i <= cap,
            -COORD_LIMIT <= cx <= COORD_LIMIT,
            -COORD_LIMIT <= cy <= COORD_LIMIT,
            abs(zx as int) <= ITERATE_BOUND as int,
            abs(zy as int) <= ITERATE_BOUND as int,
            active == !escaped(zx as int, zy as int),
            spec_escape_iterations(v, cx as int, cy as int, cap as nat) == i + escape_steps(
                v,
                cx as int,
                cy as int,
                zx as int,
                zy as int,
                (cap - i) as nat,
            ),
        decreases cap - i,
    {
        proof {
            lemma_step_bounded(v, cx as int, cy as int, zx as int, zy as int);
        }
        let xx = fx_mul(zx, zx);
        let yy = fx_mul(zy, zy);
        let cross = fx_mul(2 * zx, zy);
        let zx2: i64 = match v {
            FractalVariant::Mandelbrot => xx - yy + cx,
            FractalVariant::BurningShip => xx - yy + cx,
            FractalVariant::Julia => xx - yy + JULIA_RE,
        };
        let zy2: i64 = match v {
            FractalVariant::Mandelbrot => cross + cy,
            FractalVariant::BurningShip => (if cross < 0 {
                -cross
            } else {
                cross
            }) + cy,
            FractalVariant::Julia => cross + JULIA_IM,
        };
        proof {
            assert(zx2 == step_zx(v, zx as int, zy as int, cx as int));
            assert(zy2 == step_zy(v, zx as int, zy as int, cy as int));
            assert(escape_steps(v, cx as int, cy as int, zx as int, zy as int, (cap - i) as nat)
                == 1 + escape_steps(v, cx as int, cy as int, zx2 as int, zy2 as int, (cap - i
                - 1) as nat));
            lemma_mul_mag(zx2 as int, zx2 as int, ITERATE_BOUND as int, ITERATE_BOUND as int);
            lemma_mul_mag(zy2 as int, zy2 as int, ITERATE_BOUND as int, ITERATE_BOUND as int);
        }
        zx = zx2;
        zy = zy2;
        i = i + 1;
        let mag2: i128 = (zx as i128) * (zx as i128) + (zy as i128) * (zy as i128);
        active = mag2 <= ESCAPE_MAG;
    }
    proof {
        if !active {
            assert(escape_steps(v, cx as int, cy as int, zx as int, zy as int, (cap - i) as nat)
                == 0);
        }
    }
    i
}

/// The Mandelbrot recurrence at the origin never escapes: the iterate
/// stays at the origin, so the count equals the fuel.
proof fn lemma_origin_steps(fuel: nat)
    ensures
        escape_steps(FractalVariant::Mandelbrot, 0, 0, 0, 0, fuel) == fuel,
    decreases fuel,
{
    if fuel > 0 {
        assert(fx_mul_spec(0, 0) == 0) by {
            vstd::arithmetic::div_mod::lemma_div_of0(FX_ONE as int);
        }
        assert(step_zx(FractalVariant::Mandelbrot, 0, 0, 0) == 0);
        assert(step_zy(FractalVariant::Mandelbrot, 0, 0, 0) == 0);
        lemma_origin_steps((fuel - 1) as nat);
    }
}

/// Mandelbrot at `(0, 0)` reaches any cap: the point is interior.
pub proof fn lemma_mandelbrot_origin_interior(cap: nat)
    ensures
        spec_escape_iterations(FractalVariant::Mandelbrot, 0, 0, cap) == cap,
{
    lemma_origin_steps(cap);
}

/// Mandelbrot at `(1, 1)` escapes at the second step, under any cap of at
/// least 2.
pub proof fn lemma_mandelbrot_unit_escapes(cap: nat)
    requires
        cap >= 2,
    ensures
        spec_escape_iterations(
            FractalVariant::Mandelbrot,
            FX_ONE as int,
            FX_ONE as int,
            cap,
        ) == 2,
{
    let m = FractalVariant::Mandelbrot;
    let one = FX_ONE as int;
    assert(fx_mul_spec(0, 0) == 0) by {
        vstd::arithmetic::div_mod::lemma_div_of0(FX_ONE as int);
    }
    assert(step_zx(m, 0, 0, one) == one);
    assert(step_zy(m, 0, 0, one) == one);
    assert(one * one == 1_000_000_000_000_000_000) by (nonlinear_arith)
        requires
            one == 1_000_000_000,
    ;
    assert(!escaped(one, one));
    assert(fx_mul_spec(one, one) == one) by {
        crate::fixed::lemma_tdiv_exact(one, FX_ONE as int);
    }
    assert(fx_mul_spec(2 * one, one) == 2 * one) by {
        crate::fixed::lemma_tdiv_exact(2 * one, FX_ONE as int);
    }
    assert(step_zx(m, one, one, one) == one);
    assert(step_zy(m, one, one, one) == 3 * one);
    assert((3 * one) * (3 * one) == 9_000_000_000_000_000_000) by (nonlinear_arith)
        requires
            one == 1_000_000_000,
    ;
    assert(escaped(one, 3 * one));
    assert(escape_steps(m, one, one, one, 3 * one, (cap - 2) as nat) == 0);
    assert(escape_steps(m, one, one, one, one, (cap - 1) as nat) == 1 + escape_steps(
        m,
        one,
        one,
        one,
        3 * one,
        (cap - 2) as nat,
    ));
    assert(escape_steps(m, one, one, 0, 0, cap) == 1 + escape_steps(
        m,
        one,
        one,
        one,
        one,
        (cap - 1) as nat,
    ));
}

} // verus!
