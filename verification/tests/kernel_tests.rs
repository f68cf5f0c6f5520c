use fractal_term::fixed::FX_ONE;
use fractal_term::kernel::{escape_iterations, FractalVariant};

#[test]
fn mandelbrot_origin_reaches_any_cap() {
    for cap in [1u32, 7, 100, 1000] {
        assert_eq!(escape_iterations(FractalVariant::Mandelbrot, 0, 0, cap), cap);
    }
}

#[test]
fn mandelbrot_unit_point_escapes_in_two() {
    for cap in [2u32, 3, 100, 500] {
        assert_eq!(escape_iterations(FractalVariant::Mandelbrot, FX_ONE, FX_ONE, cap), 2);
    }
}

#[test]
fn burning_ship_origin_reaches_cap() {
    assert_eq!(escape_iterations(FractalVariant::BurningShip, 0, 0, 64), 64);
}

#[test]
fn counts_stay_within_cap_for_sample_points() {
    let cap = 75u32;
    let points = [
        (0i64, 0i64),
        (FX_ONE, FX_ONE),
        (-2 * FX_ONE, FX_ONE),
        (FX_ONE / 2, -FX_ONE / 3),
        (3 * FX_ONE, 3 * FX_ONE),
        (-FX_ONE / 10, FX_ONE / 10),
    ];
    for v in [FractalVariant::Mandelbrot, FractalVariant::BurningShip, FractalVariant::Julia] {
        for (cx, cy) in points {
            assert!(escape_iterations(v, cx, cy, cap) <= cap);
        }
    }
}

#[test]
fn far_point_escapes_immediately() {
    // Magnitude above the escape radius from the seed itself.
    assert_eq!(escape_iterations(FractalVariant::Julia, 3 * FX_ONE, 3 * FX_ONE, 50), 0);
    assert_eq!(escape_iterations(FractalVariant::BurningShip, 3 * FX_ONE, 3 * FX_ONE, 50), 0);
}
