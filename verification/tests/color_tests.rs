use fractal_term::color::{iteration_color, Rgb};

#[test]
fn cap_is_black_for_any_positive_cap() {
    for cap in [1u32, 10, 100, 4096, 1_000_000] {
        assert_eq!(iteration_color(cap, cap), Rgb { red: 0, green: 0, blue: 0 });
    }
}

#[test]
fn zero_is_white_for_any_positive_cap() {
    for cap in [1u32, 10, 100, 4096, 1_000_000] {
        assert_eq!(iteration_color(0, cap), Rgb { red: 255, green: 255, blue: 255 });
    }
}

#[test]
fn hue_law_exact_values() {
    // Half the cap: hue 180 degrees, cyan.
    assert_eq!(iteration_color(50, 100), Rgb { red: 0, green: 255, blue: 255 });
    // A quarter: hue 90 degrees, chartreuse; 255 * 0.5 truncates to 127.
    assert_eq!(iteration_color(25, 100), Rgb { red: 127, green: 255, blue: 0 });
    // Three quarters: hue 270 degrees, violet.
    assert_eq!(iteration_color(75, 100), Rgb { red: 127, green: 0, blue: 255 });
}

#[test]
fn hue_law_stays_in_byte_range_across_a_cap() {
    let cap = 37u32;
    for iter in 0..=cap {
        // Constructing the color at all shows each channel fit its byte;
        // spot-check the black and white special cases stay exclusive.
        let c = iteration_color(iter, cap);
        if iter == cap {
            assert_eq!(c, Rgb { red: 0, green: 0, blue: 0 });
        } else if iter == 0 {
            assert_eq!(c, Rgb { red: 255, green: 255, blue: 255 });
        }
    }
}
