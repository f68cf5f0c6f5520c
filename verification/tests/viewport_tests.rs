use fractal_term::viewport::{default_viewport, Viewport};

#[test]
fn default_window_and_derived_values() {
    let v = default_viewport();
    assert_eq!(
        v,
        Viewport {
            top: -1_000_000_000,
            bottom: 1_000_000_000,
            left: -2_000_000_000,
            right: 1_000_000_000,
        }
    );
    assert_eq!(v.width(), 3_000_000_000);
    assert_eq!(v.height(), 2_000_000_000);
    assert_eq!(v.center(), (-500_000_000, 0));
}

#[test]
fn pan_up_rectangle_follows_the_scale_factors() {
    let mut v = default_viewport();
    v.pan_up();
    // Center 0, half-height 1e9: top = -1.1e9, bottom = +0.9e9.
    assert_eq!(v.top, -1_100_000_000);
    assert_eq!(v.bottom, 900_000_000);
    assert_eq!(v.left, -2_000_000_000);
    assert_eq!(v.right, 1_000_000_000);
}

#[test]
fn pan_down_rectangle_follows_the_scale_factors() {
    let mut v = default_viewport();
    v.pan_down();
    assert_eq!(v.top, -900_000_000);
    assert_eq!(v.bottom, 1_100_000_000);
}

#[test]
fn pan_left_rectangle_follows_the_scale_factors() {
    let mut v = default_viewport();
    v.pan_left();
    // Center -0.5e9, half-width 1.5e9.
    assert_eq!(v.left, -2_150_000_000);
    assert_eq!(v.right, 850_000_000);
    assert_eq!(v.top, -1_000_000_000);
    assert_eq!(v.bottom, 1_000_000_000);
}

#[test]
fn pan_right_rectangle_follows_the_scale_factors() {
    let mut v = default_viewport();
    v.pan_right();
    assert_eq!(v.left, -1_850_000_000);
    assert_eq!(v.right, 1_150_000_000);
}

#[test]
fn pan_keeps_the_extent() {
    let mut v = default_viewport();
    v.pan_left();
    assert_eq!(v.width(), 3_000_000_000);
    v.pan_up();
    assert_eq!(v.height(), 2_000_000_000);
}

#[test]
fn zoom_in_rectangle() {
    let mut v = default_viewport();
    v.zoom_in();
    assert_eq!(v.left, -1_850_000_000);
    assert_eq!(v.right, 850_000_000);
    assert_eq!(v.top, -900_000_000);
    assert_eq!(v.bottom, 900_000_000);
}

#[test]
fn zoom_round_trip_keeps_center_not_extent() {
    let mut v = default_viewport();
    let center = v.center();
    let width = v.width();
    let height = v.height();
    v.zoom_in();
    v.zoom_out();
    assert_eq!(v.center(), center);
    // 0.9 then 1.1 compounds to 0.99: the extent is close but not equal.
    assert_eq!(v.width(), 2_970_000_000);
    assert_eq!(v.height(), 1_980_000_000);
    assert_ne!(v.width(), width);
    assert_ne!(v.height(), height);
}

#[test]
fn degenerate_pan_is_rejected() {
    // A span too thin to scale: the candidate collapses, so the pan is
    // a no-op and the viewport stays well-formed.
    let mut v = Viewport { top: 0, bottom: 1, left: -2_000_000_000, right: 1_000_000_000 };
    let before = v;
    v.pan_up();
    assert_eq!(v, before);
}
