use fractal_term::kernel::FractalVariant;
use fractal_term::state::{handle_event, initial_state, record_rendered, InputEvent};
use fractal_term::viewport::default_viewport;

#[test]
fn initial_state_defaults() {
    let s = initial_state();
    assert_eq!(s.viewport, default_viewport());
    assert_eq!(s.max_iterations, 100);
    assert_eq!(s.variant_index, 0);
    assert_eq!(s.variant(), FractalVariant::Mandelbrot);
}

#[test]
fn variant_cycles_forward_with_wraparound() {
    let mut s = initial_state();
    assert!(handle_event(&mut s, InputEvent::NextVariant));
    assert_eq!(s.variant(), FractalVariant::BurningShip);
    assert!(handle_event(&mut s, InputEvent::NextVariant));
    assert_eq!(s.variant(), FractalVariant::Julia);
    assert!(handle_event(&mut s, InputEvent::NextVariant));
    assert_eq!(s.variant(), FractalVariant::Mandelbrot);
}

#[test]
fn variant_cycles_backward_with_wraparound() {
    let mut s = initial_state();
    assert!(handle_event(&mut s, InputEvent::PrevVariant));
    assert_eq!(s.variant_index, 2);
    assert_eq!(s.variant(), FractalVariant::Julia);
    assert!(handle_event(&mut s, InputEvent::PrevVariant));
    assert_eq!(s.variant(), FractalVariant::BurningShip);
}

#[test]
fn cap_moves_in_steps_of_ten() {
    let mut s = initial_state();
    assert!(handle_event(&mut s, InputEvent::IncreaseCap));
    assert_eq!(s.max_iterations, 110);
    assert!(handle_event(&mut s, InputEvent::DecreaseCap));
    assert_eq!(s.max_iterations, 100);
}

#[test]
fn cap_never_drops_below_its_floor() {
    let mut s = initial_state();
    for _ in 0..20 {
        handle_event(&mut s, InputEvent::DecreaseCap);
    }
    assert_eq!(s.max_iterations, 10);
    // One more decrease is rejected outright and asks for no redraw.
    assert!(!handle_event(&mut s, InputEvent::DecreaseCap));
    assert_eq!(s.max_iterations, 10);
}

#[test]
fn reset_redraws_only_when_the_viewport_differs() {
    let mut s = initial_state();
    assert!(!handle_event(&mut s, InputEvent::Reset));
    assert!(handle_event(&mut s, InputEvent::PanLeft));
    assert!(handle_event(&mut s, InputEvent::Reset));
    assert_eq!(s.viewport, default_viewport());
}

#[test]
fn resize_redraws_only_on_a_new_size() {
    let mut s = initial_state();
    assert!(handle_event(&mut s, InputEvent::Resize(80, 24)));
    record_rendered(&mut s, 80, 24);
    assert!(!handle_event(&mut s, InputEvent::Resize(80, 24)));
    assert!(handle_event(&mut s, InputEvent::Resize(81, 24)));
}

#[test]
fn quit_and_redraw_events() {
    let mut s = initial_state();
    assert!(!handle_event(&mut s, InputEvent::Quit));
    assert!(handle_event(&mut s, InputEvent::Redraw));
    assert_eq!(s, initial_state());
}

#[test]
fn zoom_events_change_the_viewport_symmetrically() {
    let mut s = initial_state();
    assert!(handle_event(&mut s, InputEvent::ZoomIn));
    assert_eq!(s.viewport.top, -900_000_000);
    assert_eq!(s.viewport.bottom, 900_000_000);
    assert!(handle_event(&mut s, InputEvent::ZoomOut));
    assert_eq!(s.viewport.center(), (-500_000_000, 0));
}
