use fractal_term::color::Rgb;
use fractal_term::directive::{directives_to_text, Directive};
use fractal_term::kernel::FractalVariant;
use fractal_term::render::{render_frame, render_row, row_directives};
use fractal_term::sampler::cell_pixel;
use fractal_term::viewport::{default_viewport, Viewport};

const GLYPHS: [char; 16] = [
    '█', ' ', '▟', '▙', '▜', '▛', '▄', '▚', '▀', '▞', '▌', '▐', '▗', '▝', '▘', '▖',
];

#[test]
fn foreground_directive_text() {
    let ds = vec![Directive::SetForeground(Rgb { red: 1, green: 2, blue: 3 })];
    assert_eq!(directives_to_text(&ds), "\u{1b}[38;2;1;2;3m");
}

#[test]
fn background_directive_text() {
    let ds = vec![Directive::SetBackground(Rgb { red: 10, green: 200, blue: 0 })];
    assert_eq!(directives_to_text(&ds), "\u{1b}[48;2;10;200;0m");
}

#[test]
fn reset_directive_text() {
    let ds = vec![Directive::Reset];
    assert_eq!(directives_to_text(&ds), "\u{1b}[0m");
}

#[test]
fn cursor_directive_text_is_one_based_row_first() {
    let ds = vec![Directive::CursorTo(0, 4), Directive::CursorTo(123, 9)];
    assert_eq!(directives_to_text(&ds), "\u{1b}[5;1H\u{1b}[10;124H");
}

#[test]
fn glyph_directive_text() {
    let ds = vec![Directive::Glyph('▚'), Directive::Glyph('x')];
    assert_eq!(directives_to_text(&ds), "▚x");
}

fn interior_window() -> Viewport {
    // A small window deep inside the Mandelbrot set.
    Viewport { top: -100_000_000, bottom: 100_000_000, left: -100_000_000, right: 100_000_000 }
}

#[test]
fn uniform_cell_is_a_solid_block_without_background() {
    let vp = interior_window();
    let p = cell_pixel(0, 0, 1, 1, &vp, 100, FractalVariant::Mandelbrot);
    assert_eq!(p.character, '█');
    assert_eq!(p.background, None);
    // Every subpixel sits at the cap, so the mean maps to black.
    assert_eq!(p.foreground, Rgb { red: 0, green: 0, blue: 0 });
}

#[test]
fn equal_cells_share_one_color_directive() {
    let vp = interior_window();
    let ds = row_directives(0, 2, 1, &vp, 100, FractalVariant::Mandelbrot);
    assert_eq!(
        ds,
        vec![
            Directive::SetForeground(Rgb { red: 0, green: 0, blue: 0 }),
            Directive::Glyph('█'),
            Directive::Glyph('█'),
        ]
    );
}

#[test]
fn render_row_is_the_text_of_its_directives() {
    let vp = default_viewport();
    let ds = row_directives(1, 4, 2, &vp, 100, FractalVariant::Mandelbrot);
    assert_eq!(render_row(1, 4, 2, &vp, 100, FractalVariant::Mandelbrot), directives_to_text(&ds));
}

#[test]
fn default_frame_four_by_two() {
    let vp = default_viewport();
    let cap = 100u32;
    let v = FractalVariant::Mandelbrot;
    for y in 0..2u16 {
        let ds = row_directives(y, 4, 2, &vp, cap, v);
        let glyphs: Vec<char> = ds
            .iter()
            .filter_map(|d| match d {
                Directive::Glyph(c) => Some(*c),
                _ => None,
            })
            .collect();
        assert_eq!(glyphs.len(), 4);
        for g in &glyphs {
            assert!(GLYPHS.contains(g));
        }
        assert!(matches!(ds[0], Directive::SetForeground(_)));
        for d in &ds {
            assert!(!matches!(d, Directive::CursorTo(_, _)));
            assert!(!matches!(d, Directive::Reset));
        }
    }
    let frame = render_frame(4, 2, &vp, cap, v);
    assert!(frame.starts_with("\u{1b}[1;1H"));
    assert!(frame.contains("\u{1b}[2;1H"));
    assert!(frame.ends_with("\u{1b}[0m"));
}

#[test]
fn empty_frame_is_just_the_reset() {
    let vp = default_viewport();
    let frame = render_frame(0, 0, &vp, 100, FractalVariant::Julia);
    assert_eq!(frame, "\u{1b}[0m");
}
