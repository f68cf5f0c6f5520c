use fractal_term::glyph::{glyph_for, SubpixelMask};

fn mask(tl: bool, tr: bool, bl: bool, br: bool) -> SubpixelMask {
    SubpixelMask { top_left: tl, top_right: tr, bottom_left: bl, bottom_right: br }
}

#[test]
fn glyph_table_all_sixteen_masks() {
    let expected = [
        (mask(true, true, true, true), '█'),
        (mask(false, false, false, false), ' '),
        (mask(false, true, true, true), '▟'),
        (mask(true, false, true, true), '▙'),
        (mask(true, true, false, true), '▜'),
        (mask(true, true, true, false), '▛'),
        (mask(false, false, true, true), '▄'),
        (mask(true, false, false, true), '▚'),
        (mask(true, true, false, false), '▀'),
        (mask(false, true, true, false), '▞'),
        (mask(false, true, false, true), '▐'),
        (mask(true, false, true, false), '▌'),
        (mask(false, false, false, true), '▗'),
        (mask(false, true, false, false), '▝'),
        (mask(true, false, false, false), '▘'),
        (mask(false, false, true, false), '▖'),
    ];
    assert_eq!(expected.len(), 16);
    for (m, g) in expected {
        assert_eq!(glyph_for(m), g);
    }
}

#[test]
fn glyph_complement_masks_pair_up() {
    let glyphs = [
        glyph_for(mask(true, false, false, false)),
        glyph_for(mask(false, true, true, true)),
        glyph_for(mask(false, false, true, true)),
        glyph_for(mask(true, true, false, false)),
    ];
    assert_eq!(glyphs, ['▘', '▟', '▄', '▀']);
}
