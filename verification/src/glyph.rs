//! The total map from a 2x2 on/off subpixel mask to a block glyph.
//!
//! Every one of the 16 masks has its own fixed Unicode character; there is
//! no default case, and a mask and its complement map to visually
//! complementary glyphs.

use vstd::prelude::*;

verus! {

/// The on/off state of the four subpixels of one terminal cell.
#[derive(Clone, Copy, PartialEq, Eq, Structural, Debug)]
pub struct SubpixelMask {
    pub top_left: bool,
    pub top_right: bool,
    pub bottom_left: bool,
    pub bottom_right: bool,
}

impl SubpixelMask {
    /// The mask with all four subpixels on.
    pub open spec fn all_on() -> SubpixelMask {
        SubpixelMask { top_left: true, top_right: true, bottom_left: true, bottom_right: true }
    }

    /// How many of the four subpixels are on.
    pub open spec fn count_on(self) -> int {
        (if self.top_left { 1int } else { 0 }) + (if self.top_right { 1int } else { 0 })
            + (if self.bottom_left { 1int } else { 0 }) + (if self.bottom_right {
            1int
        } else {
            0
        })
    }
}

/// The 16-entry glyph table.
pub open spec fn spec_glyph(m: SubpixelMask) -> char {
    match (m.top_left, m.top_right, m.bottom_left, m.bottom_right) {
        (true, true, true, true) => '█',
        (false, false, false, false) => ' ',
        (false, true, true, true) => '▟',
        (true, false, true, true) => '▙',
        (true, true, false, true) => '▜',
        (true, true, true, false) => '▛',
        (false, false, true, true) => '▄',
        (true, false, false, true) => '▚',
        (true, true, false, false) => '▀',
        (false, true, true, false) => '▞',
        (false, true, false, true) => '▐',
        (true, false, true, false) => '▌',
        (false, false, false, true) => '▗',
        (false, true, false, false) => '▝',
        (true, false, false, false) => '▘',
        (false, false, true, false) => '▖',
    }
}

/// Whether `c` is one of the 16 block glyphs of the table.
pub open spec fn is_block_glyph(c: char) -> bool {
    c == '█' || c == ' ' || c == '▟' || c == '▙' || c == '▜' || c == '▛' || c == '▄' || c == '▚'
        || c == '▀' || c == '▞' || c == '▌' || c == '▐' || c == '▗' || c == '▝' || c == '▘'
        || c == '▖'
}

/// Every mask maps to a glyph of the table: the map is total over its
/// 16-entry domain and never leaves the fixed glyph set.
pub proof fn lemma_glyph_total(m: SubpixelMask)
    ensures
        is_block_glyph(spec_glyph(m)),
{
}

/// Look up the glyph for a subpixel mask.
pub fn glyph_for(m: SubpixelMask) -> (c: char)
    ensures
        c == spec_glyph(m),
{
    match (m.top_left, m.top_right, m.bottom_left, m.bottom_right) {
        (true, true, true, true) => '█',
        (false, false, false, false) => ' ',
        (false, true, true, true) => '▟',
        (true, false, true, true) => '▙',
        (true, true, false, true) => '▜',
        (true, true, true, false) => '▛',
        (false, false, true, true) => '▄',
        (true, false, false, true) => '▚',
        (true, true, false, false) => '▀',
        (false, true, true, false) => '▞',
        (false, true, false, true) => '▐',
        (true, false, true, false) => '▌',
        (false, false, false, true) => '▗',
        (false, true, false, false) => '▝',
        (true, false, false, false) => '▘',
        (false, false, true, false) => '▖',
    }
}

} // verus!
