//! Verified core of an interactive terminal fractal explorer.
//!
//! The library maps a rectangular window of the complex plane, held in
//! fixed-point coordinates, onto a grid of terminal cells. Each cell is
//! sampled at double resolution, quantized into a Unicode block-quadrant
//! glyph with a foreground and an optional background color, and the cells
//! of a frame are composed row by row into one buffer of glyphs and color
//! directives. An unverified shell owns the terminal and feeds input events
//! to the state-transition functions offered here.

pub mod color;
pub mod directive;
pub mod fixed;
pub mod glyph;
pub mod kernel;
pub mod render;
pub mod sampler;
pub mod state;
pub mod viewport;
